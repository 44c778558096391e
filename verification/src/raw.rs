//! Raw lines: commands that the document spells out itself.

use vstd::prelude::*;
use crate::emission::{
    appended, in_turn, lemma_in_turn_advance, lemma_in_turn_end, lemma_in_turn_stop,
    lemma_line_pushed, Emission,
};
use crate::error::{failure, outcome, Error, ErrorKind, Failure};
use crate::tree::{lemma_sequence_view, trees_of, Node, Tree};

verus! {

/// What each item of a list emits on its own.
pub open spec fn raw_steps(items: Seq<Tree>) -> Seq<Emission> {
    Seq::new(items.len(), |i: int| Emission::of_line(items[i].raw_line()))
}

impl Tree {
    /// A raw line: a text, which is taken as it stands.
    pub open spec fn raw_line(self) -> Result<Seq<char>, Failure> {
        match self {
            Tree::Text(line) => Ok(line),
            _ => Err(failure(ErrorKind::InvalidShape, "raw"@)),
        }
    }

    /// The lines of a list of raw lines, unchanged and in the order of the
    /// list, up to the first item that is no text.
    pub open spec fn raw_lines(self) -> Emission {
        match self {
            Tree::Sequence(items) => in_turn(raw_steps(items)),
            _ => Emission::failed(failure(ErrorKind::InvalidShape, "raw"@)),
        }
    }
}

/// The line that one raw item holds.
pub fn parse_raw_item(doc: &Node) -> (r: Result<String, Error>)
    ensures
        outcome(r) == doc@.raw_line(),
{
    match doc {
        Node::Text(line) => Ok(line.clone()),
        _ => Err(Error::new(ErrorKind::InvalidShape, "raw")),
    }
}

/// Writes the lines of a list of raw lines to `out`.
pub fn parse_raw(doc: &Node, out: &mut Vec<String>) -> (r: Result<(), Error>)
    ensures
        appended(*old(out), *final(out), r, doc@.raw_lines()),
{
    match doc {
        Node::Sequence(items) => {
            let ghost steps = raw_steps(trees_of(items@));
            let ghost before = out.deep_view();
            let ghost mut done: Seq<Seq<char>> = Seq::empty();
            let mut i: usize = 0;
            proof {
                lemma_sequence_view(*items);
                assert(steps.skip(0) == steps);
                assert(before + done == before);
            }
            while i < items.len()
                invariant
                    i <= items.len(),
                    steps == raw_steps(trees_of(items@)),
                    doc@.raw_lines() == in_turn(steps),
                    before == old(out).deep_view(),
                    out.deep_view() == before + done,
                    in_turn(steps) == in_turn(steps.skip(i as int)).after(done),
                decreases items.len() - i,
            {
                match parse_raw_item(&items[i]) {
                    Ok(line) => {
                        let ghost held = *out;
                        out.push(line);
                        proof {
                            lemma_in_turn_advance(steps, i as int, done);
                            lemma_line_pushed(held, line, *out);
                            assert(out.deep_view() == before + (done + seq![line@]));
                            done = done + seq![line@];
                        }
                    },
                    Err(e) => {
                        proof {
                            lemma_in_turn_stop(steps, i as int, done);
                        }
                        return Err(e);
                    },
                }
                i += 1;
            }
            proof {
                lemma_in_turn_end(steps, done);
            }
            Ok(())
        },
        _ => {
            assert(out.deep_view() + Seq::<Seq<char>>::empty() == out.deep_view());
            Err(Error::new(ErrorKind::InvalidShape, "raw"))
        },
    }
}

} // verus!
