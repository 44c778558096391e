//! Match rules: accept or drop by what a match module finds, most often the
//! state of a connection.

use vstd::prelude::*;
use crate::command::{borrowed, match_command, match_line};
use crate::emission::{
    appended, in_turn, lemma_in_turn_advance, lemma_in_turn_end, lemma_in_turn_stop,
    lemma_line_pushed, Emission,
};
use crate::error::{failure, outcome, Error, ErrorKind, Failure};
use crate::fields::{read_allows, read_direction, read_states};
use crate::tree::{lemma_sequence_view, trees_of, Node, Tree};

verus! {

/// What each rule of a list emits on its own.
pub open spec fn match_steps(items: Seq<Tree>) -> Seq<Emission> {
    Seq::new(items.len(), |i: int| Emission::of_line(items[i].match_rule()))
}

impl Tree {
    /// The one command of a match rule, or the first fault found in it. The
    /// field `match` names the module and has to be there; the rule is
    /// inserted at the head of its chain.
    pub open spec fn match_rule(self) -> Result<Seq<char>, Failure> {
        if !(self is Mapping) {
            Err(failure(ErrorKind::InvalidShape, "matches"@))
        } else if !self.has("match"@) {
            Err(failure(ErrorKind::MissingField, "match"@))
        } else {
            match self.direction() {
                Err(f) => Err(f),
                Ok(direction) => match self.field("match"@) {
                    Tree::Text(module) => match self.states("state"@) {
                        Err(f) => Err(f),
                        Ok(state) => match self.states("ctstate"@) {
                            Err(f) => Err(f),
                            Ok(ctstate) => Ok(
                                match_line(direction, module, state, ctstate, self.allows()),
                            ),
                        },
                    },
                    _ => Err(failure(ErrorKind::InvalidShape, "match"@)),
                },
            }
        }
    }

    /// The commands of a list of match rules, one for each rule in the order
    /// of the list, up to the first rule at fault.
    pub open spec fn match_rules(self) -> Emission {
        match self {
            Tree::Sequence(items) => in_turn(match_steps(items)),
            _ => Emission::failed(failure(ErrorKind::InvalidShape, "matches"@)),
        }
    }
}

/// The command of one match rule.
pub fn parse_match_item(doc: &Node) -> (r: Result<String, Error>)
    ensures
        outcome(r) == doc@.match_rule(),
{
    if !doc.is_mapping() {
        return Err(Error::new(ErrorKind::InvalidShape, "matches"));
    }
    let module = match doc.get("match") {
        Some(module) => module,
        None => {
            return Err(Error::new(ErrorKind::MissingField, "match"));
        },
    };
    let direction = read_direction(doc)?;
    let module = match module {
        Node::Text(name) => name.as_str(),
        _ => {
            return Err(Error::new(ErrorKind::InvalidShape, "match"));
        },
    };
    let state = read_states(doc, "state")?;
    let ctstate = read_states(doc, "ctstate")?;
    Ok(match_command(direction, module, borrowed(&state), borrowed(&ctstate), read_allows(doc)))
}

/// Writes the commands of a list of match rules to `out`.
pub fn parse_match(doc: &Node, out: &mut Vec<String>) -> (r: Result<(), Error>)
    ensures
        appended(*old(out), *final(out), r, doc@.match_rules()),
{
    match doc {
        Node::Sequence(items) => {
            let ghost steps = match_steps(trees_of(items@));
            let ghost before = out.deep_view();
            let ghost mut done: Seq<Seq<char>> = Seq::empty();
            let mut i: usize = 0;
            proof {
                lemma_sequence_view(*items);
                assert(steps.skip(0) == steps);
                assert(before + done == before);
            }
            while i < items.len()
                invariant
                    i <= items.len(),
                    steps == match_steps(trees_of(items@)),
                    doc@.match_rules() == in_turn(steps),
                    before == old(out).deep_view(),
                    out.deep_view() == before + done,
                    in_turn(steps) == in_turn(steps.skip(i as int)).after(done),
                decreases items.len() - i,
            {
                match parse_match_item(&items[i]) {
                    Ok(command) => {
                        let ghost held = *out;
                        out.push(command);
                        proof {
                            lemma_in_turn_advance(steps, i as int, done);
                            lemma_line_pushed(held, command, *out);
                            assert(out.deep_view() == before + (done + seq![command@]));
                            done = done + seq![command@];
                        }
                    },
                    Err(e) => {
                        proof {
                            lemma_in_turn_stop(steps, i as int, done);
                        }
                        return Err(e);
                    },
                }
                i += 1;
            }
            proof {
                lemma_in_turn_end(steps, done);
            }
            Ok(())
        },
        _ => {
            assert(out.deep_view() + Seq::<Seq<char>>::empty() == out.deep_view());
            Err(Error::new(ErrorKind::InvalidShape, "matches"))
        },
    }
}

} // verus!
