//! Default policies: what each chain does with a packet that no rule matched.

use vstd::prelude::*;
use crate::command::{bare_policy_command, bare_policy_line, policy_command, policy_line};
use crate::emission::{
    appended, in_turn, lemma_in_turn_advance, lemma_in_turn_end, lemma_in_turn_stop,
    lemma_line_pushed, Emission,
};
use crate::error::{failure, outcome, Error, ErrorKind, Failure};
use crate::tree::{entries_of, lemma_mapping_view, Node, Tree};
use crate::vocabulary::{Action, Direction};

verus! {

/// The one command of an entry of the policy section. The key names a chain
/// and the value is a text. For a built-in chain the value has to name an
/// action. Any other chain is named in upper case, whatever the text says.
pub open spec fn policy(key: Tree, value: Tree) -> Result<Seq<char>, Failure> {
    match key {
        Tree::Text(chain) => match value {
            Tree::Text(word) => match Direction::named(chain) {
                Some(direction) => match Action::named(word) {
                    Some(action) => Ok(policy_line(direction, action)),
                    None => Err(failure(ErrorKind::InvalidEnum, chain)),
                },
                None => Ok(bare_policy_line(chain)),
            },
            _ => Err(failure(ErrorKind::InvalidShape, chain)),
        },
        _ => Err(failure(ErrorKind::InvalidShape, "filter"@)),
    }
}

/// What each entry of the policy section emits on its own.
pub open spec fn policy_steps(entries: Seq<(Tree, Tree)>) -> Seq<Emission> {
    Seq::new(entries.len(), |i: int| Emission::of_line(policy(entries[i].0, entries[i].1)))
}

impl Tree {
    /// The commands of the policy section, one for each entry in the order of
    /// the section, up to the first entry at fault.
    pub open spec fn policies(self) -> Emission {
        match self {
            Tree::Mapping(entries) => in_turn(policy_steps(entries)),
            _ => Emission::failed(failure(ErrorKind::InvalidShape, "filter"@)),
        }
    }
}

/// The command of one entry of the policy section.
pub fn parse_policy(key: &Node, value: &Node) -> (r: Result<String, Error>)
    ensures
        outcome(r) == policy(key@, value@),
{
    let chain = match key {
        Node::Text(chain) => chain.as_str(),
        _ => {
            return Err(Error::new(ErrorKind::InvalidShape, "filter"));
        },
    };
    let word = match value {
        Node::Text(word) => word.as_str(),
        _ => {
            return Err(Error::new(ErrorKind::InvalidShape, chain));
        },
    };
    match Direction::parse(chain) {
        Some(direction) => match Action::parse(word) {
            Some(action) => Ok(policy_command(direction, action)),
            None => Err(Error::new(ErrorKind::InvalidEnum, chain)),
        },
        None => Ok(bare_policy_command(chain)),
    }
}

/// Writes the commands of the policy section to `out`.
pub fn parse_filter(doc: &Node, out: &mut Vec<String>) -> (r: Result<(), Error>)
    ensures
        appended(*old(out), *final(out), r, doc@.policies()),
{
    match doc {
        Node::Mapping(entries) => {
            let ghost steps = policy_steps(entries_of(entries@));
            let ghost before = out.deep_view();
            let ghost mut done: Seq<Seq<char>> = Seq::empty();
            let mut i: usize = 0;
            proof {
                lemma_mapping_view(*entries);
                assert(steps.skip(0) == steps);
                assert(before + done == before);
            }
            while i < entries.len()
                invariant
                    i <= entries.len(),
                    steps == policy_steps(entries_of(entries@)),
                    doc@.policies() == in_turn(steps),
                    before == old(out).deep_view(),
                    out.deep_view() == before + done,
                    in_turn(steps) == in_turn(steps.skip(i as int)).after(done),
                decreases entries.len() - i,
            {
                let entry = &entries[i];
                match parse_policy(&entry.0, &entry.1) {
                    Ok(command) => {
                        let ghost held = *out;
                        out.push(command);
                        proof {
                            lemma_in_turn_advance(steps, i as int, done);
                            lemma_line_pushed(held, command, *out);
                            assert(out.deep_view() == before + (done + seq![command@]));
                            done = done + seq![command@];
                        }
                    },
                    Err(e) => {
                        proof {
                            lemma_in_turn_stop(steps, i as int, done);
                        }
                        return Err(e);
                    },
                }
                i += 1;
            }
            proof {
                lemma_in_turn_end(steps, done);
            }
            Ok(())
        },
        _ => {
            assert(out.deep_view() + Seq::<Seq<char>>::empty() == out.deep_view());
            Err(Error::new(ErrorKind::InvalidShape, "filter"))
        },
    }
}

} // verus!
