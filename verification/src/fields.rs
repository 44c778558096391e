//! The fields that more than one kind of rule reads, each with its default
//! and with the vocabulary that it is held to.

use vstd::prelude::*;
use crate::error::{failure, outcome, Error, ErrorKind, Failure};
use crate::listing::{csv, write_list, Listing};
use crate::tree::{lemma_sequence_view, Node, Tree};
use crate::vocabulary::{is_protocol, protocol_known, Direction};

verus! {

impl Tree {
    /// The direction of a rule: its field `type`, which is `input` where the
    /// field is absent or holds no text.
    pub open spec fn direction(self) -> Result<Direction, Failure> {
        match Direction::named(self.field("type"@).text_or("input"@)) {
            Some(direction) => Ok(direction),
            None => Err(failure(ErrorKind::InvalidEnum, "type"@)),
        }
    }

    /// The protocol of a rule as it is written: its field `protocol`, which
    /// is `tcp` where the field is absent or holds no text.
    pub open spec fn protocol(self) -> Result<Seq<char>, Failure> {
        let name = self.field("protocol"@).text_or("tcp"@);
        if is_protocol(name) {
            Ok(name)
        } else {
            Err(failure(ErrorKind::InvalidEnum, "protocol"@))
        }
    }

    /// Whether a rule allows: its field `allow`, which is true where the
    /// field is absent or holds no boolean.
    pub open spec fn allows(self) -> bool {
        self.field("allow"@).flag_or(true)
    }

    /// The list of states in the field `name`, where that field holds a
    /// sequence. Each of its items has to be a text.
    pub open spec fn states(self, name: Seq<char>) -> Result<Option<Seq<char>>, Failure> {
        match self.field(name) {
            Tree::Sequence(items) => match csv(Listing::States, items) {
                Some(list) => Ok(Some(list)),
                None => Err(failure(ErrorKind::InvalidShape, name)),
            },
            _ => Ok(None),
        }
    }

    /// The list of addresses in the field `name`, where that field holds a
    /// sequence.
    pub open spec fn addresses(self, name: Seq<char>) -> Option<Seq<char>> {
        match self.field(name) {
            Tree::Sequence(items) => csv(Listing::Addresses, items),
            _ => None,
        }
    }
}

/// The direction of a rule.
pub fn read_direction(doc: &Node) -> (r: Result<Direction, Error>)
    ensures
        outcome(r) == doc@.direction(),
{
    match Direction::parse(doc.text_or("type", "input")) {
        Some(direction) => Ok(direction),
        None => Err(Error::new(ErrorKind::InvalidEnum, "type")),
    }
}

/// The protocol of a rule, as it is written.
pub fn read_protocol<'a>(doc: &'a Node) -> (r: Result<&'a str, Error>)
    ensures
        outcome(r) == doc@.protocol(),
{
    let name = doc.text_or("protocol", "tcp");
    if protocol_known(name) {
        Ok(name)
    } else {
        Err(Error::new(ErrorKind::InvalidEnum, "protocol"))
    }
}

/// Whether a rule allows.
pub fn read_allows(doc: &Node) -> (r: bool)
    ensures
        r == doc@.allows(),
{
    doc.flag_or("allow", true)
}

/// The list of states in the field `name`, as one argument.
pub fn read_states(doc: &Node, name: &str) -> (r: Result<Option<String>, Error>)
    ensures
        outcome(r) == doc@.states(name@),
{
    match doc.get(name) {
        Some(Node::Sequence(items)) => {
            proof {
                lemma_sequence_view(*items);
            }
            match write_list(Listing::States, items) {
                Some(list) => Ok(Some(list)),
                None => Err(Error::new(ErrorKind::InvalidShape, name)),
            }
        },
        _ => Ok(None),
    }
}

/// The list of addresses in the field `name`, as one argument.
pub fn read_addresses(doc: &Node, name: &str) -> (r: Option<String>)
    ensures
        r.deep_view() == doc@.addresses(name@),
{
    match doc.get(name) {
        Some(Node::Sequence(items)) => {
            proof {
                lemma_sequence_view(*items);
            }
            write_list(Listing::Addresses, items)
        },
        _ => None,
    }
}

} // verus!
