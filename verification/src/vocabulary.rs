//! The closed vocabularies of a document: traffic directions, policy actions,
//! kinds of rule and protocols. Each is matched without regard to ASCII case.

use vstd::prelude::*;
use crate::text::{same_text, to_upper, upper};

verus! {

/// A traffic direction, which is also a built-in chain.
#[derive(Clone, Copy, Debug, PartialEq, Eq, Structural)]
pub enum Direction {
    Input,
    Output,
    Forward,
}

/// What a chain does with a packet that no rule matched.
#[derive(Clone, Copy, Debug, PartialEq, Eq, Structural)]
pub enum Action {
    Drop,
    Reject,
    Accept,
}

/// A kind of rule, which is the key of a list of such rules in a section.
#[derive(Clone, Copy, Debug, PartialEq, Eq, Structural)]
pub enum Category {
    Raw,
    Matches,
    Ports,
}

impl DeepView for Direction {
    type V = Direction;

    open spec fn deep_view(&self) -> Direction {
        *self
    }
}

impl Direction {
    /// The direction that `name` spells, in any mix of cases.
    pub open spec fn named(name: Seq<char>) -> Option<Direction> {
        if upper(name) == "INPUT"@ {
            Some(Direction::Input)
        } else if upper(name) == "OUTPUT"@ {
            Some(Direction::Output)
        } else if upper(name) == "FORWARD"@ {
            Some(Direction::Forward)
        } else {
            None
        }
    }

    /// The name of the chain for this direction.
    pub open spec fn chain(self) -> Seq<char> {
        match self {
            Direction::Input => "INPUT"@,
            Direction::Output => "OUTPUT"@,
            Direction::Forward => "FORWARD"@,
        }
    }

    /// Reads a direction from its name.
    pub fn parse(name: &str) -> (r: Option<Direction>)
        ensures
            r == Direction::named(name@),
    {
        let word = to_upper(name);
        if same_text(word.as_str(), "INPUT") {
            Some(Direction::Input)
        } else if same_text(word.as_str(), "OUTPUT") {
            Some(Direction::Output)
        } else if same_text(word.as_str(), "FORWARD") {
            Some(Direction::Forward)
        } else {
            None
        }
    }

    /// The name of the chain for this direction.
    pub fn chain_name(self) -> (r: &'static str)
        ensures
            r@ == self.chain(),
    {
        match self {
            Direction::Input => "INPUT",
            Direction::Output => "OUTPUT",
            Direction::Forward => "FORWARD",
        }
    }
}

impl Action {
    /// The action that `name` spells, in any mix of cases.
    pub open spec fn named(name: Seq<char>) -> Option<Action> {
        if upper(name) == "DROP"@ {
            Some(Action::Drop)
        } else if upper(name) == "REJECT"@ {
            Some(Action::Reject)
        } else if upper(name) == "ACCEPT"@ {
            Some(Action::Accept)
        } else {
            None
        }
    }

    /// The word for this action on a command line.
    pub open spec fn word(self) -> Seq<char> {
        match self {
            Action::Drop => "DROP"@,
            Action::Reject => "REJECT"@,
            Action::Accept => "ACCEPT"@,
        }
    }

    /// Reads an action from its name.
    pub fn parse(name: &str) -> (r: Option<Action>)
        ensures
            r == Action::named(name@),
    {
        let word = to_upper(name);
        if same_text(word.as_str(), "DROP") {
            Some(Action::Drop)
        } else if same_text(word.as_str(), "REJECT") {
            Some(Action::Reject)
        } else if same_text(word.as_str(), "ACCEPT") {
            Some(Action::Accept)
        } else {
            None
        }
    }

    /// The word for this action on a command line.
    pub fn word_text(self) -> (r: &'static str)
        ensures
            r@ == self.word(),
    {
        match self {
            Action::Drop => "DROP",
            Action::Reject => "REJECT",
            Action::Accept => "ACCEPT",
        }
    }
}

impl Category {
    /// The kind of rule that `name` spells, in any mix of cases.
    pub open spec fn named(name: Seq<char>) -> Option<Category> {
        if upper(name) == "RAW"@ {
            Some(Category::Raw)
        } else if upper(name) == "MATCHES"@ {
            Some(Category::Matches)
        } else if upper(name) == "PORTS"@ {
            Some(Category::Ports)
        } else {
            None
        }
    }

    /// Reads a kind of rule from its name.
    pub fn parse(name: &str) -> (r: Option<Category>)
        ensures
            r == Category::named(name@),
    {
        let word = to_upper(name);
        if same_text(word.as_str(), "RAW") {
            Some(Category::Raw)
        } else if same_text(word.as_str(), "MATCHES") {
            Some(Category::Matches)
        } else if same_text(word.as_str(), "PORTS") {
            Some(Category::Ports)
        } else {
            None
        }
    }
}

/// Whether `name` spells the key of the section of default policies.
pub open spec fn is_filter(name: Seq<char>) -> bool {
    upper(name) == "FILTER"@
}

/// Whether `name` spells the key of the section of default policies.
pub fn names_filter(name: &str) -> (r: bool)
    ensures
        r == is_filter(name@),
{
    let word = to_upper(name);
    same_text(word.as_str(), "FILTER")
}

/// Whether `name` spells one of the protocols that a port rule can carry.
pub open spec fn is_protocol(name: Seq<char>) -> bool {
    upper(name) == "TCP"@ || upper(name) == "UDP"@
}

/// Whether `name` spells a protocol that a port rule can carry.
pub fn protocol_known(name: &str) -> (r: bool)
    ensures
        r == is_protocol(name@),
{
    let word = to_upper(name);
    same_text(word.as_str(), "TCP") || same_text(word.as_str(), "UDP")
}

/// The target of a rule that allows, or of one that does not.
pub open spec fn verdict(allow: bool) -> Seq<char> {
    if allow {
        "ACCEPT"@
    } else {
        "DROP"@
    }
}

/// The target of a rule that allows, or of one that does not.
pub fn verdict_text(allow: bool) -> (r: &'static str)
    ensures
        r@ == verdict(allow),
{
    if allow {
        "ACCEPT"
    } else {
        "DROP"
    }
}

} // verus!
