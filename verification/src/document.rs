//! A whole document: the section of default policies and the sections that
//! the user named, each of them read by the module for its kind of rule.

use vstd::prelude::*;
use crate::emission::{
    appended, in_turn, lemma_in_turn_advance, lemma_in_turn_end, lemma_in_turn_stop, Emission,
};
use crate::error::{failure, Error, ErrorKind, Failure};
use crate::filter::parse_filter;
use crate::matches::parse_match;
use crate::ports::parse_ports;
use crate::raw::parse_raw;
use crate::tree::{entries_of, lemma_mapping_view, Node, Tree};
use crate::vocabulary::{is_filter, names_filter, Category};

verus! {

/// What one entry of a section emits: the rules of the kind that the key
/// names. A key that names no kind ends the work before any of its rules is
/// looked at.
pub open spec fn section_entry(key: Tree, value: Tree) -> Emission {
    match key {
        Tree::Text(name) => match Category::named(name) {
            Some(Category::Raw) => value.raw_lines(),
            Some(Category::Matches) => value.match_rules(),
            Some(Category::Ports) => value.port_rules(),
            None => Emission::failed(failure(ErrorKind::UnknownSection, name)),
        },
        _ => Emission::failed(failure(ErrorKind::InvalidShape, "section"@)),
    }
}

/// What each entry of a section emits on its own.
pub open spec fn section_steps(entries: Seq<(Tree, Tree)>) -> Seq<Emission> {
    Seq::new(entries.len(), |i: int| section_entry(entries[i].0, entries[i].1))
}

/// What one entry of a document emits: the policy section under the key
/// `filter`, a section of rules under any other key.
pub open spec fn document_entry(key: Tree, value: Tree) -> Emission {
    match key {
        Tree::Text(name) => if is_filter(name) {
            value.policies()
        } else {
            value.section()
        },
        _ => Emission::failed(failure(ErrorKind::InvalidShape, "document"@)),
    }
}

/// What each entry of a document emits on its own.
pub open spec fn document_steps(entries: Seq<(Tree, Tree)>) -> Seq<Emission> {
    Seq::new(entries.len(), |i: int| document_entry(entries[i].0, entries[i].1))
}

impl Tree {
    /// The commands of a section, entry by entry in the order of the section,
    /// up to the first fault.
    pub open spec fn section(self) -> Emission {
        match self {
            Tree::Mapping(entries) => in_turn(section_steps(entries)),
            _ => Emission::failed(failure(ErrorKind::InvalidShape, "section"@)),
        }
    }

    /// The commands of a document, entry by entry in the order of the
    /// document, up to the first fault.
    pub open spec fn document(self) -> Emission {
        match self {
            Tree::Mapping(entries) => in_turn(document_steps(entries)),
            _ => Emission::failed(failure(ErrorKind::InvalidShape, "document"@)),
        }
    }
}

/// The commands of a document and the fault that ended the work on it, if
/// any. The commands stand in the order in which they are to be run.
#[derive(Debug, PartialEq, Eq)]
pub struct Composition {
    pub commands: Vec<String>,
    pub error: Option<Error>,
}

/// The content of an optional error.
pub open spec fn opt_failure(error: Option<Error>) -> Option<Failure> {
    match error {
        Some(e) => Some(e@),
        None => None,
    }
}

impl View for Composition {
    type V = Emission;

    open spec fn view(&self) -> Emission {
        Emission { lines: self.commands.deep_view(), failure: opt_failure(self.error) }
    }
}

/// Writes the commands of one entry of a section to `out`.
pub fn parse_section_entry(key: &Node, value: &Node, out: &mut Vec<String>) -> (r: Result<
    (),
    Error,
>)
    ensures
        appended(*old(out), *final(out), r, section_entry(key@, value@)),
{
    let name = match key {
        Node::Text(name) => name.as_str(),
        _ => {
            assert(out.deep_view() + Seq::<Seq<char>>::empty() == out.deep_view());
            return Err(Error::new(ErrorKind::InvalidShape, "section"));
        },
    };
    match Category::parse(name) {
        Some(Category::Raw) => parse_raw(value, out),
        Some(Category::Matches) => parse_match(value, out),
        Some(Category::Ports) => parse_ports(value, out),
        None => {
            assert(out.deep_view() + Seq::<Seq<char>>::empty() == out.deep_view());
            Err(Error::new(ErrorKind::UnknownSection, name))
        },
    }
}

/// Writes the commands of a section to `out`.
pub fn parse_section(doc: &Node, out: &mut Vec<String>) -> (r: Result<(), Error>)
    ensures
        appended(*old(out), *final(out), r, doc@.section()),
{
    match doc {
        Node::Mapping(entries) => {
            let ghost steps = section_steps(entries_of(entries@));
            let ghost before = out.deep_view();
            let ghost mut done: Seq<Seq<char>> = Seq::empty();
            let mut i: usize = 0;
            proof {
                lemma_mapping_view(*entries);
                assert(steps.skip(0) == steps);
                assert(before + done == before);
            }
            while i < entries.len()
                invariant
                    i <= entries.len(),
                    steps == section_steps(entries_of(entries@)),
                    doc@.section() == in_turn(steps),
                    before == old(out).deep_view(),
                    out.deep_view() == before + done,
                    in_turn(steps) == in_turn(steps.skip(i as int)).after(done),
                decreases entries.len() - i,
            {
                let entry = &entries[i];
                match parse_section_entry(&entry.0, &entry.1, out) {
                    Ok(_) => {
                        proof {
                            lemma_in_turn_advance(steps, i as int, done);
                            assert(out.deep_view() == before + (done + steps[i as int].lines));
                            done = done + steps[i as int].lines;
                        }
                    },
                    Err(e) => {
                        proof {
                            lemma_in_turn_stop(steps, i as int, done);
                            assert(out.deep_view() == before + (done + steps[i as int].lines));
                        }
                        return Err(e);
                    },
                }
                i += 1;
            }
            proof {
                lemma_in_turn_end(steps, done);
            }
            Ok(())
        },
        _ => {
            assert(out.deep_view() + Seq::<Seq<char>>::empty() == out.deep_view());
            Err(Error::new(ErrorKind::InvalidShape, "section"))
        },
    }
}

/// Writes the commands of one entry of a document to `out`.
pub fn parse_document_entry(key: &Node, value: &Node, out: &mut Vec<String>) -> (r: Result<
    (),
    Error,
>)
    ensures
        appended(*old(out), *final(out), r, document_entry(key@, value@)),
{
    match key {
        Node::Text(name) => {
            if names_filter(name.as_str()) {
                parse_filter(value, out)
            } else {
                parse_section(value, out)
            }
        },
        _ => {
            assert(out.deep_view() + Seq::<Seq<char>>::empty() == out.deep_view());
            Err(Error::new(ErrorKind::InvalidShape, "document"))
        },
    }
}

/// Writes the commands of a document to `out`.
pub fn parse_yaml(doc: &Node, out: &mut Vec<String>) -> (r: Result<(), Error>)
    ensures
        appended(*old(out), *final(out), r, doc@.document()),
{
    match doc {
        Node::Mapping(entries) => {
            let ghost steps = document_steps(entries_of(entries@));
            let ghost before = out.deep_view();
            let ghost mut done: Seq<Seq<char>> = Seq::empty();
            let mut i: usize = 0;
            proof {
                lemma_mapping_view(*entries);
                assert(steps.skip(0) == steps);
                assert(before + done == before);
            }
            while i < entries.len()
                invariant
                    i <= entries.len(),
                    steps == document_steps(entries_of(entries@)),
                    doc@.document() == in_turn(steps),
                    before == old(out).deep_view(),
                    out.deep_view() == before + done,
                    in_turn(steps) == in_turn(steps.skip(i as int)).after(done),
                decreases entries.len() - i,
            {
                let entry = &entries[i];
                match parse_document_entry(&entry.0, &entry.1, out) {
                    Ok(_) => {
                        proof {
                            lemma_in_turn_advance(steps, i as int, done);
                            assert(out.deep_view() == before + (done + steps[i as int].lines));
                            done = done + steps[i as int].lines;
                        }
                    },
                    Err(e) => {
                        proof {
                            lemma_in_turn_stop(steps, i as int, done);
                            assert(out.deep_view() == before + (done + steps[i as int].lines));
                        }
                        return Err(e);
                    },
                }
                i += 1;
            }
            proof {
                lemma_in_turn_end(steps, done);
            }
            Ok(())
        },
        _ => {
            assert(out.deep_view() + Seq::<Seq<char>>::empty() == out.deep_view());
            Err(Error::new(ErrorKind::InvalidShape, "document"))
        },
    }
}

/// The commands of a document, and the first fault in it.
pub fn compose(doc: &Node) -> (r: Composition)
    ensures
        r@ == doc@.document(),
{
    let mut commands: Vec<String> = Vec::new();
    let ghost empty = commands;
    let result = parse_yaml(doc, &mut commands);
    assert(commands.deep_view() == doc@.document().lines) by {
        assert(empty.deep_view() == Seq::<Seq<char>>::empty());
        assert(empty.deep_view() + doc@.document().lines == doc@.document().lines);
    }
    match result {
        Ok(_) => Composition { commands, error: None },
        Err(e) => Composition { commands, error: Some(e) },
    }
}

} // verus!
