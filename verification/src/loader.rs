//! Reading documents out of YAML text, and the whole way from text to
//! commands.

use vstd::prelude::*;
use yaml_rust::{ScanError, Yaml, YamlLoader};
use crate::document::parse_yaml;
use crate::emission::{appended, Emission};
use crate::error::{failure, Error, ErrorKind};
use crate::tree::{entries_of, lemma_mapping_view, lemma_sequence_view, trees_of, Node, Tree};

verus! {

/// A YAML value as `yaml_rust` holds it.
#[verifier::external_type_specification]
#[verifier::external_body]
pub struct ExYaml(Yaml);

/// What `yaml_rust` reports about text that is not YAML.
#[verifier::external_type_specification]
#[verifier::external_body]
pub struct ExScanError(ScanError);

/// The content of a YAML value, variant for variant.
pub uninterp spec fn yaml_tree(value: Yaml) -> Tree;

/// The documents that `YamlLoader::load_from_str` finds in a text, in order,
/// or `None` where it rejects the text.
pub uninterp spec fn parsed(text: Seq<char>) -> Option<Seq<Tree>>;

/// The contents of some YAML values, in order.
pub open spec fn yaml_trees(values: Seq<Yaml>) -> Seq<Tree> {
    Seq::new(values.len(), |i: int| yaml_tree(values[i]))
}

/// The contents of some pairs of YAML values, in order.
pub open spec fn yaml_pairs(pairs: Seq<(&Yaml, &Yaml)>) -> Seq<(Tree, Tree)> {
    Seq::new(pairs.len(), |i: int| (yaml_tree(*pairs[i].0), yaml_tree(*pairs[i].1)))
}

/// `YamlLoader::load_from_str`: the documents of `text`, or the error of the
/// scanner. Nothing is claimed of what the documents hold beyond their name:
/// they are what this loader makes of the text.
#[verifier::external_body]
fn scan(text: &str) -> (r: Result<Vec<Yaml>, ScanError>)
    ensures
        match r {
            Ok(values) => parsed(text@) == Some(yaml_trees(values@)),
            Err(_) => parsed(text@) is None,
        },
{
    YamlLoader::load_from_str(text)
}

/// One level of a YAML value: a scalar as the node that stands for it, an
/// array by its items, a hash by its entries.
enum Part<'a> {
    Scalar(Node),
    Items(&'a Vec<Yaml>),
    Entries(Vec<(&'a Yaml, &'a Yaml)>),
}

/// Takes a `Yaml` value apart, variant by variant. A scalar becomes the node
/// of the same variant with the same field. An array hands out its vector. A
/// hash hands out its entries in the order in which `LinkedHashMap::iter`
/// walks them, which is the order in which they were put in.
#[verifier::external_body]
fn part_of<'a>(value: &'a Yaml) -> (part: Part<'a>)
    ensures
        match part {
            Part::Scalar(node) => node@ == yaml_tree(*value),
            Part::Items(items) => yaml_tree(*value) == Tree::Sequence(yaml_trees(items@)),
            Part::Entries(entries) => yaml_tree(*value) == Tree::Mapping(yaml_pairs(entries@)),
        },
{
    match value {
        Yaml::Real(s) => Part::Scalar(Node::Real(s.clone())),
        Yaml::Integer(n) => Part::Scalar(Node::Integer(*n)),
        Yaml::String(s) => Part::Scalar(Node::Text(s.clone())),
        Yaml::Boolean(b) => Part::Scalar(Node::Boolean(*b)),
        Yaml::Array(items) => Part::Items(items),
        Yaml::Hash(entries) => Part::Entries(entries.iter().collect()),
        Yaml::Alias(id) => Part::Scalar(Node::Alias(*id)),
        Yaml::Null => Part::Scalar(Node::Null),
        Yaml::BadValue => Part::Scalar(Node::BadValue),
    }
}

/// The node that holds what a YAML value holds.
fn node_of(value: &Yaml) -> (node: Node)
    ensures
        node@ == yaml_tree(*value),
    decreases yaml_tree(*value),
{
    match part_of(value) {
        Part::Scalar(node) => node,
        Part::Items(items) => {
            let mut nodes: Vec<Node> = Vec::new();
            let mut i: usize = 0;
            while i < items.len()
                invariant
                    i <= items.len(),
                    nodes@.len() == i,
                    yaml_tree(*value) == Tree::Sequence(yaml_trees(items@)),
                    forall|j: int| 0 <= j < i ==> (#[trigger] nodes@[j])@ == yaml_tree(items@[j]),
                decreases items.len() - i,
            {
                assert(yaml_trees(items@)[i as int] == yaml_tree(items@[i as int]));
                assert(decreases_to!(yaml_tree(*value) => yaml_tree(*value)->Sequence_0[i as int]));
                nodes.push(node_of(&items[i]));
                i += 1;
            }
            proof {
                lemma_sequence_view(nodes);
                assert(trees_of(nodes@) =~= yaml_trees(items@));
            }
            Node::Sequence(nodes)
        },
        Part::Entries(entries) => {
            let mut nodes: Vec<(Node, Node)> = Vec::new();
            let mut i: usize = 0;
            while i < entries.len()
                invariant
                    i <= entries.len(),
                    nodes@.len() == i,
                    yaml_tree(*value) == Tree::Mapping(yaml_pairs(entries@)),
                    forall|j: int|
                        0 <= j < i ==> (#[trigger] nodes@[j]).0@ == yaml_tree(*entries@[j].0)
                            && nodes@[j].1@ == yaml_tree(*entries@[j].1),
                decreases entries.len() - i,
            {
                assert(yaml_pairs(entries@)[i as int] == (
                    yaml_tree(*entries@[i as int].0),
                    yaml_tree(*entries@[i as int].1),
                ));
                assert(decreases_to!(yaml_tree(*value) => yaml_tree(*value)->Mapping_0[i as int].0));
                assert(decreases_to!(yaml_tree(*value) => yaml_tree(*value)->Mapping_0[i as int].1));
                let key = node_of(entries[i].0);
                let held = node_of(entries[i].1);
                nodes.push((key, held));
                i += 1;
            }
            proof {
                lemma_mapping_view(nodes);
                assert(entries_of(nodes@) =~= yaml_pairs(entries@));
            }
            Node::Mapping(nodes)
        },
    }
}

/// Why a text gave no commands, or not all of them.
#[derive(Debug, PartialEq, Eq)]
pub enum ReadError {
    /// The text is not YAML.
    Syntax,
    /// The text is YAML, and its first document was rejected.
    Document(Error),
}

/// The commands of the first of some documents. There has to be one.
pub open spec fn first_document(documents: Seq<Tree>) -> Emission {
    if documents.len() == 0 {
        Emission::failed(failure(ErrorKind::InvalidShape, "document"@))
    } else {
        documents[0].document()
    }
}

/// The documents of a YAML text, or `None` where the text is not YAML.
pub fn load_documents(text: &str) -> (r: Option<Vec<Node>>)
    ensures
        match r {
            Some(nodes) => parsed(text@) == Some(trees_of(nodes@)),
            None => parsed(text@) is None,
        },
{
    match scan(text) {
        Ok(values) => {
            let mut nodes: Vec<Node> = Vec::new();
            let mut i: usize = 0;
            while i < values.len()
                invariant
                    i <= values.len(),
                    nodes@.len() == i,
                    forall|j: int| 0 <= j < i ==> (#[trigger] nodes@[j])@ == yaml_tree(values@[j]),
                decreases values.len() - i,
            {
                nodes.push(node_of(&values[i]));
                i += 1;
            }
            assert(trees_of(nodes@) =~= yaml_trees(values@));
            Some(nodes)
        },
        Err(_) => None,
    }
}

/// Writes the commands of the first of `documents` to `out`.
pub fn parse_documents(documents: &Vec<Node>, out: &mut Vec<String>) -> (r: Result<(), Error>)
    ensures
        appended(*old(out), *final(out), r, first_document(trees_of(documents@))),
{
    if documents.len() == 0 {
        assert(out.deep_view() + Seq::<Seq<char>>::empty() == out.deep_view());
        Err(Error::new(ErrorKind::InvalidShape, "document"))
    } else {
        parse_yaml(&documents[0], out)
    }
}

/// Writes the commands that a YAML text describes to `out`: those of its
/// first document.
pub fn read_yaml(text: &str, out: &mut Vec<String>) -> (r: Result<(), ReadError>)
    ensures
        match parsed(text@) {
            None => r == Err::<(), ReadError>(ReadError::Syntax) && final(out)@ == old(out)@,
            Some(documents) => match r {
                Ok(_) => appended(*old(out), *final(out), Ok(()), first_document(documents)),
                Err(ReadError::Document(e)) => appended(
                    *old(out),
                    *final(out),
                    Err(e),
                    first_document(documents),
                ),
                Err(ReadError::Syntax) => false,
            },
        },
{
    match load_documents(text) {
        Some(documents) => match parse_documents(&documents, out) {
            Ok(_) => Ok(()),
            Err(e) => Err(ReadError::Document(e)),
        },
        None => Err(ReadError::Syntax),
    }
}

} // verus!
