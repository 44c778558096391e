//! The tree of a document: scalars, sequences and mappings.

use vstd::prelude::*;

verus! {

/// A node of a document.
#[derive(Debug, PartialEq, Eq)]
pub enum Node {
    Null,
    Boolean(bool),
    Integer(i64),
    /// A number with a fraction, kept as it was written.
    Real(String),
    Text(String),
    Sequence(Vec<Node>),
    /// Keys and values in the order of the document. Where a key stands
    /// twice, its first entry is the one that is read by name.
    Mapping(Vec<(Node, Node)>),
    /// A reference to an anchor that was not followed.
    Alias(usize),
    /// What stands where there is no value: a key that is absent, a scalar
    /// that does not fit its tag.
    BadValue,
}

/// The mathematical content of a [`Node`].
pub enum Tree {
    Null,
    Boolean(bool),
    Integer(int),
    Real(Seq<char>),
    Text(Seq<char>),
    Sequence(Seq<Tree>),
    Mapping(Seq<(Tree, Tree)>),
    Alias(nat),
    BadValue,
}

/// The content of a node, level by level.
pub open spec fn tree_of(node: Node) -> Tree
    decreases node,
{
    match node {
        Node::Null => Tree::Null,
        Node::Boolean(b) => Tree::Boolean(b),
        Node::Integer(n) => Tree::Integer(n as int),
        Node::Real(s) => Tree::Real(s@),
        Node::Text(s) => Tree::Text(s@),
        Node::Sequence(items) => Tree::Sequence(
            Seq::new(
                items@.len(),
                |i: int|
                    if 0 <= i < items@.len() {
                        tree_of(items@[i])
                    } else {
                        Tree::BadValue
                    },
            ),
        ),
        Node::Mapping(entries) => Tree::Mapping(
            Seq::new(
                entries@.len(),
                |i: int|
                    if 0 <= i < entries@.len() {
                        (tree_of(entries@[i].0), tree_of(entries@[i].1))
                    } else {
                        (Tree::BadValue, Tree::BadValue)
                    },
            ),
        ),
        Node::Alias(id) => Tree::Alias(id as nat),
        Node::BadValue => Tree::BadValue,
    }
}

/// The contents of the items of a sequence, in order.
pub open spec fn trees_of(nodes: Seq<Node>) -> Seq<Tree> {
    Seq::new(nodes.len(), |i: int| tree_of(nodes[i]))
}

/// The contents of the entries of a mapping, in order.
pub open spec fn entries_of(entries: Seq<(Node, Node)>) -> Seq<(Tree, Tree)> {
    Seq::new(entries.len(), |i: int| (tree_of(entries[i].0), tree_of(entries[i].1)))
}

/// A sequence node holds the contents of its items.
pub proof fn lemma_sequence_view(items: Vec<Node>)
    ensures
        Node::Sequence(items)@ == Tree::Sequence(trees_of(items@)),
{
    assert(Node::Sequence(items)@->Sequence_0 =~= trees_of(items@));
}

/// A mapping node holds the contents of its entries.
pub proof fn lemma_mapping_view(entries: Vec<(Node, Node)>)
    ensures
        Node::Mapping(entries)@ == Tree::Mapping(entries_of(entries@)),
{
    assert(Node::Mapping(entries)@->Mapping_0 =~= entries_of(entries@));
}

impl View for Node {
    type V = Tree;

    open spec fn view(&self) -> Tree {
        tree_of(*self)
    }
}

/// The value of the first entry whose key is the text `name`; `BadValue`
/// where there is none.
pub open spec fn lookup(entries: Seq<(Tree, Tree)>, name: Seq<char>) -> Tree
    decreases entries.len(),
{
    if entries.len() == 0 {
        Tree::BadValue
    } else if entries[0].0 == Tree::Text(name) {
        entries[0].1
    } else {
        lookup(entries.drop_first(), name)
    }
}

impl Tree {
    /// The field `name` of a mapping; `BadValue` for a key that is absent and
    /// for a node that is no mapping.
    pub open spec fn field(self, name: Seq<char>) -> Tree {
        match self {
            Tree::Mapping(entries) => lookup(entries, name),
            _ => Tree::BadValue,
        }
    }

    /// Whether the field `name` is there to be read.
    pub open spec fn has(self, name: Seq<char>) -> bool {
        !(self.field(name) is BadValue)
    }

    /// The text of a text node, `default` for any other node.
    pub open spec fn text_or(self, default: Seq<char>) -> Seq<char> {
        match self {
            Tree::Text(s) => s,
            _ => default,
        }
    }

    /// The truth value of a boolean node, `default` for any other node.
    pub open spec fn flag_or(self, default: bool) -> bool {
        match self {
            Tree::Boolean(b) => b,
            _ => default,
        }
    }
}

impl Clone for Node {
    /// A copy with the same content.
    fn clone(&self) -> (r: Node)
        ensures
            r@ == self@,
        decreases self,
    {
        match self {
            Node::Null => Node::Null,
            Node::Boolean(b) => Node::Boolean(*b),
            Node::Integer(n) => Node::Integer(*n),
            Node::Real(s) => Node::Real(s.clone()),
            Node::Text(s) => Node::Text(s.clone()),
            Node::Sequence(items) => {
                let mut copies: Vec<Node> = Vec::new();
                let mut i: usize = 0;
                while i < items.len()
                    invariant
                        *self == Node::Sequence(*items),
                        i <= items.len(),
                        copies@.len() == i,
                        forall|j: int| 0 <= j < i ==> (#[trigger] copies@[j])@ == items@[j]@,
                    decreases items.len() - i,
                {
                    assert(decreases_to!(*self => self->Sequence_0[i as int]));
                    copies.push(items[i].clone());
                    i += 1;
                }
                proof {
                    lemma_sequence_view(*items);
                    lemma_sequence_view(copies);
                    assert(trees_of(copies@) =~= trees_of(items@));
                }
                Node::Sequence(copies)
            },
            Node::Mapping(entries) => {
                let mut copies: Vec<(Node, Node)> = Vec::new();
                let mut i: usize = 0;
                while i < entries.len()
                    invariant
                        *self == Node::Mapping(*entries),
                        i <= entries.len(),
                        copies@.len() == i,
                        forall|j: int|
                            0 <= j < i ==> (#[trigger] copies@[j]).0@ == entries@[j].0@
                                && copies@[j].1@ == entries@[j].1@,
                    decreases entries.len() - i,
                {
                    let entry = &entries[i];
                    assert(decreases_to!(*self => self->Mapping_0[i as int].0));
                    assert(decreases_to!(*self => self->Mapping_0[i as int].1));
                    copies.push((entry.0.clone(), entry.1.clone()));
                    i += 1;
                }
                proof {
                    lemma_mapping_view(*entries);
                    lemma_mapping_view(copies);
                    assert(entries_of(copies@) =~= entries_of(entries@));
                }
                Node::Mapping(copies)
            },
            Node::Alias(id) => Node::Alias(*id),
            Node::BadValue => Node::BadValue,
        }
    }
}

impl Node {
    /// Whether this node stands for no value.
    pub fn is_badvalue(&self) -> (r: bool)
        ensures
            r == (self@ is BadValue),
    {
        match self {
            Node::BadValue => true,
            _ => false,
        }
    }

    /// Whether this node is a mapping.
    pub fn is_mapping(&self) -> (r: bool)
        ensures
            r == (self@ is Mapping),
    {
        match self {
            Node::Mapping(_) => true,
            _ => false,
        }
    }

    /// The field `name`, unless it is absent or holds `BadValue`.
    pub fn get(&self, name: &str) -> (r: Option<&Node>)
        ensures
            match r {
                Some(node) => node@ == self@.field(name@) && self@.has(name@),
                None => !self@.has(name@),
            },
    {
        match self {
            Node::Mapping(entries) => {
                let wanted = String::from_str(name);
                let ghost all = entries_of(entries@);
                let mut i: usize = 0;
                proof {
                    lemma_mapping_view(*entries);
                    assert(all.skip(0) == all);
                }
                while i < entries.len()
                    invariant
                        i <= entries.len(),
                        wanted@ == name@,
                        self@ == Tree::Mapping(all),
                        all == entries_of(entries@),
                        lookup(all, name@) == lookup(all.skip(i as int), name@),
                    decreases entries.len() - i,
                {
                    let entry = &entries[i];
                    proof {
                        assert(all.skip(i as int)[0] == all[i as int]);
                        assert(all.skip(i as int).drop_first() == all.skip(i + 1));
                    }
                    match &entry.0 {
                        Node::Text(key) => {
                            if *key == wanted {
                                let value = &entry.1;
                                return if value.is_badvalue() {
                                    None
                                } else {
                                    Some(value)
                                };
                            }
                        },
                        _ => {},
                    }
                    i += 1;
                }
                None
            },
            _ => None,
        }
    }

    /// The text of the field `name`, or `default` where the field is absent
    /// or holds no text.
    pub fn text_or<'a>(&'a self, name: &str, default: &'a str) -> (r: &'a str)
        ensures
            r@ == self@.field(name@).text_or(default@),
    {
        match self.get(name) {
            Some(Node::Text(s)) => s.as_str(),
            _ => default,
        }
    }

    /// The truth value of the field `name`, or `default` where the field is
    /// absent or holds no boolean.
    pub fn flag_or(&self, name: &str, default: bool) -> (r: bool)
        ensures
            r == self@.field(name@).flag_or(default),
    {
        match self.get(name) {
            Some(Node::Boolean(b)) => *b,
            _ => default,
        }
    }
}

} // verus!
