//! Lists inside a rule: states, addresses and ports, each written out as one
//! comma-separated argument.

use vstd::prelude::*;
use crate::text::{decimal, decimal_text, join};
use crate::tree::{trees_of, Node, Tree};

verus! {

/// What a list holds, which decides how each of its items is read.
#[derive(Clone, Copy, Debug, PartialEq, Eq, Structural)]
pub enum Listing {
    /// Connection states: every item is a text.
    States,
    /// Addresses: an item that is no text stands for any address.
    Addresses,
    /// Ports: every item is a text (a range) or an integer.
    Ports,
}

/// The address that stands for every address.
pub open spec fn any_address() -> Seq<char> {
    "0.0.0.0/0"@
}

/// How one item of a list is written, or `None` where the list cannot hold it.
pub open spec fn item_text(kind: Listing, item: Tree) -> Option<Seq<char>> {
    match item {
        Tree::Text(s) => Some(s),
        Tree::Integer(n) => match kind {
            Listing::States => None,
            Listing::Addresses => Some(any_address()),
            Listing::Ports => Some(decimal(n)),
        },
        _ => match kind {
            Listing::Addresses => Some(any_address()),
            _ => None,
        },
    }
}

/// Whether every item of the list can be written.
pub open spec fn all_written(kind: Listing, items: Seq<Tree>) -> bool {
    forall|i: int| 0 <= i < items.len() ==> (#[trigger] item_text(kind, items[i])) is Some
}

/// The items as they are written, in order.
pub open spec fn item_texts(kind: Listing, items: Seq<Tree>) -> Seq<Seq<char>> {
    Seq::new(items.len(), |i: int| item_text(kind, items[i]).unwrap())
}

/// The list as one argument: its items in order, separated by commas, with
/// nothing merged or dropped. `None` where an item cannot be written.
pub open spec fn csv(kind: Listing, items: Seq<Tree>) -> Option<Seq<char>> {
    if all_written(kind, items) {
        Some(join(item_texts(kind, items), ","@))
    } else {
        None
    }
}

/// Writes a list as one argument, its items separated by commas; `None`
/// where the list cannot hold one of its items.
pub fn write_list(kind: Listing, items: &Vec<Node>) -> (r: Option<String>)
    ensures
        r.deep_view() == csv(kind, trees_of(items@)),
{
    let ghost trees = trees_of(items@);
    let ghost texts = item_texts(kind, trees);
    let mut out = String::new();
    let mut i: usize = 0;
    assert(texts.take(0) == Seq::<Seq<char>>::empty());
    while i < items.len()
        invariant
            i <= items.len(),
            trees == trees_of(items@),
            texts == item_texts(kind, trees),
            forall|j: int| 0 <= j < i ==> (#[trigger] item_text(kind, trees[j])) is Some,
            out@ == join(texts.take(i as int), ","@),
        decreases items.len() - i,
    {
        proof {
            assert(texts.take(i + 1).drop_last() == texts.take(i as int));
            assert(texts.take(i + 1).last() == texts[i as int]);
            assert(trees[i as int] == items@[i as int]@);
            assert(item_text(kind, trees[i as int]) is None ==> !all_written(kind, trees));
        }
        if i > 0 {
            out.append(",");
        }
        match &items[i] {
            Node::Text(s) => {
                out.append(s.as_str());
            },
            Node::Integer(n) => match kind {
                Listing::States => {
                    return None;
                },
                Listing::Addresses => {
                    out.append("0.0.0.0/0");
                },
                Listing::Ports => {
                    let numeral = decimal_text(*n);
                    out.append(numeral.as_str());
                },
            },
            _ => match kind {
                Listing::Addresses => {
                    out.append("0.0.0.0/0");
                },
                _ => {
                    return None;
                },
            },
        }
        i += 1;
    }
    assert(texts.take(items@.len() as int) == texts);
    Some(out)
}

} // verus!
