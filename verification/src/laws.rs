//! What holds of every document, stated over the meaning of its rules.

use vstd::prelude::*;
use crate::command::{access_line, reverse_line, with_option};
use crate::document::{section_entry, section_steps};
use crate::emission::{
    lemma_in_turn_clean, lemma_in_turn_first_fault, lemma_in_turn_line_for_line,
    lemma_in_turn_part_for_part, Emission,
};
use crate::error::{failure, ErrorKind, Failure};
use crate::listing::{all_written, csv, item_texts, Listing};
use crate::matches::match_steps;
use crate::ports::port_steps;
use crate::raw::raw_steps;
use crate::text::{contains, digits, join, lemma_contains_middle, numeral_value, upper};
use crate::tree::Tree;
use crate::vocabulary::{verdict, Action, Category, Direction};

verus! {

/// A list of match rules that has no fault gives one command for each rule:
/// the command of the first rule first, and so on.
pub proof fn law_one_command_for_each_match_rule(items: Seq<Tree>)
    requires
        Tree::Sequence(items).match_rules().failure is None,
    ensures
        forall|i: int| 0 <= i < items.len() ==> (#[trigger] items[i].match_rule()) is Ok,
        Tree::Sequence(items).match_rules().lines == Seq::new(
            items.len(),
            |i: int| items[i].match_rule()->Ok_0,
        ),
        Tree::Sequence(items).match_rules().lines.len() == items.len(),
{
    let steps = match_steps(items);
    let lines = Seq::new(items.len(), |i: int| items[i].match_rule()->Ok_0);
    lemma_in_turn_clean(steps);
    assert forall|i: int| 0 <= i < items.len() implies (#[trigger] items[i].match_rule()) is Ok by {
        assert(steps[i].failure is None);
    }
    assert forall|i: int| 0 <= i < steps.len() implies #[trigger] steps[i] == (Emission {
        lines: seq![lines[i]],
        failure: None,
    }) by {
        assert(items[i].match_rule() is Ok);
    }
    lemma_in_turn_line_for_line(steps, lines);
}

/// A list of texts under `raw` gives those texts, unchanged and in their
/// order.
pub proof fn law_raw_lines_pass_unchanged(lines: Seq<Seq<char>>)
    ensures
        Tree::Sequence(Seq::new(lines.len(), |i: int| Tree::Text(lines[i]))).raw_lines() == (
        Emission { lines, failure: None }),
{
    let items = Seq::new(lines.len(), |i: int| Tree::Text(lines[i]));
    lemma_in_turn_line_for_line(raw_steps(items), lines);
}

/// A port rule that has no fault gives one command where it redirects or
/// denies, and two where it allows.
pub proof fn law_one_or_two_commands_for_a_port_rule(entry: Tree)
    requires
        entry.port_rule() is Ok,
    ensures
        entry.port_rule()->Ok_0.len() == (if entry.has("forward"@) || !entry.allows() {
            1int
        } else {
            2int
        }),
{
}

/// A list of port rules that has no fault gives the commands of its first
/// rule, then those of its second, and so on.
pub proof fn law_commands_of_port_rules_in_order(items: Seq<Tree>)
    requires
        Tree::Sequence(items).port_rules().failure is None,
    ensures
        forall|i: int| 0 <= i < items.len() ==> (#[trigger] items[i].port_rule()) is Ok,
        Tree::Sequence(items).port_rules().lines == Seq::new(
            items.len(),
            |i: int| items[i].port_rule()->Ok_0,
        ).flatten(),
{
    let steps = port_steps(items);
    let parts = Seq::new(items.len(), |i: int| items[i].port_rule()->Ok_0);
    lemma_in_turn_clean(steps);
    assert forall|i: int| 0 <= i < items.len() implies (#[trigger] items[i].port_rule()) is Ok by {
        assert(steps[i].failure is None);
    }
    assert forall|i: int| 0 <= i < steps.len() implies #[trigger] steps[i] == (Emission {
        lines: parts[i],
        failure: None,
    }) by {
        assert(items[i].port_rule() is Ok);
    }
    lemma_in_turn_part_for_part(steps, parts);
}

/// In the commands of a rule that allows, the addresses of `src` and of `dst`
/// change places: the first command has `-s` before the one and `-d` before
/// the other, the command for the answers has `-d` and `-s`.
pub proof fn law_answers_swap_addresses(entry: Tree, src: Seq<char>, dst: Seq<char>)
    requires
        entry.port_rule() is Ok,
        !entry.has("forward"@),
        entry.allows(),
        entry.addresses("src"@) == Some(src),
        entry.addresses("dst"@) == Some(dst),
    ensures
        entry.port_rule()->Ok_0.len() == 2,
        contains(entry.port_rule()->Ok_0[0], " -s "@ + src + " -d "@ + dst),
        contains(entry.port_rule()->Ok_0[1], " -d "@ + src + " -s "@ + dst),
{
    let direction = entry.direction()->Ok_0;
    let protocol = entry.protocol()->Ok_0;
    let state = entry.states("state"@)->Ok_0;
    let ports = entry.port_argument()->Ok_0;
    let forth = access_line(direction, Some(src), Some(dst), protocol, state, ports, true);
    let back = reverse_line(direction, Some(src), Some(dst), protocol);
    assert(entry.port_rule()->Ok_0 == seq![forth, back]);

    let forth_head = "iptables -A "@ + direction.chain();
    let forth_part = " -s "@ + src + " -d "@ + dst;
    let forth_tail = with_option(" -p "@ + protocol, " -m state --state "@, state) + ports
        + " -j "@ + verdict(true);
    assert(forth == forth_head + forth_part + forth_tail);
    lemma_contains_middle(forth_head, forth_part, forth_tail);

    let back_head = "iptables -I "@ + direction.chain();
    let back_part = " -d "@ + src + " -s "@ + dst;
    let back_tail = " -p "@ + protocol + " -j ACCEPT"@;
    assert(back == back_head + back_part + back_tail);
    lemma_contains_middle(back_head, back_part, back_tail);
}

/// A list of two texts is written as the one, a comma, and the other; a list
/// of one text as that text.
pub proof fn law_list_of_texts(kind: Listing, a: Seq<char>, b: Seq<char>)
    ensures
        csv(kind, seq![Tree::Text(a), Tree::Text(b)]) == Some(a + ","@ + b),
        csv(kind, seq![Tree::Text(a)]) == Some(a),
{
    let two = seq![Tree::Text(a), Tree::Text(b)];
    let one = seq![Tree::Text(a)];
    assert(all_written(kind, two));
    assert(all_written(kind, one));
    assert(item_texts(kind, two) == seq![a, b]);
    assert(item_texts(kind, one) == seq![a]);
    assert(seq![a, b].drop_last() == seq![a]);
    reveal_with_fuel(join, 3);
}

/// The numeral of a number is made of digits, begins with a zero only for
/// zero itself, and stands for that number.
pub proof fn law_numeral_reads_back(n: nat)
    ensures
        digits(n).len() >= 1,
        forall|i: int| 0 <= i < digits(n).len() ==> '0' <= #[trigger] digits(n)[i] <= '9',
        n > 0 ==> digits(n)[0] != '0',
        numeral_value(digits(n)) == n,
    decreases n,
{
    if n < 10 {
        assert(digits(n).drop_last() == Seq::<char>::empty());
        reveal_with_fuel(numeral_value, 2);
    } else {
        law_numeral_reads_back(n / 10);
        let head = digits(n / 10);
        assert(digits(n).drop_last() == head);
        assert(digits(n)[0] == head[0]);
        assert forall|i: int| 0 <= i < digits(n).len() implies '0' <= #[trigger] digits(n)[i]
            <= '9' by {
            if i < head.len() {
                assert(digits(n)[i] == head[i]);
            }
        }
    }
}

/// A rule without a field `type` is a rule for incoming traffic, on the chain
/// `INPUT`.
pub proof fn law_direction_defaults_to_input(entry: Tree)
    requires
        !entry.has("type"@),
    ensures
        entry.direction() == Ok::<Direction, Failure>(Direction::Input),
        Direction::Input.chain() == "INPUT"@,
{
    reveal_strlit("input");
    reveal_strlit("INPUT");
    assert(upper("input"@) == "INPUT"@);
}

/// The name of a chain is the name of its direction in upper case, and the
/// word of an action is its name in upper case.
pub proof fn law_words_are_names_in_upper_case(name: Seq<char>)
    ensures
        Direction::named(name) matches Some(direction) ==> direction.chain() == upper(name),
        Action::named(name) matches Some(action) ==> action.word() == upper(name),
{
}

/// A port rule whose field `port` is below zero is out of range, and gives
/// no command.
pub proof fn law_negative_port_is_out_of_range(entry: Tree, port: int)
    requires
        entry is Mapping,
        entry.field("port"@) == Tree::Integer(port),
        port < 0,
    ensures
        entry.port_rule() == Err::<Seq<Seq<char>>, Failure>(
            failure(ErrorKind::InvalidRange, "port"@),
        ),
        Emission::of_lines(entry.port_rule()).lines.len() == 0,
{
}

/// A port rule whose field `forward` is below zero gives no command. It is
/// out of range where its ports and its protocol are in order, which are
/// looked at first.
pub proof fn law_negative_forward_is_out_of_range(entry: Tree, target: int)
    requires
        entry is Mapping,
        entry.field("forward"@) == Tree::Integer(target),
        target < 0,
    ensures
        entry.port_rule() is Err,
        Emission::of_lines(entry.port_rule()).lines.len() == 0,
        entry.port_argument() is Ok && entry.protocol() is Ok ==> entry.port_rule() == Err::<
            Seq<Seq<char>>,
            Failure,
        >(failure(ErrorKind::InvalidRange, "forward"@)),
{
}

/// A port rule at fault ends its list with that fault. The commands of the
/// rules before it stay, and the rule itself gives none.
pub proof fn law_port_rule_at_fault_ends_the_list(items: Seq<Tree>, i: int)
    requires
        0 <= i < items.len(),
        items[i].port_rule() is Err,
        Tree::Sequence(items.take(i)).port_rules().failure is None,
    ensures
        Tree::Sequence(items).port_rules().failure == Some(items[i].port_rule()->Err_0),
        Tree::Sequence(items).port_rules().lines == Tree::Sequence(
            items.take(i),
        ).port_rules().lines,
{
    let steps = port_steps(items);
    assert(steps.take(i) == port_steps(items.take(i)));
    assert(steps[i] == Emission::of_lines(items[i].port_rule()));
    lemma_in_turn_first_fault(steps, i);
    assert(Tree::Sequence(items.take(i)).port_rules().lines + Seq::<Seq<char>>::empty()
        == Tree::Sequence(items.take(i)).port_rules().lines);
}

/// A key in a section that names no kind of rule ends the section as an
/// unknown section. What the entries before it emitted stays, and nothing is
/// emitted for the key or after it.
pub proof fn law_unknown_key_ends_the_section(
    entries: Seq<(Tree, Tree)>,
    i: int,
    name: Seq<char>,
)
    requires
        0 <= i < entries.len(),
        entries[i].0 == Tree::Text(name),
        Category::named(name) is None,
        Tree::Mapping(entries.take(i)).section().failure is None,
    ensures
        Tree::Mapping(entries).section().failure == Some(
            failure(ErrorKind::UnknownSection, name),
        ),
        Tree::Mapping(entries).section().lines == Tree::Mapping(entries.take(i)).section().lines,
{
    let steps = section_steps(entries);
    assert(steps.take(i) == section_steps(entries.take(i)));
    assert(steps[i] == section_entry(entries[i].0, entries[i].1));
    lemma_in_turn_first_fault(steps, i);
    assert(Tree::Mapping(entries.take(i)).section().lines + Seq::<Seq<char>>::empty()
        == Tree::Mapping(entries.take(i)).section().lines);
}

} // verus!
