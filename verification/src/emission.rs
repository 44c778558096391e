//! What comes out of a stretch of a document: the command lines emitted so
//! far and, where a fault stopped the work, that fault.

use vstd::prelude::*;
use crate::error::{Error, Failure};

verus! {

/// The lines emitted, in order, and the fault that ended the work, if any.
/// Lines that were emitted before a fault stay emitted.
pub struct Emission {
    pub lines: Seq<Seq<char>>,
    pub failure: Option<Failure>,
}

impl Emission {
    /// No line and no fault.
    pub open spec fn nothing() -> Emission {
        Emission { lines: Seq::empty(), failure: None }
    }

    /// No line, and the given fault.
    pub open spec fn failed(failure: Failure) -> Emission {
        Emission { lines: Seq::empty(), failure: Some(failure) }
    }

    /// One line, or the fault in its place.
    pub open spec fn of_line(result: Result<Seq<char>, Failure>) -> Emission {
        match result {
            Ok(line) => Emission { lines: seq![line], failure: None },
            Err(failure) => Emission::failed(failure),
        }
    }

    /// Some lines, or the fault in their place.
    pub open spec fn of_lines(result: Result<Seq<Seq<char>>, Failure>) -> Emission {
        match result {
            Ok(lines) => Emission { lines, failure: None },
            Err(failure) => Emission::failed(failure),
        }
    }

    /// This emission and then the next one, which is not begun where this one
    /// ended in a fault.
    pub open spec fn followed_by(self, next: Emission) -> Emission {
        if self.failure is Some {
            self
        } else {
            Emission { lines: self.lines + next.lines, failure: next.failure }
        }
    }

    /// This emission behind lines that were emitted before it.
    pub open spec fn after(self, earlier: Seq<Seq<char>>) -> Emission {
        Emission { lines: earlier + self.lines, failure: self.failure }
    }
}

/// The steps one after another, up to and including the first that fails.
pub open spec fn in_turn(steps: Seq<Emission>) -> Emission
    decreases steps.len(),
{
    if steps.len() == 0 {
        Emission::nothing()
    } else {
        steps[0].followed_by(in_turn(steps.drop_first()))
    }
}

/// Whether a sink that held `before` holds `after` once `emission` has been
/// written to it, and `result` reports how the emission ended.
pub open spec fn appended(
    before: Vec<String>,
    after: Vec<String>,
    result: Result<(), Error>,
    emission: Emission,
) -> bool {
    &&& after.deep_view() == before.deep_view() + emission.lines
    &&& match result {
        Ok(_) => emission.failure is None,
        Err(error) => emission.failure == Some(error@),
    }
}

/// The steps from the `i`-th on are that step and then those after it.
pub proof fn lemma_in_turn_next(steps: Seq<Emission>, i: int)
    requires
        0 <= i < steps.len(),
    ensures
        in_turn(steps.skip(i)) == steps[i].followed_by(in_turn(steps.skip(i + 1))),
{
    assert(steps.skip(i).drop_first() == steps.skip(i + 1));
}

/// Steps in turn are the first `i` of them in turn, followed by the others in
/// turn.
pub proof fn lemma_in_turn_split(steps: Seq<Emission>, i: int)
    requires
        0 <= i <= steps.len(),
    ensures
        in_turn(steps) == in_turn(steps.take(i)).followed_by(in_turn(steps.skip(i))),
    decreases i,
{
    if i == 0 {
        assert(steps.take(0).len() == 0);
        assert(steps.skip(0) == steps);
        assert(Seq::<Seq<char>>::empty() + in_turn(steps).lines == in_turn(steps).lines);
    } else {
        let rest = steps.drop_first();
        lemma_in_turn_split(rest, i - 1);
        assert(rest.take(i - 1) == steps.take(i).drop_first());
        assert(rest.skip(i - 1) == steps.skip(i));
        assert(steps.take(i)[0] == steps[0]);
        let head = in_turn(rest.take(i - 1));
        let tail = in_turn(rest.skip(i - 1));
        assert(steps[0].lines + (head.lines + tail.lines) == (steps[0].lines + head.lines)
            + tail.lines);
    }
}

/// Where the first `i` steps have no fault and the `i`-th has one, the whole
/// emits what those first steps emit, then what the `i`-th emits, and ends
/// with the fault of the `i`-th.
pub proof fn lemma_in_turn_first_fault(steps: Seq<Emission>, i: int)
    requires
        0 <= i < steps.len(),
        in_turn(steps.take(i)).failure is None,
        steps[i].failure is Some,
    ensures
        in_turn(steps) == steps[i].after(in_turn(steps.take(i)).lines),
{
    lemma_in_turn_split(steps, i);
    lemma_in_turn_next(steps, i);
}

/// Where steps in turn end without a fault, none of them has one.
pub proof fn lemma_in_turn_clean(steps: Seq<Emission>)
    requires
        in_turn(steps).failure is None,
    ensures
        forall|i: int| 0 <= i < steps.len() ==> (#[trigger] steps[i]).failure is None,
    decreases steps.len(),
{
    if steps.len() > 0 {
        let rest = steps.drop_first();
        lemma_in_turn_clean(rest);
        assert forall|i: int| 0 <= i < steps.len() implies (#[trigger] steps[i]).failure is None by {
            if i > 0 {
                assert(steps[i] == rest[i - 1]);
            }
        }
    }
}

/// Where each of the steps emits one line and has no fault, all of them in
/// turn emit those lines, in the order of the steps.
pub proof fn lemma_in_turn_line_for_line(steps: Seq<Emission>, lines: Seq<Seq<char>>)
    requires
        steps.len() == lines.len(),
        forall|i: int|
            0 <= i < steps.len() ==> #[trigger] steps[i] == (Emission {
                lines: seq![lines[i]],
                failure: None,
            }),
    ensures
        in_turn(steps) == (Emission { lines, failure: None }),
    decreases steps.len(),
{
    if steps.len() == 0 {
        assert(lines == Seq::<Seq<char>>::empty());
    } else {
        let rest = steps.drop_first();
        let rest_lines = lines.drop_first();
        assert forall|i: int| 0 <= i < rest.len() implies #[trigger] rest[i] == (Emission {
            lines: seq![rest_lines[i]],
            failure: None,
        }) by {
            assert(rest[i] == steps[i + 1]);
        }
        lemma_in_turn_line_for_line(rest, rest_lines);
        assert(steps[0].lines == seq![lines[0]]);
        assert(seq![lines[0]] + rest_lines == lines);
    }
}

/// Where none of the steps has a fault, all of them in turn emit the lines of
/// the first, then those of the second, and so on.
pub proof fn lemma_in_turn_part_for_part(steps: Seq<Emission>, parts: Seq<Seq<Seq<char>>>)
    requires
        steps.len() == parts.len(),
        forall|i: int|
            0 <= i < steps.len() ==> #[trigger] steps[i] == (Emission {
                lines: parts[i],
                failure: None,
            }),
    ensures
        in_turn(steps) == (Emission { lines: parts.flatten(), failure: None }),
    decreases steps.len(),
{
    if steps.len() > 0 {
        let rest = steps.drop_first();
        let rest_parts = parts.drop_first();
        assert forall|i: int| 0 <= i < rest.len() implies #[trigger] rest[i] == (Emission {
            lines: rest_parts[i],
            failure: None,
        }) by {
            assert(rest[i] == steps[i + 1]);
        }
        lemma_in_turn_part_for_part(rest, rest_parts);
        assert(steps[0].lines == parts.first());
    }
}

/// A sink that grew by the strings of `added` holds the lines it held and then
/// the lines of `added`.
pub proof fn lemma_lines_appended(held: Vec<String>, added: Vec<String>, grown: Vec<String>)
    requires
        grown@ == held@ + added@,
    ensures
        grown.deep_view() == held.deep_view() + added.deep_view(),
{
    assert(grown.deep_view() =~= held.deep_view() + added.deep_view());
}

/// A sink that grew by one string holds the lines it held and then that line.
pub proof fn lemma_line_pushed(held: Vec<String>, line: String, grown: Vec<String>)
    requires
        grown@ == held@.push(line),
    ensures
        grown.deep_view() == held.deep_view() + seq![line@],
{
    assert(grown.deep_view() =~= held.deep_view() + seq![line@]);
}

/// Where the steps before the `i`-th emitted `done` and the `i`-th does not
/// fail, the steps before the next emitted `done` and the lines of the `i`-th.
pub proof fn lemma_in_turn_advance(steps: Seq<Emission>, i: int, done: Seq<Seq<char>>)
    requires
        0 <= i < steps.len(),
        in_turn(steps) == in_turn(steps.skip(i)).after(done),
        steps[i].failure is None,
    ensures
        in_turn(steps) == in_turn(steps.skip(i + 1)).after(done + steps[i].lines),
{
    lemma_in_turn_next(steps, i);
    let rest = in_turn(steps.skip(i + 1));
    assert(done + (steps[i].lines + rest.lines) == (done + steps[i].lines) + rest.lines);
}

/// Where the steps before the `i`-th emitted `done` and the `i`-th fails, the
/// whole ends with the `i`-th.
pub proof fn lemma_in_turn_stop(steps: Seq<Emission>, i: int, done: Seq<Seq<char>>)
    requires
        0 <= i < steps.len(),
        in_turn(steps) == in_turn(steps.skip(i)).after(done),
        steps[i].failure is Some,
    ensures
        in_turn(steps) == steps[i].after(done),
{
    lemma_in_turn_next(steps, i);
}

/// Where all the steps emitted `done`, the whole emitted `done` and did not
/// fail.
pub proof fn lemma_in_turn_end(steps: Seq<Emission>, done: Seq<Seq<char>>)
    requires
        in_turn(steps) == in_turn(steps.skip(steps.len() as int)).after(done),
    ensures
        in_turn(steps) == (Emission { lines: done, failure: None }),
{
    assert(steps.skip(steps.len() as int).len() == 0);
    assert(done + Seq::<Seq<char>>::empty() == done);
}

} // verus!
