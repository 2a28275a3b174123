//! Control of one traced path. The estimator follows a ray from surface to
//! surface until it leaves the scene, is absorbed, or uses up its depth
//! budget; the colour arithmetic along the way is left to the caller, who
//! reports what each intersection query met and is told what to do next.
use vstd::prelude::*;

verus! {

/// What one intersection query of a path met.
#[derive(Clone, Copy, Debug, PartialEq, Eq, Structural)]
pub enum Interaction {
    /// No surface: the ray escapes to the sky.
    Miss,
    /// A surface whose material absorbed the ray.
    Absorbed,
    /// A surface whose material sent out a new ray.
    Scattered,
}

/// How a path's radiance is closed off once it ends.
#[derive(Clone, Copy, Debug, PartialEq, Eq, Structural)]
pub enum PathEnd {
    /// No light: the path was absorbed or its depth budget ran out.
    Black,
    /// The sky gradient, seen along the last ray.
    Sky,
}

/// What a path does next.
#[derive(Clone, Copy, Debug, PartialEq, Eq, Structural)]
pub enum Step {
    /// Intersect the current ray with the scene; the path may still make
    /// this many queries, this one included.
    Trace(i32),
    /// Stop, closing the radiance off as given.
    End(PathEnd),
}

/// The first step of a path with the given depth budget: a budget of zero or
/// less ends the path black before any query.
pub open spec fn first_step(depth: int) -> Step {
    if depth <= 0 {
        Step::End(PathEnd::Black)
    } else {
        Step::Trace(depth as i32)
    }
}

/// The step after a query made with `depth` queries left met `event`.
pub open spec fn next_step(depth: int, event: Interaction) -> Step {
    match event {
        Interaction::Miss => Step::End(PathEnd::Sky),
        Interaction::Absorbed => Step::End(PathEnd::Black),
        Interaction::Scattered => first_step(depth - 1),
    }
}

/// The step machine run from `step` while `events` says what each query
/// meets: how the path ends and how many queries it made, or `None` when the
/// events run out first.
pub open spec fn run(step: Step, events: Seq<Interaction>) -> Option<(PathEnd, nat)>
    decreases events.len(),
{
    match step {
        Step::End(end) => Some((end, 0nat)),
        Step::Trace(depth) => {
            if events.len() == 0 {
                None
            } else {
                match run(next_step(depth as int, events[0]), events.drop_first()) {
                    Some((end, n)) => Some((end, n + 1)),
                    None => None,
                }
            }
        },
    }
}

/// The recursive estimator's view of the same path: with no budget left it
/// is black; otherwise the first query decides, and a scattered ray is
/// followed with one less unit of budget.
pub open spec fn recursive_end(depth: int, events: Seq<Interaction>) -> Option<(PathEnd, nat)>
    decreases events.len(),
{
    if depth <= 0 {
        Some((PathEnd::Black, 0nat))
    } else if events.len() == 0 {
        None
    } else {
        match events[0] {
            Interaction::Miss => Some((PathEnd::Sky, 1nat)),
            Interaction::Absorbed => Some((PathEnd::Black, 1nat)),
            Interaction::Scattered => match recursive_end(depth - 1, events.drop_first()) {
                Some((end, n)) => Some((end, n + 1)),
                None => None,
            },
        }
    }
}

/// Starts a path with the given depth budget.
pub fn start(depth_budget: i32) -> (r: Step)
    ensures
        r == first_step(depth_budget as int),
{
    if depth_budget <= 0 {
        Step::End(PathEnd::Black)
    } else {
        Step::Trace(depth_budget)
    }
}

/// The step after a query made with `depth` queries left met `event`.
pub fn advance(depth: i32, event: Interaction) -> (r: Step)
    ensures
        r == next_step(depth as int, event),
{
    match event {
        Interaction::Miss => Step::End(PathEnd::Sky),
        Interaction::Absorbed => Step::End(PathEnd::Black),
        Interaction::Scattered => {
            if depth <= 1 {
                Step::End(PathEnd::Black)
            } else {
                Step::Trace(depth - 1)
            }
        },
    }
}

proof fn lemma_trace_matches_recursion(depth: int, events: Seq<Interaction>)
    requires
        0 < depth <= i32::MAX,
    ensures
        run(Step::Trace(depth as i32), events) == recursive_end(depth, events),
    decreases events.len(),
{
    assert((depth as i32) as int == depth);
    if events.len() > 0 {
        let rest = events.drop_first();
        let next = next_step(depth, events[0]);
        if next is End {
            assert(run(next, rest) == Some((next->End_0, 0nat)));
            assert(depth == 1 ==> recursive_end(0, rest) == Some((PathEnd::Black, 0nat)));
        } else {
            lemma_trace_matches_recursion(depth - 1, rest);
        }
    }
}

/// The step machine ends every path as the recursive estimator does, after
/// the same number of queries.
pub proof fn lemma_machine_is_recursion(depth: i32, events: Seq<Interaction>)
    ensures
        run(first_step(depth as int), events) == recursive_end(depth as int, events),
{
    if depth > 0 {
        lemma_trace_matches_recursion(depth as int, events);
    }
}

proof fn lemma_recursion_bounded(depth: int, events: Seq<Interaction>)
    ensures
        events.len() >= depth ==> recursive_end(depth, events) is Some,
        recursive_end(depth, events) matches Some((_, n)) ==> n <= if depth > 0 {
            depth
        } else {
            0
        },
    decreases events.len(),
{
    if depth > 0 && events.len() > 0 {
        lemma_recursion_bounded(depth - 1, events.drop_first());
    }
}

/// A path never makes more intersection queries than its depth budget, and
/// it has ended once that many queries have been answered.
pub proof fn lemma_queries_within_budget(depth: i32, events: Seq<Interaction>)
    ensures
        events.len() >= depth ==> run(first_step(depth as int), events) is Some,
        run(first_step(depth as int), events) matches Some((_, n)) ==> n <= if depth > 0 {
            depth as int
        } else {
            0
        },
{
    lemma_machine_is_recursion(depth, events);
    lemma_recursion_bounded(depth as int, events);
}

/// A path whose depth budget is zero or less is black, whatever the scene
/// and the ray, and queries nothing.
pub proof fn lemma_no_budget_is_black(depth: i32, events: Seq<Interaction>)
    requires
        depth <= 0,
    ensures
        run(first_step(depth as int), events) == Some((PathEnd::Black, 0nat)),
{
}

} // verus!
