use raytr::integrator::{advance, start, Interaction, PathEnd, Step};

/// Runs a path with the given budget, answering its queries from `events`;
/// returns how it ended and how many queries it made.
fn follow(depth: i32, events: &[Interaction]) -> (PathEnd, usize) {
    let mut step = start(depth);
    let mut queries = 0;
    loop {
        match step {
            Step::End(end) => return (end, queries),
            Step::Trace(left) => {
                let event = events[queries];
                queries += 1;
                step = advance(left, event);
            }
        }
    }
}

#[test]
fn zero_budget_is_black_before_any_query() {
    assert_eq!(start(0), Step::End(PathEnd::Black));
    assert_eq!(follow(0, &[]), (PathEnd::Black, 0));
    assert_eq!(follow(0, &[Interaction::Miss]), (PathEnd::Black, 0));
}

#[test]
fn negative_budget_is_black() {
    assert_eq!(start(-3), Step::End(PathEnd::Black));
    assert_eq!(start(i32::MIN), Step::End(PathEnd::Black));
}

#[test]
fn positive_budget_traces() {
    assert_eq!(start(1), Step::Trace(1));
    assert_eq!(start(50), Step::Trace(50));
}

#[test]
fn miss_ends_in_sky() {
    assert_eq!(advance(7, Interaction::Miss), Step::End(PathEnd::Sky));
    assert_eq!(follow(1, &[Interaction::Miss]), (PathEnd::Sky, 1));
}

#[test]
fn absorption_ends_black() {
    assert_eq!(advance(7, Interaction::Absorbed), Step::End(PathEnd::Black));
    assert_eq!(
        follow(5, &[Interaction::Scattered, Interaction::Absorbed]),
        (PathEnd::Black, 2)
    );
}

#[test]
fn scatter_spends_one_unit_of_budget() {
    assert_eq!(advance(7, Interaction::Scattered), Step::Trace(6));
    assert_eq!(advance(1, Interaction::Scattered), Step::End(PathEnd::Black));
}

#[test]
fn step_after_spent_budget() {
    assert_eq!(advance(0, Interaction::Scattered), Step::End(PathEnd::Black));
    assert_eq!(advance(i32::MIN, Interaction::Scattered), Step::End(PathEnd::Black));
    assert_eq!(advance(0, Interaction::Miss), Step::End(PathEnd::Sky));
    assert_eq!(advance(i32::MAX, Interaction::Scattered), Step::Trace(i32::MAX - 1));
}

#[test]
fn scattered_path_reaching_sky() {
    let events = [
        Interaction::Scattered,
        Interaction::Scattered,
        Interaction::Miss,
    ];
    assert_eq!(follow(3, &events), (PathEnd::Sky, 3));
    assert_eq!(follow(2, &events), (PathEnd::Black, 2));
}

#[test]
fn queries_never_exceed_budget() {
    let events = vec![Interaction::Scattered; 60];
    for depth in 0..=50 {
        let (end, queries) = follow(depth, &events);
        assert_eq!(end, PathEnd::Black);
        assert_eq!(queries, depth as usize);
    }
}
