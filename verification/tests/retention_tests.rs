use mc_manager::error::Error;
use mc_manager::retention::{plan_deletions, DeleteMethod};

fn names(v: &[&str]) -> Vec<String> {
    v.iter().map(|s| s.to_string()).collect()
}

#[test]
fn retention_bound_keeps_k_most_recent() {
    // Five creations, bound three: the two oldest go, the three newest stay.
    let listing = names(&[
        "2023-01-01_00-00-00.tar.gz",
        "2023-01-02_00-00-00.tar.gz",
        "2023-01-03_00-00-00.tar.gz",
        "2023-01-04_00-00-00.tar.gz",
        "2023-01-05_00-00-00.tar.gz",
    ]);
    let mut run = plan_deletions(&listing, Some(3), DeleteMethod::Sequential).unwrap();
    let mut deleted: Vec<String> = Vec::new();
    loop {
        let target = match run.next_target() {
            Some(t) => t.clone(),
            None => break,
        };
        deleted.push(target);
        run.record_success();
    }
    assert_eq!(
        deleted,
        names(&["2023-01-01_00-00-00.tar.gz", "2023-01-02_00-00-00.tar.gz"])
    );
    assert_eq!(run.deleted_names(), deleted);
}

#[test]
fn retention_sorts_unsorted_listing() {
    // The directory listing arrives in arbitrary order; the oldest name is
    // still the one deleted.
    let listing = names(&[
        "2023-01-03_00-00-00.tar.gz",
        "2023-01-01_00-00-00.tar.gz",
        "2023-01-02_00-00-00.tar.gz",
    ]);
    let mut run = plan_deletions(&listing, Some(2), DeleteMethod::Sequential).unwrap();
    let first = run.next_target().unwrap().clone();
    assert_eq!(first, "2023-01-01_00-00-00.tar.gz".to_string());
    run.record_success();
    assert!(run.next_target().is_none());
}

#[test]
fn retention_no_bound_is_noop() {
    let listing = names(&["a.tar.gz", "b.tar.gz"]);
    let run = plan_deletions(&listing, None, DeleteMethod::Sequential).unwrap();
    assert!(run.next_target().is_none());
    assert!(run.deleted_names().is_empty());
}

#[test]
fn retention_under_bound_is_noop() {
    let listing = names(&["a.tar.gz", "b.tar.gz"]);
    let run = plan_deletions(&listing, Some(5), DeleteMethod::Sequential).unwrap();
    assert!(run.next_target().is_none());
}

#[test]
fn deletion_failure_stops_the_run() {
    // Six archives, bound three: three are in excess. The first deletion
    // succeeds, the second fails; the third must not be handed out, and
    // only the first is reported deleted.
    let listing = names(&[
        "2023-01-01_00-00-00.tar.gz",
        "2023-01-02_00-00-00.tar.gz",
        "2023-01-03_00-00-00.tar.gz",
        "2023-01-04_00-00-00.tar.gz",
        "2023-01-05_00-00-00.tar.gz",
        "2023-01-06_00-00-00.tar.gz",
    ]);
    let mut run = plan_deletions(&listing, Some(3), DeleteMethod::Sequential).unwrap();

    let first = run.next_target().unwrap().clone();
    assert_eq!(first, "2023-01-01_00-00-00.tar.gz".to_string());
    run.record_success();

    let second = run.next_target().unwrap().clone();
    assert_eq!(second, "2023-01-02_00-00-00.tar.gz".to_string());
    run.record_failure();

    assert!(run.next_target().is_none());
    assert_eq!(run.deleted_names(), names(&["2023-01-01_00-00-00.tar.gz"]));
}

#[test]
fn no_bound_is_a_noop_whatever_the_strategy() {
    // Enforcement without a bound has nothing to do, so the strategy is
    // never consulted and nothing is rejected.
    let listing = names(&["a.tar.gz", "b.tar.gz"]);
    let run = plan_deletions(&listing, None, DeleteMethod::Thinning).unwrap();
    assert!(run.next_target().is_none());
    let run = plan_deletions(&listing, None, DeleteMethod::TimeBlock).unwrap();
    assert!(run.next_target().is_none());
}

#[test]
fn unimplemented_strategies_are_rejected() {
    let listing = names(&["a.tar.gz"]);
    assert_eq!(
        plan_deletions(&listing, Some(1), DeleteMethod::TimeBlock).err(),
        Some(Error::UnsupportedStrategy)
    );
    assert_eq!(
        plan_deletions(&listing, Some(1), DeleteMethod::Thinning).err(),
        Some(Error::UnsupportedStrategy)
    );
}
