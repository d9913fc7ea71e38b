use userservice::models::{Rank, User};
use userservice::ranks::active_rank_index;
use userservice::time::Timestamp;

fn rank(rank_id: i32, name: &str, rank_sorting: i32, seconds: i64, nanos: i32) -> Rank {
    Rank {
        rank_id,
        rank_name: name.to_string(),
        rank_sorting,
        hour_requirement_seconds: seconds,
        hour_requirement_nanos: nanos,
    }
}

fn watcher(hours_seconds: i64, hours_nanos: i32) -> User {
    User::new(
        "abc".to_string(),
        "Abc".to_string(),
        hours_seconds,
        hours_nanos,
        0,
        Timestamp::new(0, 0),
        Timestamp::new(0, 0),
    )
}

fn ladder() -> Vec<Rank> {
    vec![
        rank(1, "bronze", 1, 3600, 0),
        rank(2, "silver", 2, 36_000, 0),
        rank(3, "gold", 3, 360_000, 0),
    ]
}

#[test]
fn the_open_rank_of_highest_sorting_is_active() {
    assert_eq!(watcher(40_000, 0).rank_label(&ladder()), "silver");
    assert_eq!(watcher(400_000, 0).rank_label(&ladder()), "gold");
    assert_eq!(watcher(3600, 0).rank_label(&ladder()), "bronze");
    assert_eq!(watcher(40_000, 0).get_active_rank(&ladder()), Some(&ladder()[1]));
}

#[test]
fn below_every_requirement_the_label_is_the_default() {
    assert_eq!(watcher(3599, 999_999_999).rank_label(&ladder()), "default");
    assert_eq!(watcher(0, 0).rank_label(&ladder()), "default");
    assert_eq!(watcher(0, 0).get_active_rank(&ladder()), None);
    assert_eq!(watcher(1_000_000, 0).rank_label(&vec![]), "default");
    assert_eq!(active_rank_index(&vec![], 5), None);
}

#[test]
fn the_requirement_counts_nanoseconds() {
    let ranks = vec![rank(1, "exact", 1, 10, 500_000_000)];
    assert_eq!(watcher(10, 499_999_999).rank_label(&ranks), "default");
    assert_eq!(watcher(10, 500_000_000).rank_label(&ranks), "exact");
    assert_eq!(watcher(11, 0).rank_label(&ranks), "exact");
}

#[test]
fn sorting_decides_and_not_the_requirement() {
    let ranks = vec![rank(1, "veteran", 1, 1000, 0), rank(2, "newcomer", 9, 0, 0)];
    assert_eq!(watcher(5000, 0).rank_label(&ranks), "newcomer");
    assert_eq!(active_rank_index(&ranks, 5000 * 1_000_000_000), Some(1));
}

#[test]
fn among_equal_sortings_the_lower_key_is_active() {
    let ranks = vec![rank(7, "seven", 5, 0, 0), rank(3, "three", 5, 0, 0), rank(9, "nine", 5, 0, 0)];
    assert_eq!(watcher(1, 0).rank_label(&ranks), "three");
    let ranks = vec![rank(3, "three", 5, 0, 0), rank(7, "seven", 5, 0, 0)];
    assert_eq!(watcher(1, 0).rank_label(&ranks), "three");
    // equal in sorting and key: the first in the list
    let ranks = vec![rank(3, "first", 5, 0, 0), rank(3, "second", 5, 0, 0)];
    assert_eq!(active_rank_index(&ranks, 0), Some(0));
}

#[test]
fn the_order_of_the_ranks_does_not_matter_when_sortings_differ() {
    let mut ranks = ladder();
    ranks.reverse();
    assert_eq!(watcher(40_000, 0).rank_label(&ranks), "silver");
    assert_eq!(active_rank_index(&ranks, 40_000 * 1_000_000_000), Some(1));
}

#[test]
fn a_negative_requirement_is_open_to_everyone() {
    let ranks = vec![rank(1, "all", 0, -1, 0)];
    assert_eq!(watcher(0, 0).rank_label(&ranks), "all");
    assert_eq!(rank(1, "r", 0, -1, 500_000_000).requirement(), -500_000_000);
    assert!(rank(1, "a", 2, 0, 0).takes_precedence_over(&rank(2, "b", 1, 0, 0)));
    assert!(!rank(2, "a", 2, 0, 0).takes_precedence_over(&rank(1, "b", 2, 0, 0)));
}
