use pingmon::scheduler::{is_overdue, overdue_targets, plan_batches};
use pingmon::status::{Status, Website};
use pingmon::store::StatusStore;

const INTERVAL: u64 = 300;

#[test]
fn overdue_boundaries() {
    assert!(!is_overdue(1000, 1000, INTERVAL));
    assert!(!is_overdue(1300, 1000, INTERVAL));
    assert!(is_overdue(1301, 1000, INTERVAL));
    assert!(!is_overdue(900, 1000, INTERVAL));
}

#[test]
fn overdue_targets_picks_exactly_the_stale_records_in_order() {
    let mut st = StatusStore::new();
    st.upsert(Website { time: 0, url: "a".to_string(), status: Status::Unknown });
    st.upsert(Website { time: 900, url: "b".to_string(), status: Status::Up });
    st.upsert(Website { time: 100, url: "c".to_string(), status: Status::Down });
    st.upsert(Website { time: 700, url: "d".to_string(), status: Status::Up });
    // now = 1000: stale are those last checked before 700
    let over = overdue_targets(&st, 1000, INTERVAL);
    assert_eq!(over, vec!["a".to_string(), "c".to_string()]);
}

#[test]
fn overdue_targets_of_an_empty_store_is_empty() {
    let st = StatusStore::new();
    assert!(overdue_targets(&st, 1000, INTERVAL).is_empty());
}

#[test]
fn plan_batches_cuts_full_batches_and_a_remainder() {
    let urls: Vec<String> = ["a", "b", "c", "d", "e"].iter().map(|s| s.to_string()).collect();
    let batches = plan_batches(&urls, 2);
    assert_eq!(
        batches,
        vec![
            vec!["a".to_string(), "b".to_string()],
            vec!["c".to_string(), "d".to_string()],
            vec!["e".to_string()],
        ]
    );
}

#[test]
fn plan_batches_with_a_roomy_limit_is_one_batch() {
    let urls: Vec<String> = ["a", "b"].iter().map(|s| s.to_string()).collect();
    let batches = plan_batches(&urls, 8);
    assert_eq!(batches, vec![vec!["a".to_string(), "b".to_string()]]);
}

#[test]
fn plan_batches_of_nothing_is_no_batches() {
    let urls: Vec<String> = Vec::new();
    assert!(plan_batches(&urls, 4).is_empty());
}

#[test]
fn plan_batches_at_limit_one_is_one_each() {
    let urls: Vec<String> = ["a", "b", "c"].iter().map(|s| s.to_string()).collect();
    let batches = plan_batches(&urls, 1);
    assert_eq!(batches.len(), 3);
    assert_eq!(batches[0], vec!["a".to_string()]);
    assert_eq!(batches[2], vec!["c".to_string()]);
}
