use pingmon::status::{Status, Website};
use pingmon::store::StatusStore;

#[test]
fn unseen_target_is_seeded_with_unknown_and_time_zero() {
    let mut st = StatusStore::new();
    assert!(!st.contains_target("https://example.org"));
    st.add_target("https://example.org");
    assert!(st.contains_target("https://example.org"));
    let w = st.get("https://example.org").expect("known target must have a record");
    assert_eq!(w.url, "https://example.org");
    assert_eq!(w.time, 0);
    assert_eq!(w.status, Status::Unknown);
}

#[test]
fn adding_a_known_target_changes_nothing() {
    let mut st = StatusStore::new();
    st.add_target("a");
    st.upsert(Website { time: 7, url: "a".to_string(), status: Status::Up });
    st.add_target("a");
    let w = st.get("a").unwrap();
    assert_eq!(w.time, 7);
    assert_eq!(w.status, Status::Up);
}

#[test]
fn upsert_then_get_returns_the_record_unchanged() {
    let mut st = StatusStore::new();
    let r = Website { time: 1234, url: "https://example.org".to_string(), status: Status::Down };
    st.upsert(r.clone());
    let w = st.get("https://example.org").unwrap();
    assert_eq!(w.url, r.url);
    assert_eq!(w.time, r.time);
    assert_eq!(w.status, r.status);
}

#[test]
fn upsert_overwrites_all_three_fields() {
    let mut st = StatusStore::new();
    st.upsert(Website { time: 1, url: "a".to_string(), status: Status::Up });
    st.upsert(Website { time: 2, url: "a".to_string(), status: Status::Down });
    let w = st.get("a").unwrap();
    assert_eq!(w.time, 2);
    assert_eq!(w.status, Status::Down);
    assert_eq!(st.list_targets(), vec!["a".to_string()]);
}

#[test]
fn upsert_leaves_other_targets_alone() {
    let mut st = StatusStore::new();
    st.upsert(Website { time: 1, url: "a".to_string(), status: Status::Up });
    st.upsert(Website { time: 2, url: "b".to_string(), status: Status::Down });
    st.upsert(Website { time: 9, url: "a".to_string(), status: Status::Unknown });
    let b = st.get("b").unwrap();
    assert_eq!(b.time, 2);
    assert_eq!(b.status, Status::Down);
}

#[test]
fn get_of_an_unknown_target_is_nothing() {
    let st = StatusStore::new();
    assert!(st.get("nope").is_none());
}

#[test]
fn remove_target_forgets_record_and_membership() {
    let mut st = StatusStore::new();
    st.upsert(Website { time: 1, url: "a".to_string(), status: Status::Up });
    st.upsert(Website { time: 2, url: "b".to_string(), status: Status::Up });
    st.remove_target("a");
    assert!(!st.contains_target("a"));
    assert!(st.get("a").is_none());
    assert!(st.contains_target("b"));
    assert_eq!(st.list_targets(), vec!["b".to_string()]);
}

#[test]
fn remove_of_an_unknown_target_changes_nothing() {
    let mut st = StatusStore::new();
    st.add_target("a");
    st.remove_target("b");
    assert_eq!(st.list_targets(), vec!["a".to_string()]);
}

#[test]
fn list_targets_keeps_store_order() {
    let mut st = StatusStore::new();
    st.add_target("c");
    st.add_target("a");
    st.add_target("b");
    assert_eq!(
        st.list_targets(),
        vec!["c".to_string(), "a".to_string(), "b".to_string()]
    );
}
