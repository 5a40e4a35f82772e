use mqtt_link::state::{
    first_shape, join, NodeStateChangeString, NodeStateRegister, Outcome, StateMessage, StateStore,
};

fn pairs(items: &[(&str, &str)]) -> Vec<(String, String)> {
    items.iter().map(|(k, v)| (k.to_string(), v.to_string())).collect()
}

fn change(items: &[(&str, &str)]) -> NodeStateChangeString {
    NodeStateChangeString { state_change: pairs(items) }
}

fn register(id: &str, position_type: i64, position: &[&str], state: &[(&str, &str)]) -> NodeStateRegister {
    NodeStateRegister {
        id: id.to_string(),
        position_type,
        position: position.iter().map(|p| p.to_string()).collect(),
        state: pairs(state),
    }
}

fn store_with(items: &[(&str, &str)]) -> StateStore {
    let mut store = StateStore::new();
    store.apply_register(&register("seed", 0, &[], items));
    store.take_dirty();
    store
}

#[test]
fn new_store_is_empty_and_clean() {
    let store = StateStore::new();
    assert_eq!(store.len(), 0);
    assert!(!store.is_dirty());
    assert!(store.snapshot().is_empty());
    assert_eq!(store.get("battery"), None);
}

#[test]
fn state_change_updates_a_key_that_the_store_holds() {
    let mut store = store_with(&[("battery", "75")]);
    let missing = store.apply_change(&change(&[("battery", "80")]));
    assert!(missing.is_empty());
    assert_eq!(store.get("battery"), Some(&"80".to_string()));
    assert!(store.is_dirty());
}

#[test]
fn state_change_for_a_missing_key_leaves_the_store_unchanged() {
    let mut store = store_with(&[("mode", "idle")]);
    let before = store.snapshot();
    let missing = store.apply_change(&change(&[("battery", "80")]));
    assert_eq!(missing, vec!["battery".to_string()]);
    assert_eq!(store.snapshot(), before);
    assert_eq!(store.get("battery"), None);
}

#[test]
fn state_change_against_an_empty_store_inserts_nothing() {
    let mut store = StateStore::new();
    let missing = store.apply_change(&change(&[("battery", "80")]));
    assert_eq!(missing, vec!["battery".to_string()]);
    assert_eq!(store.len(), 0);
    assert!(store.is_dirty());
}

#[test]
fn state_change_applies_the_known_keys_and_reports_the_others() {
    let mut store = store_with(&[("a", "1"), ("b", "2"), ("c", "3")]);
    let missing = store.apply_change(&change(&[("x", "9"), ("b", "20"), ("y", "8"), ("a", "10")]));
    assert_eq!(missing, vec!["x".to_string(), "y".to_string()]);
    assert_eq!(store.get("a"), Some(&"10".to_string()));
    assert_eq!(store.get("b"), Some(&"20".to_string()));
    assert_eq!(store.get("c"), Some(&"3".to_string()));
    assert_eq!(store.get("x"), None);
    assert_eq!(store.get("y"), None);
    assert_eq!(store.len(), 6);
}

#[test]
fn later_pair_of_a_state_change_wins() {
    let mut store = store_with(&[("a", "1")]);
    store.apply_change(&change(&[("a", "2"), ("a", "3")]));
    assert_eq!(store.get("a"), Some(&"3".to_string()));
}

#[test]
fn empty_state_change_still_marks_the_store() {
    let mut store = store_with(&[("a", "1")]);
    assert!(store.apply_change(&change(&[])).is_empty());
    assert!(store.is_dirty());
    assert_eq!(store.get("a"), Some(&"1".to_string()));
}

#[test]
fn registration_fills_the_store() {
    let mut store = StateStore::new();
    store.apply_register(&register("n1", 1, &["1", "2"], &[("mode", "idle")]));
    assert_eq!(store.get("id"), Some(&"n1".to_string()));
    assert_eq!(store.get("position_type"), Some(&"1".to_string()));
    assert_eq!(store.get("position"), Some(&"12".to_string()));
    assert_eq!(store.get("mode"), Some(&"idle".to_string()));
    assert_eq!(store.len(), 4);
    assert!(store.is_dirty());
}

#[test]
fn registration_overwrites_what_the_store_held() {
    let mut store = store_with(&[("mode", "busy"), ("battery", "75")]);
    store.apply_register(&register("n2", -3, &["0.5", "-1.25", "7"], &[("mode", "idle")]));
    assert_eq!(store.get("id"), Some(&"n2".to_string()));
    assert_eq!(store.get("position_type"), Some(&"-3".to_string()));
    assert_eq!(store.get("position"), Some(&"0.5-1.257".to_string()));
    assert_eq!(store.get("mode"), Some(&"idle".to_string()));
    assert_eq!(store.get("battery"), Some(&"75".to_string()));
}

#[test]
fn registration_without_position_writes_an_empty_one() {
    let mut store = StateStore::new();
    store.apply_register(&register("n", i64::MIN, &[], &[]));
    assert_eq!(store.get("position"), Some(&String::new()));
    assert_eq!(store.get("position_type"), Some(&"-9223372036854775808".to_string()));
    assert_eq!(store.len(), 3);
}

#[test]
fn node_state_of_a_registration_is_applied_last() {
    let mut store = StateStore::new();
    store.apply_register(&register("n1", 1, &["1"], &[("id", "other"), ("k", "a"), ("k", "b")]));
    assert_eq!(store.get("id"), Some(&"other".to_string()));
    assert_eq!(store.get("k"), Some(&"b".to_string()));
}

#[test]
fn snapshot_lists_each_key_once_in_the_order_of_arrival() {
    let mut store = StateStore::new();
    store.apply_register(&register("n1", 1, &["1", "2"], &[("mode", "idle"), ("battery", "75")]));
    store.apply_change(&change(&[("mode", "busy")]));
    assert_eq!(
        store.snapshot(),
        pairs(&[
            ("id", "n1"),
            ("position_type", "1"),
            ("position", "12"),
            ("mode", "busy"),
            ("battery", "75"),
        ])
    );
}

#[test]
fn snapshot_is_a_copy() {
    let mut store = store_with(&[("a", "1")]);
    let before = store.snapshot();
    store.apply_change(&change(&[("a", "2")]));
    assert_eq!(before.last(), Some(&("a".to_string(), "1".to_string())));
    assert_eq!(store.snapshot().last(), Some(&("a".to_string(), "2".to_string())));
}

#[test]
fn dirty_flag_is_taken_once() {
    let mut store = StateStore::new();
    assert!(!store.take_dirty());
    store.apply_change(&change(&[]));
    assert!(store.is_dirty());
    assert!(store.take_dirty());
    assert!(!store.is_dirty());
    assert!(!store.take_dirty());
}

#[test]
fn payload_is_read_as_a_state_change_first() {
    let c = change(&[("a", "1")]);
    let r = register("n", 1, &[], &[]);
    assert_eq!(first_shape(Some(c.clone()), Some(r.clone())), Some(StateMessage::Change(c.clone())));
    assert_eq!(first_shape(Some(c.clone()), None), Some(StateMessage::Change(c)));
    assert_eq!(first_shape(None, Some(r.clone())), Some(StateMessage::Register(r)));
    assert_eq!(first_shape(None, None), None);
}

#[test]
fn decoded_message_is_applied_and_reported_once() {
    let mut store = store_with(&[("battery", "75")]);
    let outcome = store.on_payload(Some(StateMessage::Change(change(&[("battery", "80"), ("x", "1")]))));
    assert_eq!(outcome, Outcome::Applied { missing: vec!["x".to_string()] });
    assert_eq!(store.get("battery"), Some(&"80".to_string()));
    assert!(store.take_dirty());

    let outcome = store.on_payload(Some(StateMessage::Register(register("n1", 2, &["3"], &[]))));
    assert_eq!(outcome, Outcome::Applied { missing: Vec::new() });
    assert_eq!(store.get("id"), Some(&"n1".to_string()));
    assert!(store.is_dirty());
}

#[test]
fn undecodable_payload_changes_nothing() {
    let mut store = store_with(&[("battery", "75")]);
    let before = store.snapshot();
    assert_eq!(store.on_payload(None), Outcome::Undecodable);
    assert_eq!(store.snapshot(), before);
    assert!(!store.is_dirty());
}

#[test]
fn join_writes_the_parts_with_nothing_between() {
    assert_eq!(join(&Vec::new()), "");
    assert_eq!(join(&vec!["1".to_string()]), "1");
    assert_eq!(join(&vec!["1".to_string(), "2".to_string()]), "12");
    assert_eq!(join(&vec!["1.5".to_string(), String::new(), "-2".to_string()]), "1.5-2");
}

#[test]
fn formatted_positions_are_what_the_floats_print_as() {
    let position: Vec<String> = [1.0f64, 2.0].iter().map(|p| p.to_string()).collect();
    let mut store = StateStore::new();
    store.apply_register(&NodeStateRegister {
        id: "n1".to_string(),
        position_type: 1,
        position,
        state: pairs(&[("mode", "idle")]),
    });
    assert_eq!(store.get("position"), Some(&"12".to_string()));
}
