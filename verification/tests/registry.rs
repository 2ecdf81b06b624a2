use grin_pool::registry::Registry;
use grin_pool::worker::Worker;

fn keys(reg: &Registry) -> Vec<String> {
    (0..reg.len()).map(|i| reg.key(i).clone()).collect()
}

#[test]
fn insert_keeps_order_and_replaces() {
    let mut reg = Registry::new();
    assert_eq!(reg.len(), 0);
    assert!(reg.insert("a".to_string(), Worker::new(1, "a".to_string(), 8)).is_none());
    assert!(reg.insert("b".to_string(), Worker::new(2, "b".to_string(), 8)).is_none());
    assert!(reg.insert("c".to_string(), Worker::new(3, "c".to_string(), 8)).is_none());
    assert_eq!(keys(&reg), vec!["a", "b", "c"]);
    let replaced = reg.insert("b".to_string(), Worker::new(4, "b".to_string(), 8));
    assert_eq!(replaced.unwrap().connection_id, 2);
    assert_eq!(keys(&reg), vec!["a", "b", "c"]);
    assert_eq!(reg.worker_mut(1).connection_id, 4);
    assert_eq!(reg.len(), 3);
}

#[test]
fn find_gives_index_or_length() {
    let mut reg = Registry::new();
    reg.insert("a".to_string(), Worker::new(1, "a".to_string(), 8));
    reg.insert("b".to_string(), Worker::new(2, "b".to_string(), 8));
    assert_eq!(reg.find(&"a".to_string()), 0);
    assert_eq!(reg.find(&"b".to_string()), 1);
    assert_eq!(reg.find(&"c".to_string()), 2);
    assert!(reg.contains_key(&"b".to_string()));
    assert!(!reg.contains_key(&"".to_string()));
}

#[test]
fn remove_takes_one_record_out() {
    let mut reg = Registry::new();
    reg.insert("a".to_string(), Worker::new(1, "a".to_string(), 8));
    reg.insert("b".to_string(), Worker::new(2, "b".to_string(), 8));
    reg.insert("c".to_string(), Worker::new(3, "c".to_string(), 8));
    assert!(reg.remove(&"x".to_string()).is_none());
    assert_eq!(reg.len(), 3);
    assert_eq!(reg.remove(&"b".to_string()).unwrap().connection_id, 2);
    assert_eq!(keys(&reg), vec!["a", "c"]);
    assert!(reg.remove(&"b".to_string()).is_none());
}

#[test]
fn rekey_moves_a_record_to_its_identifier() {
    let mut reg = Registry::new();
    reg.insert("11".to_string(), Worker::new(1, "11".to_string(), 8));
    reg.insert("22".to_string(), Worker::new(2, "22".to_string(), 8));
    reg.worker_mut(0).log_in("alice".to_string(), "rig".to_string());
    reg.rekey(&"11".to_string());
    assert_eq!(keys(&reg), vec!["22", "alice-rig"]);
    assert_eq!(reg.worker_mut(1).connection_id, 1);
    // an unknown key changes nothing
    reg.rekey(&"11".to_string());
    assert_eq!(keys(&reg), vec!["22", "alice-rig"]);
    // a record that is under its identifier stays
    reg.rekey(&"22".to_string());
    assert_eq!(keys(&reg), vec!["alice-rig", "22"]);
}

#[test]
fn rekey_replaces_a_record_under_the_new_key() {
    let mut reg = Registry::new();
    reg.insert("11".to_string(), Worker::new(1, "11".to_string(), 8));
    reg.insert("22".to_string(), Worker::new(2, "22".to_string(), 8));
    reg.insert("33".to_string(), Worker::new(3, "33".to_string(), 8));
    reg.worker_mut(0).log_in("alice".to_string(), "rig".to_string());
    reg.rekey(&"11".to_string());
    reg.worker_mut(0).log_in("alice".to_string(), "rig".to_string());
    reg.rekey(&"22".to_string());
    assert_eq!(keys(&reg), vec!["33", "alice-rig"]);
    assert_eq!(reg.worker_mut(1).connection_id, 2);
}

#[test]
fn remove_errored_keeps_the_healthy_in_order() {
    let mut reg = Registry::new();
    for (i, key) in ["a", "b", "c", "d", "e"].iter().enumerate() {
        reg.insert(key.to_string(), Worker::new(i as u64, key.to_string(), 8));
    }
    reg.worker_mut(0).set_error();
    reg.worker_mut(2).set_error();
    reg.worker_mut(3).set_error();
    assert_eq!(reg.remove_errored(), 2);
    assert_eq!(keys(&reg), vec!["b", "e"]);
    assert_eq!(reg.remove_errored(), 2);
    reg.worker_mut(1).set_error();
    reg.worker_mut(0).set_error();
    assert_eq!(reg.remove_errored(), 0);
    assert_eq!(reg.len(), 0);
    assert_eq!(reg.remove_errored(), 0);
}
