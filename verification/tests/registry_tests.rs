use download_engine::registry::CancellationRegistry;

#[test]
fn cancel_of_registered_download_returns_true_and_removes() {
    let mut reg = CancellationRegistry::new();
    reg.add_download("dl-1".to_string());
    assert!(reg.contains("dl-1"));
    assert!(reg.cancel_download("dl-1"));
    assert!(!reg.contains("dl-1"));
}

#[test]
fn cancel_after_removal_returns_false_and_has_no_effect() {
    let mut reg = CancellationRegistry::new();
    reg.add_download("dl-1".to_string());
    reg.add_download("dl-2".to_string());
    reg.remove_download("dl-1");
    assert!(!reg.cancel_download("dl-1"));
    assert!(reg.contains("dl-2"));
}

#[test]
fn cancel_of_unknown_id_returns_false() {
    let mut reg = CancellationRegistry::new();
    assert!(!reg.cancel_download("never-started"));
}

#[test]
fn second_cancel_returns_false() {
    let mut reg = CancellationRegistry::new();
    reg.add_download("dl-1".to_string());
    assert!(reg.cancel_download("dl-1"));
    assert!(!reg.cancel_download("dl-1"));
}

#[test]
fn cancelling_one_download_leaves_others_registered() {
    let mut reg = CancellationRegistry::new();
    reg.add_download("a".to_string());
    reg.add_download("b".to_string());
    reg.add_download("c".to_string());
    assert!(reg.cancel_download("b"));
    assert!(reg.contains("a"));
    assert!(!reg.contains("b"));
    assert!(reg.contains("c"));
}

#[test]
fn registering_same_id_twice_keeps_one_entry() {
    let mut reg = CancellationRegistry::new();
    reg.add_download("dl-1".to_string());
    reg.add_download("dl-1".to_string());
    assert!(reg.cancel_download("dl-1"));
    assert!(!reg.cancel_download("dl-1"));
}

#[test]
fn remove_download_of_unknown_id_is_a_no_op() {
    let mut reg = CancellationRegistry::new();
    reg.add_download("dl-1".to_string());
    reg.remove_download("other");
    assert!(reg.contains("dl-1"));
}
