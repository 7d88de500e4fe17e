use icn_core::pending_interest_table::PendingInterestTable;

#[test]
fn test_pending_interest_table() {
    let mut pit = PendingInterestTable::new();

    pit.add_interest("test".to_string(), "interface1");
    assert!(pit.has_pending_interest("test"));

    pit.add_incoming_interface("test", "interface2");
    let interfaces = pit.get_incoming_interfaces("test").unwrap();
    assert_eq!(interfaces.len(), 2);
    assert!(interfaces.contains(&"interface1".to_string()));
    assert!(interfaces.contains(&"interface2".to_string()));

    pit.remove_interest("test");
    assert!(!pit.has_pending_interest("test"));

    // Five seconds on the table's clock, without waiting for them.
    let now = pit.now();
    pit.add_interest_at("test_expired".to_string(), "interface1", now);
    pit.clear_expired_at(now + 5_000_000_000);
    assert!(!pit.has_pending_interest("test_expired"));
}

#[test]
fn pit_keeps_fresh_interests() {
    let mut pit = PendingInterestTable::new();
    pit.add_interest_at("a".to_string(), "if1", 1_000);
    pit.add_interest_at("b".to_string(), "if1", 3_000_000_000);
    pit.clear_expired_at(4_500_000_000);
    assert!(!pit.has_pending_interest("a"));
    assert!(pit.has_pending_interest("b"));
    assert!(!pit.is_empty());
}

#[test]
fn pit_lists_an_interface_once() {
    let mut pit = PendingInterestTable::new();
    pit.add_interest_at("a".to_string(), "if1", 0);
    pit.add_interest_at("a".to_string(), "if1", 10);
    pit.add_incoming_interface("a", "if1");
    assert_eq!(pit.get_incoming_interfaces("a").unwrap(), vec!["if1".to_string()]);
    pit.add_incoming_interface("missing", "if2");
    assert!(!pit.has_pending_interest("missing"));
}
