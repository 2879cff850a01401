//! The configuration option registry, the navigation state and the
//! bounded ring buffer.
use zek::ringbuf::RingBuf;
use zek::tui_state::TuiState;
use zek::utils::{ConfigManager, ConfigManagerError, ConfigOption, ConfigType};

#[test]
fn test_config_manager() {
    let mut manager = ConfigManager::new();

    let option = ConfigOption {
        key: "refresh_interval".to_string(),
        label: "Refresh Interval (ms)".to_string(),
        value: serde_json::Value::from(1000),
        kind: ConfigType::Number,
        description: Some("How often to refresh metrics".to_string()),
    };

    manager.add_option(option);

    let options = manager.list_options();
    assert_eq!(options.len(), 1);

    let retrieved = manager.get_option("refresh_interval").unwrap();
    assert_eq!(retrieved.value, serde_json::Value::from(1000));

    manager.set_option_value("refresh_interval", serde_json::Value::from(2000)).unwrap();
    let updated = manager.get_option("refresh_interval").unwrap();
    assert_eq!(updated.value, serde_json::Value::from(2000));
}

#[test]
fn setting_a_missing_option_is_refused() {
    let mut manager = ConfigManager::new();
    match manager.set_option_value("absent", serde_json::Value::from(1)) {
        Err(ConfigManagerError::NotFound(key)) => assert_eq!(key, "absent"),
        Ok(()) => panic!("expected the update to be refused"),
    }
}

#[test]
fn adding_under_a_taken_key_replaces_in_place() {
    let mut manager = ConfigManager::new();
    let make = |v: i64, label: &str| ConfigOption {
        key: "k".to_string(),
        label: label.to_string(),
        value: serde_json::Value::from(v),
        kind: ConfigType::Number,
        description: None,
    };
    manager.add_option(make(1, "first"));
    manager.add_option(make(2, "second"));
    assert_eq!(manager.list_options().len(), 1);
    let got = manager.get_option("k").unwrap();
    assert_eq!(got.label, "second");
    assert_eq!(got.value, serde_json::Value::from(2));
}

#[test]
fn table_navigation_wraps_both_ways() {
    let mut st = TuiState::new();
    assert_eq!(st.selected_table, 0);
    st.previous_table();
    assert_eq!(st.selected_table, 5);
    st.next_table();
    assert_eq!(st.selected_table, 0);
    for _ in 0..6 {
        st.next_table();
    }
    assert_eq!(st.selected_table, 0);
}

#[test]
fn row_navigation_wraps_within_the_table() {
    let mut st = TuiState::new();
    st.next_item(3);
    st.next_item(3);
    assert_eq!(st.current_selection(), 2);
    st.next_item(3);
    assert_eq!(st.current_selection(), 0);
    st.previous_item(3);
    assert_eq!(st.current_selection(), 2);
    // an empty table is untouched
    st.next_item(0);
    assert_eq!(st.current_selection(), 2);
    // each table keeps its own selection
    st.next_table();
    assert_eq!(st.current_selection(), 0);
}

#[test]
fn ring_buffer_drops_the_oldest_on_overflow() {
    let mut buf: RingBuf<u64> = RingBuf::new(3);
    for v in 1..=5u64 {
        buf.push(v);
    }
    assert_eq!(buf.snapshot(), vec![3, 4, 5]);
    buf.push(6);
    assert_eq!(buf.snapshot(), vec![4, 5, 6]);
}
