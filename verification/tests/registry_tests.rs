use lifec_shell::DeviceRegistry;

#[test]
fn bytes_reach_the_channel_device() {
    // feeding "abc", backspace, "d" to an empty device on channel 0
    // leaves "abd" with the cursor at its end
    let mut registry = DeviceRegistry::new();
    registry.add_device(0);
    for b in [b'a', b'b', b'c', 0x7f, b'd'] {
        let sent = registry.route(0, b, false);
        assert!(sent.is_none());
    }
    let device = registry.device(0).expect("channel 0 exists");
    assert_eq!(device.output(), "abd");
    assert_eq!(device.before_cursor(), "abd");
}

#[test]
fn unknown_channels_drop_bytes() {
    let mut registry = DeviceRegistry::new();
    registry.add_device(0);
    assert!(registry.route(7, b'x', false).is_none());
    assert!(registry.device(7).is_none());
}

#[test]
fn switching_channels_drains_the_stale_buffer() {
    // a switch to a non-zero channel that is not currently viewed drains
    // that device before the new byte lands; history is not retained
    let mut registry = DeviceRegistry::new();
    registry.add_device(1);
    registry.add_device(2);
    registry.route(2, b'x', false);
    assert_eq!(registry.current_channel(), 2);
    registry.route(1, b'y', false);
    assert_eq!(registry.current_channel(), 1);
    // channel 2 still holds its buffer, one line of it
    assert_eq!(registry.device(2).unwrap().output(), "x");
    assert!(registry.device(2).unwrap().line_count() > 0);
    // routing to channel 2 again first drains the stale "x"
    registry.route(2, b'z', false);
    assert_eq!(registry.device(2).unwrap().output(), "z");
}

#[test]
fn completed_line_on_connected_input_channel_is_sent() {
    let mut registry = DeviceRegistry::new();
    registry.add_device(0);
    for b in b"hi" {
        assert!(registry.route(0, *b, true).is_none());
    }
    let sent = registry.route(0, b'\r', true);
    assert_eq!(sent, Some("hi\r".to_string()));
    // the device was taken for sending
    assert_eq!(registry.device(0).unwrap().output(), "");
}

#[test]
fn unconnected_input_keeps_its_lines() {
    let mut registry = DeviceRegistry::new();
    registry.add_device(0);
    for b in b"hi" {
        registry.route(0, *b, false);
    }
    registry.route(0, b'\r', false);
    assert_eq!(registry.device(0).unwrap().output(), "hi\r");
}

#[test]
fn adding_a_channel_twice_resets_it() {
    let mut registry = DeviceRegistry::new();
    registry.add_device(3);
    registry.route(3, b'a', false);
    assert_eq!(registry.device(3).unwrap().output(), "a");
    registry.add_device(3);
    assert_eq!(registry.device(3).unwrap().output(), "");
}

#[test]
fn arrow_keys_reach_the_editing_device() {
    let mut registry = DeviceRegistry::new();
    registry.add_device(0);
    registry.set_editing(Some(0));
    assert_eq!(registry.editing(), Some(0));
    for b in b"ac" {
        registry.route(0, *b, false);
    }
    registry.editing_cursor_left();
    registry.route(0, b'b', false);
    assert_eq!(registry.device(0).unwrap().output(), "abc");
}
