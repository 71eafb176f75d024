use lifec_shell::CharDevice;

#[test]
fn printable_writes_grow_buffer_and_cursor() {
    // with no navigation, the buffer holds exactly what was written and
    // the cursor stands at its end
    let mut device = CharDevice::new();
    for b in b"hello world" {
        device.write_char(*b);
    }
    assert_eq!(device.output(), "hello world");
    assert_eq!(device.cursor_tail(), 10);
    assert_eq!(device.before_cursor(), "hello world");
    assert_eq!(device.line_count(), 1);
}

#[test]
fn backspace_removes_one_character() {
    let mut device = CharDevice::new();
    for b in b"abc" {
        device.write_char(*b);
    }
    device.write_char(0x7f);
    assert_eq!(device.output(), "ab");
    device.write_char(0x08);
    assert_eq!(device.output(), "a");
    // backspace at the start of an empty buffer is a no-op
    device.write_char(0x7f);
    device.write_char(0x7f);
    assert_eq!(device.output(), "");
}

#[test]
fn unhandled_bytes_are_dropped() {
    let mut device = CharDevice::new();
    device.write_char(b'a');
    device.write_char(b'.');
    device.write_char(b'+');
    device.write_char(0x1b);
    device.write_char(b'b');
    assert_eq!(device.output(), "ab");
}

#[test]
fn enter_starts_a_new_line() {
    let mut device = CharDevice::new();
    for b in b"ab" {
        device.write_char(*b);
    }
    device.write_char(b'\r');
    for b in b"cd" {
        device.write_char(*b);
    }
    assert_eq!(device.output(), "ab\rcd");
    assert_eq!(device.line_count(), 2);
    assert_eq!(device.line_nos(), "0\r1");
    assert_eq!(device.get_line(0), Some("ab".to_string()));
    assert_eq!(device.get_line(1), Some("cd".to_string()));
    assert_eq!(device.get_line(2), None);
    assert_eq!(device.get_current_line(), Some("cd".to_string()));
}

#[test]
fn take_buffer_resets_everything() {
    let mut device = CharDevice::new();
    for b in b"one" {
        device.write_char(*b);
    }
    device.write_char(b'\r');
    for b in b"two" {
        device.write_char(*b);
    }
    let taken = device.take_buffer();
    assert_eq!(taken, "one\rtwo");
    // every read accessor now comes back empty or zero
    assert_eq!(device.output(), "");
    assert_eq!(device.before_cursor(), "");
    assert_eq!(device.after_cursor(), "");
    assert_eq!(device.line_count(), 0);
    assert_eq!(device.cursor_tail(), 0);
    assert_eq!(device.line_nos(), "");
    assert_eq!(device.get_current_line(), Some("".to_string()));
}

#[test]
fn cursor_navigation() {
    let mut device = CharDevice::new();
    for b in b"ab" {
        device.write_char(*b);
    }
    device.write_char(b'\r');
    for b in b"cd" {
        device.write_char(*b);
    }
    // cursor sits at the end of line 1; up moves to the start of line 0
    device.cursor_up();
    assert_eq!(device.before_cursor(), "");
    device.cursor_down();
    assert_eq!(device.before_cursor(), "ab\r");
    // stepping right over characters and the separator
    device.cursor_right();
    assert_eq!(device.before_cursor(), "ab\rc");
    device.cursor_left();
    device.cursor_left();
    assert_eq!(device.before_cursor(), "ab");
    // goto clamps an out-of-range line to the last line
    device.goto_line(9);
    assert_eq!(device.before_cursor(), "ab\r");
    device.goto_line(0);
    assert_eq!(device.before_cursor(), "");
}

#[test]
fn insertion_at_the_cursor() {
    let mut device = CharDevice::new();
    for b in b"ac" {
        device.write_char(*b);
    }
    device.cursor_left();
    device.write_char(b'b');
    assert_eq!(device.output(), "abc");
}

#[test]
fn after_cursor_starts_at_the_tail() {
    let mut device = CharDevice::new();
    for b in b"abcd" {
        device.write_char(*b);
    }
    device.cursor_left();
    device.cursor_left();
    // the cursor stands at 2; the tail clamps one before it
    assert_eq!(device.cursor_tail(), 1);
    assert_eq!(device.after_cursor(), "bcd");
}

#[test]
fn line_numbers_reach_two_digits() {
    let mut device = CharDevice::new();
    device.write_char(b'a');
    for _ in 0..10 {
        device.write_char(b'\r');
    }
    assert_eq!(device.line_count(), 11);
    assert_eq!(device.line_nos(), "0\r1\r2\r3\r4\r5\r6\r7\r8\r9\r10");
}
