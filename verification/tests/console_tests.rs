use sidereal_client::console::{
    apply_console_key, is_console_open, is_control_char, join_with_spaces, render_log_line, submit_console_command,
    sync_dev_console_log_lines, toggle_dev_console, ConsoleFieldVisitor, ConsoleKey, ConsoleLogBuffer, ConsoleLogLevel,
    ConsoleLogLine, DevConsoleState, DEV_CONSOLE_DISPLAYED_LINES_CAP, DEV_CONSOLE_MAX_BUFFER_LINES,
};

fn line(ts: u64, msg: &str) -> ConsoleLogLine {
    ConsoleLogLine { ts_epoch_ms: ts, level: ConsoleLogLevel::Info, target: "client".to_string(), message: msg.to_string() }
}

#[test]
fn log_buffer_numbers_lines_and_reads_only_new_ones() {
    let mut b = ConsoleLogBuffer::new();
    b.push_line(line(1, "a"));
    b.push_line(line(2, "b"));
    let (newest, lines) = b.read_since(0);
    assert_eq!(newest, 2);
    assert_eq!(lines.len(), 2);
    let (newest, lines) = b.read_since(1);
    assert_eq!(newest, 2);
    assert_eq!(lines.len(), 1);
    assert_eq!(lines[0].message, "b");
    let (_, lines) = b.read_since(2);
    assert!(lines.is_empty());
}

#[test]
fn log_buffer_drops_the_oldest_lines_beyond_its_cap() {
    let mut b = ConsoleLogBuffer::new();
    for i in 0..(DEV_CONSOLE_MAX_BUFFER_LINES as u64 + 5) {
        b.push_line(line(i, "x"));
    }
    assert_eq!(b.lines.len(), DEV_CONSOLE_MAX_BUFFER_LINES);
    assert_eq!(b.lines[0].seq, 6);
    let (_, lines) = b.read_since(0);
    assert_eq!(lines.len(), DEV_CONSOLE_MAX_BUFFER_LINES);
}

#[test]
fn console_shows_new_log_lines_up_to_its_cap() {
    let mut b = ConsoleLogBuffer::new();
    let mut st = DevConsoleState::new();
    for i in 0..(DEV_CONSOLE_DISPLAYED_LINES_CAP as u64 + 10) {
        b.push_line(line(i, "x"));
    }
    sync_dev_console_log_lines(&mut st, &b);
    assert_eq!(st.displayed_lines.len(), DEV_CONSOLE_DISPLAYED_LINES_CAP);
    assert_eq!(st.displayed_lines[0].ts_epoch_ms, 10);
    assert_eq!(st.log_cursor_seq, DEV_CONSOLE_DISPLAYED_LINES_CAP as u64 + 10);
    b.push_line(line(99999, "newest"));
    sync_dev_console_log_lines(&mut st, &b);
    assert_eq!(st.displayed_lines.last().unwrap().message, "newest");
    assert_eq!(st.displayed_lines.len(), DEV_CONSOLE_DISPLAYED_LINES_CAP);
}

#[test]
fn console_toggles_and_edits_its_input() {
    let mut st = DevConsoleState::new();
    assert!(!is_console_open(Some(&st)));
    toggle_dev_console(&mut st);
    assert!(is_console_open(Some(&st)));
    assert!(!is_console_open(None));
    assert!(!apply_console_key(&mut st, &ConsoleKey::Text("he\u{7}y".to_string())));
    assert_eq!(st.input_line, "hey");
    apply_console_key(&mut st, &ConsoleKey::Backspace);
    assert_eq!(st.input_line, "he");
    assert!(apply_console_key(&mut st, &ConsoleKey::Enter));
    assert!(is_control_char('\n'));
    assert!(!is_control_char('a'));
}

#[test]
fn console_commands_enter_the_history() {
    let mut st = DevConsoleState::new();
    st.input_line = "   ".to_string();
    assert!(submit_console_command(&mut st).is_none());
    st.input_line = "  help ".to_string();
    let (echo, reply) = submit_console_command(&mut st).unwrap();
    assert_eq!(echo, "> help");
    assert_eq!(reply, "not implemented yet");
    assert!(st.input_line.is_empty());
    st.input_line = "help".to_string();
    submit_console_command(&mut st);
    assert_eq!(st.history, vec!["help".to_string()]);
    st.input_line = "status".to_string();
    submit_console_command(&mut st);
    apply_console_key(&mut st, &ConsoleKey::ArrowUp);
    assert_eq!(st.input_line, "status");
    apply_console_key(&mut st, &ConsoleKey::ArrowUp);
    assert_eq!(st.input_line, "help");
    apply_console_key(&mut st, &ConsoleKey::ArrowUp);
    assert_eq!(st.input_line, "help");
    apply_console_key(&mut st, &ConsoleKey::ArrowDown);
    assert_eq!(st.input_line, "status");
    apply_console_key(&mut st, &ConsoleKey::ArrowDown);
    assert_eq!(st.input_line, "");
    assert!(st.history_index.is_none());
}

#[test]
fn log_records_render_message_then_fields() {
    let mut v = ConsoleFieldVisitor::new();
    assert_eq!(ConsoleFieldVisitor::new().render_message(), "<event>");
    v.record_value("asset_id", "a1".to_string());
    v.record_value("message", "loaded".to_string());
    v.record_value("bytes", "12".to_string());
    assert_eq!(v.render_message(), "loaded asset_id=a1 bytes=12");
    assert_eq!(join_with_spaces(&vec!["a".to_string(), "b".to_string()]), "a b");
    assert_eq!(join_with_spaces(&Vec::new()), "");
}

#[test]
fn log_lines_render_with_time_level_and_target() {
    let l = ConsoleLogLine { ts_epoch_ms: 12005, level: ConsoleLogLevel::Warn, target: "net".to_string(), message: "slow".to_string() };
    assert_eq!(render_log_line(&l), "[12.005] WARN  net: slow\n");
    let l = ConsoleLogLine { ts_epoch_ms: 999, level: ConsoleLogLevel::Error, target: "t".to_string(), message: "m".to_string() };
    assert_eq!(render_log_line(&l), "[0.999] ERROR t: m\n");
}

#[test]
fn a_caught_up_reader_reads_exactly_the_next_line() {
    let mut b = ConsoleLogBuffer::new();
    for i in 0..3u64 {
        b.push_line(line(i, "old"));
    }
    let (newest, _) = b.read_since(0);
    let (_, nothing) = b.read_since(newest);
    assert!(nothing.is_empty());
    b.push_line(line(7, "new"));
    let (next, lines) = b.read_since(newest);
    assert_eq!(next, newest + 1);
    assert_eq!(lines.len(), 1);
    assert_eq!(lines[0].message, "new");
}

#[test]
fn a_caught_up_reader_reads_every_line_pushed_since_even_across_the_cap() {
    let mut b = ConsoleLogBuffer::new();
    b.push_line(line(1, "seen"));
    let (cursor, _) = b.read_since(0);
    let pushed = DEV_CONSOLE_MAX_BUFFER_LINES as u64;
    for i in 0..pushed {
        b.push_line(line(10 + i, "new"));
    }
    let (newest, lines) = b.read_since(cursor);
    assert_eq!(newest, cursor + pushed);
    assert_eq!(lines.len() as u64, pushed);
    assert_eq!(lines[0].ts_epoch_ms, 10);
    assert_eq!(lines[lines.len() - 1].ts_epoch_ms, 10 + pushed - 1);
}

#[test]
fn reading_since_a_number_returns_later_lines_and_changes_nothing() {
    let mut b = ConsoleLogBuffer::new();
    b.push_line(line(1, "a"));
    b.push_line(line(2, "b"));
    b.push_line(line(3, "c"));
    let (newest, lines) = b.read_since(1);
    assert_eq!(newest, 3);
    let msgs: Vec<String> = lines.iter().map(|l| l.message.clone()).collect();
    assert_eq!(msgs, vec!["b".to_string(), "c".to_string()]);
    let (again_newest, again) = b.read_since(1);
    assert_eq!(again_newest, 3);
    assert_eq!(again.len(), 2);
    let (_, none) = b.read_since(9);
    assert!(none.is_empty());
}
