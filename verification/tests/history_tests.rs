use flock::history::{ScrollDirection, TerminalHistory, MAX_HISTORY, VISIBLE_LINES};

#[test]
fn new_history_points_to_help() {
    let h = TerminalHistory::default();
    assert_eq!(h.lines, vec!["Type 'help' for commands.".to_string()]);
    assert_eq!(h.scroll, 0);
    assert_eq!(h.rebuild_terminal(), "Type 'help' for commands.\n");
}

#[test]
fn messages_are_split_into_lines_like_str_lines() {
    let msgs = vec!["a\nb\r\nc\r".to_string(), "".to_string(), "d\n".to_string(), "\n".to_string()];
    let mut h = TerminalHistory { lines: vec![], scroll: 0 };
    let text = h.update_terminal_history(&msgs);
    let mut expected: Vec<String> = vec![];
    for m in &msgs {
        expected.extend(m.lines().map(|l| l.to_string()));
    }
    assert_eq!(h.lines, expected);
    assert_eq!(text, Some("a\nb\nc\r\nd\n\n".to_string()));
}

#[test]
fn no_lines_means_no_change() {
    let mut h = TerminalHistory { lines: vec!["x".to_string(); 30], scroll: 5 };
    let text = h.update_terminal_history(&vec!["".to_string()]);
    assert_eq!(text, None);
    assert_eq!(h.scroll, 5);
}

#[test]
fn new_lines_reset_scroll_and_history_is_capped() {
    let mut h = TerminalHistory { lines: vec!["old".to_string(); MAX_HISTORY], scroll: 3 };
    let text = h.update_terminal_history(&vec!["new1\nnew2".to_string()]);
    assert_eq!(h.lines.len(), MAX_HISTORY);
    assert_eq!(h.lines[MAX_HISTORY - 1], "new2");
    assert_eq!(h.lines[MAX_HISTORY - 2], "new1");
    assert_eq!(h.scroll, 0);
    let t = text.unwrap();
    assert_eq!(t.lines().count(), VISIBLE_LINES);
    assert!(t.ends_with("new1\nnew2\n"));
}

#[test]
fn scrolling_moves_the_view() {
    let lines: Vec<String> = (0..20).map(|i| format!("l{}", i)).collect();
    let mut h = TerminalHistory { lines, scroll: 0 };
    let t = h.terminal_scroll(&vec![ScrollDirection::Up]).unwrap();
    assert_eq!(h.scroll, 1);
    assert!(t.starts_with("l2\n") && t.ends_with("l18\n"));
    h.terminal_scroll(&vec![ScrollDirection::Up; 10]);
    assert_eq!(h.scroll, 3);
    let t = h.rebuild_terminal();
    assert!(t.starts_with("l0\n") && t.ends_with("l16\n"));
    h.terminal_scroll(&vec![ScrollDirection::Down; 10]);
    assert_eq!(h.scroll, 0);
    assert_eq!(h.terminal_scroll(&vec![ScrollDirection::Still]), None);
}

#[test]
fn scroll_up_then_down_returns() {
    let lines: Vec<String> = (0..40).map(|i| format!("l{}", i)).collect();
    let mut h = TerminalHistory { lines, scroll: 4 };
    h.terminal_scroll(&vec![ScrollDirection::Up, ScrollDirection::Down]);
    assert_eq!(h.scroll, 4);
    h.terminal_scroll(&vec![ScrollDirection::Down, ScrollDirection::Up]);
    assert_eq!(h.scroll, 4);
}

#[test]
fn short_history_cannot_scroll() {
    let mut h = TerminalHistory::default();
    h.terminal_scroll(&vec![ScrollDirection::Up, ScrollDirection::Up]);
    assert_eq!(h.scroll, 0);
}
