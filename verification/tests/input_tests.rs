use flock::input::{handle_typing, CommandQueue, Key, KeyEvent, TerminalInput};

fn press(k: Key) -> KeyEvent {
    KeyEvent { key: k, pressed: true }
}

fn ch(s: &str) -> Key {
    Key::Character(s.to_string())
}

fn text(i: &TerminalInput) -> String {
    i.buffer.iter().collect()
}

#[test]
fn typing_inserts_at_cursor() {
    let mut input = TerminalInput::default();
    let mut q = CommandQueue::default();
    let evs = vec![press(ch("ac")), press(Key::ArrowLeft), press(ch("b")), press(Key::Space)];
    handle_typing(&mut input, &mut q, &evs, false);
    assert_eq!(text(&input), "ab c");
    assert_eq!(input.cursor_pos, 3);
    assert!(q.pending.is_empty());
}

#[test]
fn control_characters_are_not_inserted() {
    let mut input = TerminalInput::default();
    let mut q = CommandQueue::default();
    handle_typing(&mut input, &mut q, &vec![press(ch("a\u{7}b\u{1b}"))], false);
    assert_eq!(text(&input), "ab");
    assert_eq!(input.cursor_pos, 2);
}

#[test]
fn released_keys_do_nothing() {
    let mut input = TerminalInput::default();
    let mut q = CommandQueue::default();
    handle_typing(&mut input, &mut q, &vec![KeyEvent { key: ch("x"), pressed: false }], false);
    assert_eq!(text(&input), "");
}

#[test]
fn enter_submits_trimmed_command() {
    let mut input = TerminalInput::default();
    let mut q = CommandQueue::default();
    let evs = vec![press(Key::Space), press(ch("status")), press(Key::Space), press(Key::Enter)];
    handle_typing(&mut input, &mut q, &evs, false);
    assert_eq!(q.pending, vec!["status".to_string()]);
    assert_eq!(input.history, vec!["status".to_string()]);
    assert_eq!(input.history_index, 1);
    assert_eq!(text(&input), "");
    assert_eq!(input.cursor_pos, 0);
}

#[test]
fn enter_on_blank_line_submits_nothing() {
    let mut input = TerminalInput::default();
    let mut q = CommandQueue::default();
    handle_typing(&mut input, &mut q, &vec![press(Key::Space), press(Key::Enter)], false);
    assert!(q.pending.is_empty());
    assert!(input.history.is_empty());
    assert_eq!(text(&input), "");
}

#[test]
fn backspace_and_delete() {
    let mut input = TerminalInput::default();
    let mut q = CommandQueue::default();
    let evs = vec![
        press(ch("abcd")),
        press(Key::Backspace),
        press(Key::Home),
        press(Key::Delete),
        press(Key::Backspace),
        press(Key::End),
    ];
    handle_typing(&mut input, &mut q, &evs, false);
    assert_eq!(text(&input), "bc");
    assert_eq!(input.cursor_pos, 2);
}

#[test]
fn type_then_backspace_restores_line() {
    let mut input = TerminalInput::default();
    let mut q = CommandQueue::default();
    handle_typing(&mut input, &mut q, &vec![press(ch("door")), press(Key::ArrowLeft)], false);
    let before = (text(&input), input.cursor_pos);
    handle_typing(&mut input, &mut q, &vec![press(ch("x")), press(Key::Backspace)], false);
    assert_eq!((text(&input), input.cursor_pos), before);
}

#[test]
fn left_then_right_restores_cursor() {
    let mut input = TerminalInput::default();
    let mut q = CommandQueue::default();
    handle_typing(&mut input, &mut q, &vec![press(ch("abc"))], false);
    handle_typing(&mut input, &mut q, &vec![press(Key::ArrowLeft), press(Key::ArrowRight)], false);
    assert_eq!(input.cursor_pos, 3);
    handle_typing(&mut input, &mut q, &vec![press(Key::ArrowRight)], false);
    assert_eq!(input.cursor_pos, 3);
}

#[test]
fn ctrl_c_clears_and_ctrl_u_cuts_before_cursor() {
    let mut input = TerminalInput::default();
    let mut q = CommandQueue::default();
    handle_typing(&mut input, &mut q, &vec![press(ch("power bridge")), press(Key::ArrowLeft)], false);
    handle_typing(&mut input, &mut q, &vec![press(ch("U"))], true);
    assert_eq!(text(&input), "e");
    assert_eq!(input.cursor_pos, 0);
    handle_typing(&mut input, &mut q, &vec![press(ch("c"))], true);
    assert_eq!(text(&input), "");
    handle_typing(&mut input, &mut q, &vec![press(ch("x"))], true);
    assert_eq!(text(&input), "x");
}

#[test]
fn history_navigation() {
    let mut input = TerminalInput::default();
    let mut q = CommandQueue::default();
    let evs = vec![
        press(ch("help")),
        press(Key::Enter),
        press(ch("status")),
        press(Key::Enter),
        press(Key::ArrowUp),
    ];
    handle_typing(&mut input, &mut q, &evs, false);
    assert_eq!(text(&input), "status");
    assert_eq!(input.cursor_pos, 6);
    handle_typing(&mut input, &mut q, &vec![press(Key::ArrowUp), press(Key::ArrowUp)], false);
    assert_eq!(text(&input), "help");
    assert_eq!(input.history_index, 0);
    handle_typing(&mut input, &mut q, &vec![press(Key::ArrowDown)], false);
    assert_eq!(text(&input), "status");
    handle_typing(&mut input, &mut q, &vec![press(Key::ArrowDown)], false);
    assert_eq!(text(&input), "");
    assert_eq!(input.history_index, 2);
    handle_typing(&mut input, &mut q, &vec![press(Key::ArrowDown)], false);
    assert_eq!(input.history_index, 2);
    assert_eq!(q.pending, vec!["help".to_string(), "status".to_string()]);
}

#[test]
fn display_segments_split_at_cursor() {
    let mut input = TerminalInput::default();
    let mut q = CommandQueue::default();
    handle_typing(&mut input, &mut q, &vec![press(ch("door")), press(Key::ArrowLeft), press(Key::ArrowLeft)], false);
    let seg = input.display_segments();
    assert_eq!(seg.left, "> do");
    assert_eq!(seg.cursor_char, "o");
    assert_eq!(seg.right, "r");
    handle_typing(&mut input, &mut q, &vec![press(Key::End)], false);
    let seg = input.display_segments();
    assert_eq!(seg.left, "> door");
    assert_eq!(seg.cursor_char, " ");
    assert_eq!(seg.right, "");
}

#[test]
fn enter_then_up_recalls_the_command() {
    let mut input = TerminalInput::default();
    let mut q = CommandQueue::default();
    handle_typing(&mut input, &mut q, &vec![press(ch("  door d01 ")), press(Key::Enter), press(Key::ArrowUp)], false);
    assert_eq!(text(&input), "door d01");
    assert_eq!(input.cursor_pos, 8);
}

#[test]
fn typing_is_safe_on_a_well_formed_line() {
    let input = TerminalInput::default();
    let evs = vec![press(ch("ls")), press(Key::Backspace), press(Key::ArrowUp), press(Key::Enter)];
    assert!(input.typing_is_safe(&evs, false));
    assert!(input.typing_is_safe(&evs, true));
}

#[test]
fn typing_past_the_end_is_not_safe() {
    let input = TerminalInput {
        buffer: vec!['a'],
        cursor_pos: 3,
        history: Vec::new(),
        history_index: 0,
    };
    assert!(!input.typing_is_safe(&vec![press(Key::Backspace)], false));
    assert!(!input.typing_is_safe(&vec![press(ch("x"))], false));
    assert!(!input.typing_is_safe(&vec![press(ch("u"))], true));
    // Keys that do not touch the text at the cursor are fine.
    assert!(input.typing_is_safe(&vec![press(Key::Home), press(ch("x"))], false));
    assert!(input.typing_is_safe(&vec![press(ch("\u{7}")), press(Key::Delete)], false));
    assert!(input.typing_is_safe(&vec![KeyEvent { key: Key::Backspace, pressed: false }], false));
}

#[test]
fn recalling_past_the_history_is_not_safe() {
    let input = TerminalInput {
        buffer: Vec::new(),
        cursor_pos: 0,
        history: vec!["status".to_string()],
        history_index: 4,
    };
    assert!(!input.typing_is_safe(&vec![press(Key::ArrowUp)], false));
    // Submitting a command moves the index back to the end of the history.
    assert!(input.typing_is_safe(&vec![press(ch("a")), press(Key::Enter), press(Key::ArrowUp)], false));
}

#[test]
fn home_brings_a_stray_cursor_back() {
    let mut input = TerminalInput {
        buffer: vec!['a', 'b'],
        cursor_pos: 5,
        history: Vec::new(),
        history_index: 0,
    };
    let mut q = CommandQueue::default();
    handle_typing(&mut input, &mut q, &vec![press(Key::Home), press(ch("x"))], false);
    assert_eq!(text(&input), "xab");
    assert_eq!(input.cursor_pos, 1);
}
