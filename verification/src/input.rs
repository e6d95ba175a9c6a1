//! The line editor of the terminal: the text being typed, its cursor, the
//! history of submitted commands, and the queue of commands that wait to be
//! carried out.
use vstd::prelude::*;

use crate::text::{
    ascii_fold, chars_of, is_control, is_control_spec, push_char, string_of, trim, trim_chars,
};

verus! {

/// Commands that were submitted and wait to be carried out, oldest first.
pub struct CommandQueue {
    pub pending: Vec<String>,
}

impl CommandQueue {
    /// The texts of the pending commands, oldest first.
    pub open spec fn pending_view(&self) -> Seq<Seq<char>> {
        self.pending@.map_values(|s: String| s@)
    }

}

impl Default for CommandQueue {
    /// An empty queue.
    fn default() -> (q: CommandQueue)
        ensures
            q.pending@ == Seq::<String>::empty(),
    {
        CommandQueue { pending: Vec::new() }
    }
}

/// The input line of the terminal.
pub struct TerminalInput {
    /// The characters typed so far.
    pub buffer: Vec<char>,
    /// Where the next typed character goes: an index into `buffer`, at most its length.
    pub cursor_pos: usize,
    /// The commands submitted so far, oldest first.
    pub history: Vec<String>,
    /// The entry of `history` that the arrow keys reached; its length when none.
    pub history_index: usize,
}

/// The state of the input line as a mathematical value.
pub struct InputState {
    pub buffer: Seq<char>,
    pub cursor: nat,
    pub history: Seq<Seq<char>>,
    pub index: nat,
}

/// A well-formed input state: the cursor lies within the text, and the
/// history index within the history or just past its end.
pub open spec fn input_wf(s: InputState) -> bool {
    s.cursor <= s.buffer.len() && s.index <= s.history.len()
}

/// A key of the keyboard, as the line editor tells keys apart.
#[derive(Debug)]
pub enum Key {
    Enter,
    Backspace,
    Delete,
    ArrowLeft,
    ArrowRight,
    Home,
    End,
    ArrowUp,
    ArrowDown,
    Space,
    /// A key that produces text.
    Character(String),
    /// Any other key.
    Other,
}

/// The meaning of a [`Key`].
pub enum KeyMeaning {
    Enter,
    Backspace,
    Delete,
    ArrowLeft,
    ArrowRight,
    Home,
    End,
    ArrowUp,
    ArrowDown,
    Space,
    Character(Seq<char>),
    Other,
}

impl View for Key {
    type V = KeyMeaning;

    open spec fn view(&self) -> KeyMeaning {
        match self {
            Key::Enter => KeyMeaning::Enter,
            Key::Backspace => KeyMeaning::Backspace,
            Key::Delete => KeyMeaning::Delete,
            Key::ArrowLeft => KeyMeaning::ArrowLeft,
            Key::ArrowRight => KeyMeaning::ArrowRight,
            Key::Home => KeyMeaning::Home,
            Key::End => KeyMeaning::End,
            Key::ArrowUp => KeyMeaning::ArrowUp,
            Key::ArrowDown => KeyMeaning::ArrowDown,
            Key::Space => KeyMeaning::Space,
            Key::Character(t) => KeyMeaning::Character(t@),
            Key::Other => KeyMeaning::Other,
        }
    }
}

/// A keyboard event: a key that was pressed, or released.
#[derive(Debug)]
pub struct KeyEvent {
    pub key: Key,
    pub pressed: bool,
}

/// The characters of a text that are not control characters, in order.
pub open spec fn printable(t: Seq<char>) -> Seq<char>
    decreases t.len(),
{
    if t.len() == 0 {
        Seq::empty()
    } else if is_control_spec(t.last()) {
        printable(t.drop_last())
    } else {
        printable(t.drop_last()).push(t.last())
    }
}

/// Whether the key is the letter `letter` in either case (a key whose text
/// is that one letter).
pub open spec fn is_letter_key(k: KeyMeaning, letter: char) -> bool {
    match k {
        KeyMeaning::Character(t) => t.len() == 1 && ascii_fold(t[0]) == ascii_fold(letter),
        _ => false,
    }
}

/// The text `s` with `ins` put in at index `at`.
pub open spec fn insert_at(s: Seq<char>, at: int, ins: Seq<char>) -> Seq<char> {
    s.take(at) + ins + s.skip(at)
}

/// The input state after the history entry `i` was recalled.
pub open spec fn recall(s: InputState, i: nat) -> InputState {
    InputState { buffer: s.history[i as int], cursor: s.history[i as int].len(), index: i, ..s }
}

/// The input state with an empty line.
pub open spec fn cleared(s: InputState) -> InputState {
    InputState { buffer: Seq::empty(), cursor: 0, ..s }
}

/// What one key press does to the input line, and the command it submits, if any.
///
/// With the control key held, the letter `c` clears the line and the letter
/// `u` deletes what lies before the cursor; any other key does what it does
/// without the control key.
pub open spec fn key_step(s: InputState, k: KeyMeaning, ctrl: bool) -> (InputState, Option<Seq<char>>) {
    if ctrl && is_letter_key(k, 'c') {
        (cleared(s), None)
    } else if ctrl && is_letter_key(k, 'u') {
        (InputState { buffer: s.buffer.skip(s.cursor as int), cursor: 0, ..s }, None)
    } else {
        match k {
            KeyMeaning::Enter => {
                let cmd = trim(s.buffer);
                if cmd.len() > 0 {
                    (
                        InputState {
                            buffer: Seq::empty(),
                            cursor: 0,
                            history: s.history.push(cmd),
                            index: s.history.len() + 1,
                        },
                        Some(cmd),
                    )
                } else {
                    (cleared(s), None)
                }
            },
            KeyMeaning::Backspace => if s.cursor > 0 {
                (
                    InputState {
                        buffer: s.buffer.remove(s.cursor - 1),
                        cursor: (s.cursor - 1) as nat,
                        ..s
                    },
                    None,
                )
            } else {
                (s, None)
            },
            KeyMeaning::Delete => if s.cursor < s.buffer.len() {
                (InputState { buffer: s.buffer.remove(s.cursor as int), ..s }, None)
            } else {
                (s, None)
            },
            KeyMeaning::ArrowLeft => if s.cursor > 0 {
                (InputState { cursor: (s.cursor - 1) as nat, ..s }, None)
            } else {
                (s, None)
            },
            KeyMeaning::ArrowRight => if s.cursor < s.buffer.len() {
                (InputState { cursor: s.cursor + 1, ..s }, None)
            } else {
                (s, None)
            },
            KeyMeaning::Home => (InputState { cursor: 0, ..s }, None),
            KeyMeaning::End => (InputState { cursor: s.buffer.len(), ..s }, None),
            KeyMeaning::ArrowUp => if s.index > 0 {
                (recall(s, (s.index - 1) as nat), None)
            } else {
                (s, None)
            },
            KeyMeaning::ArrowDown => if s.index + 1 < s.history.len() {
                (recall(s, s.index + 1), None)
            } else if s.index < s.history.len() {
                (InputState { index: s.history.len(), ..cleared(s) }, None)
            } else {
                (s, None)
            },
            KeyMeaning::Space => (
                InputState {
                    buffer: s.buffer.insert(s.cursor as int, ' '),
                    cursor: s.cursor + 1,
                    ..s
                },
                None,
            ),
            KeyMeaning::Character(t) => {
                let p = printable(t);
                if p.len() == 0 {
                    (s, None)
                } else {
                    (
                        InputState {
                            buffer: insert_at(s.buffer, s.cursor as int, p),
                            cursor: s.cursor + p.len(),
                            ..s
                        },
                        None,
                    )
                }
            },
            KeyMeaning::Other => (s, None),
        }
    }
}

/// The meaning of a keyboard event.
pub open spec fn event_meaning(e: KeyEvent) -> (KeyMeaning, bool) {
    (e.key@, e.pressed)
}

/// What a sequence of keyboard events does to the input line, and the
/// commands it submits, in order. Released keys do nothing.
pub open spec fn key_steps(s: InputState, events: Seq<KeyEvent>, ctrl: bool) -> (
    InputState,
    Seq<Seq<char>>,
)
    decreases events.len(),
{
    if events.len() == 0 {
        (s, Seq::empty())
    } else {
        let prev = key_steps(s, events.drop_last(), ctrl);
        let e = events.last();
        if !e.pressed {
            prev
        } else {
            let step = key_step(prev.0, e.key@, ctrl);
            match step.1 {
                Some(cmd) => (step.0, prev.1.push(cmd)),
                None => (step.0, prev.1),
            }
        }
    }
}

/// Whether a key press can be handled from the given state: the keys that
/// edit the text at the cursor (Backspace, Space, a key with printable text,
/// and `u` with the control key held) need the cursor within the text, and
/// the up arrow needs the history index within the history or just past it.
pub open spec fn key_safe(s: InputState, k: KeyMeaning, ctrl: bool) -> bool {
    if ctrl && is_letter_key(k, 'c') {
        true
    } else if ctrl && is_letter_key(k, 'u') {
        s.cursor <= s.buffer.len()
    } else {
        match k {
            KeyMeaning::Backspace => s.cursor <= s.buffer.len(),
            KeyMeaning::Space => s.cursor <= s.buffer.len(),
            KeyMeaning::ArrowUp => s.index <= s.history.len(),
            KeyMeaning::Character(t) => s.cursor <= s.buffer.len() || printable(t).len() == 0,
            _ => true,
        }
    }
}

/// Whether every pressed key of a sequence of events can be handled, each
/// from the state that the events before it leave.
pub open spec fn keys_safe(s: InputState, events: Seq<KeyEvent>, ctrl: bool) -> bool
    decreases events.len(),
{
    if events.len() == 0 {
        true
    } else {
        &&& keys_safe(s, events.drop_last(), ctrl)
        &&& events.last().pressed ==> key_safe(
            key_steps(s, events.drop_last(), ctrl).0,
            events.last().key@,
            ctrl,
        )
    }
}

proof fn lemma_keys_safe_prefix(s: InputState, events: Seq<KeyEvent>, ctrl: bool, n: int)
    requires
        0 <= n <= events.len(),
        keys_safe(s, events, ctrl),
    ensures
        keys_safe(s, events.take(n), ctrl),
    decreases events.len(),
{
    if n == events.len() {
        assert(events.take(n) == events);
    } else {
        lemma_keys_safe_prefix(s, events.drop_last(), ctrl, n);
        assert(events.drop_last().take(n) == events.take(n));
    }
}

/// From a well-formed state every key press can be handled.
pub proof fn lemma_wf_keys_safe(s: InputState, k: KeyMeaning, ctrl: bool)
    requires
        input_wf(s),
    ensures
        key_safe(s, k, ctrl),
{
}

/// The display of the input line: the prompt with the text before the
/// cursor, the character under the cursor, and the text after it.
pub struct InputSegments {
    pub left: String,
    pub cursor_char: String,
    pub right: String,
}

impl Default for TerminalInput {
    /// An empty input line with an empty history.
    fn default() -> (r: TerminalInput)
        ensures
            r.buffer@ == Seq::<char>::empty(),
            r.cursor_pos == 0,
            r.history@ == Seq::<String>::empty(),
            r.history_index == 0,
    {
        TerminalInput { buffer: Vec::new(), cursor_pos: 0, history: Vec::new(), history_index: 0 }
    }
}

/// The characters that are not control characters, of two texts joined,
/// are those of the first followed by those of the second.
pub proof fn lemma_printable_concat(a: Seq<char>, b: Seq<char>)
    ensures
        printable(a + b) == printable(a) + printable(b),
    decreases b.len(),
{
    if b.len() == 0 {
        assert(a + b == a);
    } else {
        lemma_printable_concat(a, b.drop_last());
        assert((a + b).drop_last() == a + b.drop_last());
        assert((a + b).last() == b.last());
    }
}

proof fn lemma_not_letter_keys(k: KeyMeaning, tc: Seq<char>)
    requires
        k matches KeyMeaning::Character(t) && t == tc,
        !(tc.len() == 1 && (tc[0] as u32 == 0x63 || tc[0] as u32 == 0x43)),
        !(tc.len() == 1 && (tc[0] as u32 == 0x75 || tc[0] as u32 == 0x55)),
    ensures
        !is_letter_key(k, 'c') && !is_letter_key(k, 'u'),
{
    if tc.len() == 1 {
        let x = tc[0];
        assert(ascii_fold('c') == 0x63);
        assert(ascii_fold('u') == 0x75);
        assert(ascii_fold(x) != 0x63 && ascii_fold(x) != 0x75);
    }
}

impl TerminalInput {
    /// The state of the input line.
    pub open spec fn state(&self) -> InputState {
        InputState {
            buffer: self.buffer@,
            cursor: self.cursor_pos as nat,
            history: self.history@.map_values(|s: String| s@),
            index: self.history_index as nat,
        }
    }

    /// The input line is well formed.
    pub open spec fn wf(&self) -> bool {
        input_wf(self.state())
    }

    fn recall_entry(&mut self, i: usize)
        requires
            i < old(self).history@.len(),
        ensures
            final(self).state() == recall(old(self).state(), i as nat),
            final(self).wf(),
    {
        let entry = chars_of(self.history[i].as_str());
        self.buffer = entry;
        self.cursor_pos = self.buffer.len();
        self.history_index = i;
    }

    fn insert_printable(&mut self, t: &str)
        requires
            old(self).cursor_pos <= old(self).buffer@.len() || printable(t@).len() == 0,
        ensures
            final(self).state() == key_step(
                old(self).state(),
                KeyMeaning::Character(t@),
                false,
            ).0,
            old(self).wf() ==> final(self).wf(),
    {
        let chars = chars_of(t);
        let ghost b0 = self.buffer@;
        let ghost c0 = self.cursor_pos as int;
        let ghost fits = c0 <= b0.len();
        let mut k: usize = 0;
        assert(chars@.take(0) == Seq::<char>::empty());
        assert(fits ==> insert_at(b0, c0, printable(chars@.take(0))) == b0);
        while k < chars.len()
            invariant
                chars@ == t@,
                k <= chars@.len(),
                0 <= c0,
                fits == (c0 <= b0.len()),
                fits || printable(t@).len() == 0,
                fits ==> self.buffer@ == insert_at(b0, c0, printable(chars@.take(k as int))),
                fits ==> self.cursor_pos == c0 + printable(chars@.take(k as int)).len(),
                !fits ==> self.buffer@ == b0 && self.cursor_pos == c0 && printable(
                    chars@.take(k as int),
                ).len() == 0,
                self.history == old(self).history,
                self.history_index == old(self).history_index,
            decreases chars@.len() - k,
        {
            let c = chars[k];
            let ghost p = printable(chars@.take(k as int));
            assert(chars@.take(k + 1).drop_last() == chars@.take(k as int));
            assert(chars@.take(k + 1).last() == c);
            if !is_control(c) {
                proof {
                    if !fits {
                        lemma_printable_concat(chars@.take(k + 1), chars@.skip(k + 1));
                        assert(chars@.take(k + 1) + chars@.skip(k + 1) == t@);
                        assert(false);
                    }
                }
                let at = self.cursor_pos;
                self.buffer.insert(at, c);
                assert(self.buffer@ == insert_at(b0, c0, p.push(c))) by {
                    assert(insert_at(b0, c0, p).insert(c0 + p.len(), c) =~= insert_at(
                        b0,
                        c0,
                        p.push(c),
                    ));
                }
                // The longer line still has a length that fits in `usize`.
                assert(self.buffer@.len() == self.buffer.len());
                self.cursor_pos = at + 1;
            }
            k = k + 1;
        }
        assert(chars@.take(chars@.len() as int) == chars@);
        proof {
            if fits {
                assert(self.buffer@.len() == b0.len() + printable(t@).len());
                if printable(t@).len() == 0 {
                    assert(insert_at(b0, c0, printable(t@)) =~= b0);
                }
            }
        }
    }

    /// Whether a key press can be handled from the current state.
    pub fn key_is_safe(&self, key: &Key, ctrl: bool) -> (r: bool)
        ensures
            r == key_safe(self.state(), key@, ctrl),
    {
        if ctrl {
            if let Key::Character(t) = key {
                let tc = chars_of(t.as_str());
                if tc.len() == 1 && (tc[0] as u32 == 0x63 || tc[0] as u32 == 0x43) {
                    return true;
                }
                if tc.len() == 1 && (tc[0] as u32 == 0x75 || tc[0] as u32 == 0x55) {
                    return self.cursor_pos <= self.buffer.len();
                }
                proof {
                    lemma_not_letter_keys(key@, tc@);
                }
            }
        }
        match key {
            Key::Backspace => self.cursor_pos <= self.buffer.len(),
            Key::Space => self.cursor_pos <= self.buffer.len(),
            Key::ArrowUp => self.history_index <= self.history.len(),
            Key::Character(t) => {
                if self.cursor_pos <= self.buffer.len() {
                    return true;
                }
                let chars = chars_of(t.as_str());
                let mut k: usize = 0;
                assert(chars@.take(0) == Seq::<char>::empty());
                assert(!(ctrl && is_letter_key(key@, 'c')) && !(ctrl && is_letter_key(key@, 'u')));
                while k < chars.len()
                    invariant
                        chars@ == t@,
                        key@ == KeyMeaning::Character(t@),
                        self.cursor_pos > self.buffer@.len(),
                        !(ctrl && is_letter_key(key@, 'c')),
                        !(ctrl && is_letter_key(key@, 'u')),
                        k <= chars@.len(),
                        printable(chars@.take(k as int)).len() == 0,
                    decreases chars@.len() - k,
                {
                    assert(chars@.take(k + 1).drop_last() == chars@.take(k as int));
                    assert(chars@.take(k + 1).last() == chars@[k as int]);
                    if !is_control(chars[k]) {
                        proof {
                            lemma_printable_concat(chars@.take(k + 1), chars@.skip(k + 1));
                            assert(chars@.take(k + 1) + chars@.skip(k + 1) == t@);
                        }
                        return false;
                    }
                    k = k + 1;
                }
                assert(chars@.take(chars@.len() as int) == t@);
                true
            },
            _ => true,
        }
    }

    /// Handles one key press; `ctrl` tells whether a control key is held.
    /// Returns the command that the key submitted, if any.
    pub fn apply_key(&mut self, key: &Key, ctrl: bool) -> (submitted: Option<String>)
        requires
            key_safe(old(self).state(), key@, ctrl),
        ensures
            old(self).wf() ==> final(self).wf(),
            final(self).state() == key_step(old(self).state(), key@, ctrl).0,
            match submitted {
                Some(c) => key_step(old(self).state(), key@, ctrl).1 == Some(c@),
                None => key_step(old(self).state(), key@, ctrl).1 is None,
            },
    {
        let ghost s = self.state();
        if ctrl {
            if let Key::Character(t) = key {
                let tc = chars_of(t.as_str());
                if tc.len() == 1 && (tc[0] as u32 == 0x63 || tc[0] as u32 == 0x43) {
                    self.buffer.clear();
                    self.cursor_pos = 0;
                    return None;
                }
                if tc.len() == 1 && (tc[0] as u32 == 0x75 || tc[0] as u32 == 0x55) {
                    let at = self.cursor_pos;
                    let rest = self.buffer.split_off(at);
                    self.buffer = rest;
                    self.cursor_pos = 0;
                    return None;
                }
                proof {
                    lemma_not_letter_keys(key@, tc@);
                }
            }
        }
        match key {
            Key::Enter => {
                let cmd_chars = trim_chars(&self.buffer);
                self.buffer.clear();
                self.cursor_pos = 0;
                if cmd_chars.len() > 0 {
                    let cmd = string_of(cmd_chars.as_slice());
                    let ghost h0 = self.history@;
                    self.history.push(cmd.clone());
                    assert(self.history@.map_values(|x: String| x@) == h0.map_values(
                        |x: String| x@,
                    ).push(cmd@));
                    self.history_index = self.history.len();
                    Some(cmd)
                } else {
                    None
                }
            },
            Key::Backspace => {
                if self.cursor_pos > 0 {
                    self.cursor_pos = self.cursor_pos - 1;
                    let at = self.cursor_pos;
                    self.buffer.remove(at);
                }
                None
            },
            Key::Delete => {
                if self.cursor_pos < self.buffer.len() {
                    let at = self.cursor_pos;
                    self.buffer.remove(at);
                }
                None
            },
            Key::ArrowLeft => {
                if self.cursor_pos > 0 {
                    self.cursor_pos = self.cursor_pos - 1;
                }
                None
            },
            Key::ArrowRight => {
                if self.cursor_pos < self.buffer.len() {
                    self.cursor_pos = self.cursor_pos + 1;
                }
                None
            },
            Key::Home => {
                self.cursor_pos = 0;
                None
            },
            Key::End => {
                self.cursor_pos = self.buffer.len();
                None
            },
            Key::ArrowUp => {
                if self.history_index > 0 {
                    let i = self.history_index - 1;
                    self.recall_entry(i);
                }
                None
            },
            Key::ArrowDown => {
                let n = self.history.len();
                if n > 0 && self.history_index < n - 1 {
                    let i = self.history_index + 1;
                    self.recall_entry(i);
                } else if self.history_index < n {
                    self.history_index = n;
                    self.buffer.clear();
                    self.cursor_pos = 0;
                }
                None
            },
            Key::Space => {
                let at = self.cursor_pos;
                self.buffer.insert(at, ' ');
                // The longer line still has a length that fits in `usize`.
                assert(self.buffer@.len() == self.buffer.len());
                self.cursor_pos = at + 1;
                None
            },
            Key::Character(t) => {
                self.insert_printable(t.as_str());
                assert(!(ctrl && is_letter_key(key@, 'c')) && !(ctrl && is_letter_key(key@, 'u')));
                None
            },
            Key::Other => None,
        }
    }

    /// The display of the input line: `"> "` and the text before the
    /// cursor; the character under the cursor, or a space at the end of the
    /// line; and the text after the cursor.
    pub fn display_segments(&self) -> (r: InputSegments)
        requires
            self.cursor_pos <= self.buffer@.len(),
        ensures
            r.left@ == seq!['>', ' '] + self.buffer@.take(self.cursor_pos as int),
            self.cursor_pos < self.buffer@.len() ==> r.cursor_char@ == seq![
                self.buffer@[self.cursor_pos as int],
            ] && r.right@ == self.buffer@.skip(self.cursor_pos + 1),
            self.cursor_pos >= self.buffer@.len() ==> r.cursor_char@ == seq![' ']
                && r.right@ == Seq::<char>::empty(),
    {
        let mut left = String::new();
        push_char(&mut left, '>');
        push_char(&mut left, ' ');
        let mut i: usize = 0;
        while i < self.cursor_pos
            invariant
                self.cursor_pos <= self.buffer@.len(),
                i <= self.cursor_pos,
                left@ == seq!['>', ' '] + self.buffer@.take(i as int),
            decreases self.cursor_pos - i,
        {
            push_char(&mut left, self.buffer[i]);
            assert(self.buffer@.take(i + 1) == self.buffer@.take(i as int).push(
                self.buffer@[i as int],
            ));
            i = i + 1;
        }
        let len = self.buffer.len();
        if self.cursor_pos < len {
            let mut cursor_char = String::new();
            push_char(&mut cursor_char, self.buffer[self.cursor_pos]);
            let right = string_of(&self.buffer.as_slice()[self.cursor_pos + 1..len]);
            InputSegments { left, cursor_char, right }
        } else {
            let mut cursor_char = String::new();
            push_char(&mut cursor_char, ' ');
            InputSegments { left, cursor_char, right: String::new() }
        }
    }
}

/// Handles the keyboard events of one frame, in order: each pressed key
/// edits the input line, and each command it submits joins the queue.
/// `ctrl_pressed` tells whether a control key is held during the frame.
pub fn handle_typing(
    input: &mut TerminalInput,
    queue: &mut CommandQueue,
    events: &Vec<KeyEvent>,
    ctrl_pressed: bool,
)
    requires
        keys_safe(old(input).state(), events@, ctrl_pressed),
    ensures
        old(input).wf() ==> final(input).wf(),
        final(input).state() == key_steps(old(input).state(), events@, ctrl_pressed).0,
        final(queue).pending_view() == old(queue).pending_view() + key_steps(
            old(input).state(),
            events@,
            ctrl_pressed,
        ).1,
{
    let ghost s0 = input.state();
    let ghost q0 = queue.pending_view();
    let mut i: usize = 0;
    assert(events@.take(0) == Seq::<KeyEvent>::empty());
    assert(q0 + Seq::<Seq<char>>::empty() == q0);
    while i < events.len()
        invariant
            i <= events@.len(),
            keys_safe(s0, events@, ctrl_pressed),
            input_wf(s0) ==> input.wf(),
            input.state() == key_steps(s0, events@.take(i as int), ctrl_pressed).0,
            queue.pending_view() == q0 + key_steps(s0, events@.take(i as int), ctrl_pressed).1,
        decreases events@.len() - i,
    {
        let ev = &events[i];
        assert(events@.take(i + 1).drop_last() == events@.take(i as int));
        assert(events@.take(i + 1).last() == *ev);
        proof {
            lemma_keys_safe_prefix(s0, events@, ctrl_pressed, i + 1);
        }
        if ev.pressed {
            let submitted = input.apply_key(&ev.key, ctrl_pressed);
            if let Some(cmd) = submitted {
                let ghost p0 = queue.pending@;
                queue.pending.push(cmd);
                assert(queue.pending_view() == p0.map_values(|s: String| s@).push(cmd@)) by {
                    assert(queue.pending@ == p0.push(cmd));
                }
                assert(q0 + key_steps(s0, events@.take(i as int), ctrl_pressed).1.push(cmd@)
                    == (q0 + key_steps(s0, events@.take(i as int), ctrl_pressed).1).push(cmd@));
            }
        }
        i = i + 1;
    }
    assert(events@.take(events@.len() as int) == events@);
}

/// From a well-formed input line, any events can be handled.
pub proof fn lemma_wf_typing_safe(s: InputState, events: Seq<KeyEvent>, ctrl: bool)
    requires
        input_wf(s),
    ensures
        keys_safe(s, events, ctrl),
        input_wf(key_steps(s, events, ctrl).0),
    decreases events.len(),
{
    if events.len() > 0 {
        lemma_wf_typing_safe(s, events.drop_last(), ctrl);
        crate::laws::law_keys_keep_input_wf(
            key_steps(s, events.drop_last(), ctrl).0,
            events.last().key@,
            ctrl,
        );
    }
}

impl TerminalInput {
    fn duplicate(&self) -> (r: TerminalInput)
        ensures
            r.state() == self.state(),
    {
        let mut buffer: Vec<char> = Vec::new();
        let mut i: usize = 0;
        while i < self.buffer.len()
            invariant
                i <= self.buffer@.len(),
                buffer@ == self.buffer@.take(i as int),
            decreases self.buffer@.len() - i,
        {
            buffer.push(self.buffer[i]);
            assert(self.buffer@.take(i + 1) == self.buffer@.take(i as int).push(
                self.buffer@[i as int],
            ));
            i = i + 1;
        }
        let mut history: Vec<String> = Vec::new();
        let mut j: usize = 0;
        while j < self.history.len()
            invariant
                j <= self.history@.len(),
                history@ == self.history@.take(j as int),
            decreases self.history@.len() - j,
        {
            history.push(self.history[j].clone());
            assert(self.history@.take(j + 1) == self.history@.take(j as int).push(
                self.history@[j as int],
            ));
            j = j + 1;
        }
        assert(self.buffer@.take(self.buffer@.len() as int) == self.buffer@);
        assert(self.history@.take(self.history@.len() as int) == self.history@);
        TerminalInput {
            buffer,
            cursor_pos: self.cursor_pos,
            history,
            history_index: self.history_index,
        }
    }

    /// Whether the events of a frame can be handled from the current state.
    pub fn typing_is_safe(&self, events: &Vec<KeyEvent>, ctrl_pressed: bool) -> (r: bool)
        ensures
            r == keys_safe(self.state(), events@, ctrl_pressed),
    {
        let ghost s0 = self.state();
        let mut probe = self.duplicate();
        let mut i: usize = 0;
        assert(events@.take(0) == Seq::<KeyEvent>::empty());
        while i < events.len()
            invariant
                i <= events@.len(),
                s0 == self.state(),
                keys_safe(s0, events@.take(i as int), ctrl_pressed),
                probe.state() == key_steps(s0, events@.take(i as int), ctrl_pressed).0,
            decreases events@.len() - i,
        {
            let ev = &events[i];
            assert(events@.take(i + 1).drop_last() == events@.take(i as int));
            assert(events@.take(i + 1).last() == *ev);
            if ev.pressed {
                if !probe.key_is_safe(&ev.key, ctrl_pressed) {
                    proof {
                        if keys_safe(s0, events@, ctrl_pressed) {
                            lemma_keys_safe_prefix(s0, events@, ctrl_pressed, i + 1);
                        }
                    }
                    return false;
                }
                let _ = probe.apply_key(&ev.key, ctrl_pressed);
            }
            i = i + 1;
        }
        assert(events@.take(events@.len() as int) == events@);
        true
    }
}

} // verus!
