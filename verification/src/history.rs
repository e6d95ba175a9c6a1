//! The scroll-back of the terminal: the lines printed so far, how far the
//! view is scrolled back, and the text that the view shows.
use vstd::prelude::*;
use vstd::string::*;

use crate::text::{chars_of, push_char, string_of};

verus! {

/// How many lines the terminal shows at once.
pub const VISIBLE_LINES: usize = 17;

/// How many lines the terminal keeps; older ones are dropped.
pub const MAX_HISTORY: usize = 1000;

/// The lines printed to the terminal, oldest first, and how many lines the
/// view is scrolled back from the newest.
pub struct TerminalHistory {
    pub lines: Vec<String>,
    pub scroll: usize,
}

/// A movement of the mouse wheel.
#[derive(Debug, Clone, Copy, PartialEq, Eq, Structural)]
pub enum ScrollDirection {
    /// The wheel turned away from the user: the view moves back to older lines.
    Up,
    /// The wheel turned toward the user: the view moves on to newer lines.
    Down,
    /// The wheel did not turn vertically.
    Still,
}

/// A line without the carriage return that ends it, if one does.
pub open spec fn strip_cr(l: Seq<char>) -> Seq<char> {
    if l.len() > 0 && l.last() == '\r' {
        l.drop_last()
    } else {
        l
    }
}

/// A left-to-right scan of a text for lines: the lines completed so far,
/// and the line in progress.
pub open spec fn line_scan(s: Seq<char>) -> (Seq<Seq<char>>, Seq<char>)
    decreases s.len(),
{
    if s.len() == 0 {
        (Seq::empty(), Seq::empty())
    } else {
        let prev = line_scan(s.drop_last());
        if s.last() == '\n' {
            (prev.0.push(strip_cr(prev.1)), Seq::empty())
        } else {
            (prev.0, prev.1.push(s.last()))
        }
    }
}

/// The lines of a text, as `str::lines` yields them: the text is cut after
/// each line feed, a line feed and a carriage return just before it end the
/// line they follow, and a last line is only there if it holds a character.
pub open spec fn text_lines(s: Seq<char>) -> Seq<Seq<char>> {
    let st = line_scan(s);
    if st.1.len() > 0 {
        st.0.push(st.1)
    } else {
        st.0
    }
}

/// The lines of all messages, in order.
pub open spec fn message_lines(msgs: Seq<Seq<char>>) -> Seq<Seq<char>>
    decreases msgs.len(),
{
    if msgs.len() == 0 {
        Seq::empty()
    } else {
        message_lines(msgs.drop_last()) + text_lines(msgs.last())
    }
}

/// The last `max` lines of `ls`, or all of them where there are fewer.
pub open spec fn keep_last(ls: Seq<Seq<char>>, max: nat) -> Seq<Seq<char>> {
    if ls.len() > max {
        ls.skip(ls.len() - max)
    } else {
        ls
    }
}

/// `a - b`, or zero where `b` is the larger.
pub open spec fn sat_sub(a: int, b: int) -> nat {
    if a > b {
        (a - b) as nat
    } else {
        0
    }
}

/// The lines joined, each followed by a line feed.
pub open spec fn join_lines(ls: Seq<Seq<char>>) -> Seq<char>
    decreases ls.len(),
{
    if ls.len() == 0 {
        Seq::empty()
    } else {
        join_lines(ls.drop_last()) + ls.last().push('\n')
    }
}

/// The index just past the last line shown.
pub open spec fn view_end(len: nat, scroll: nat) -> nat {
    sat_sub(len as int, scroll as int)
}

/// The index of the first line shown.
pub open spec fn view_start(len: nat, scroll: nat) -> nat {
    sat_sub(view_end(len, scroll) as int, VISIBLE_LINES as int)
}

/// The text that the terminal shows: at most [`VISIBLE_LINES`] lines,
/// ending `scroll` lines before the newest.
pub open spec fn rendered(ls: Seq<Seq<char>>, scroll: nat) -> Seq<char> {
    join_lines(ls.subrange(view_start(ls.len(), scroll) as int, view_end(ls.len(), scroll) as int))
}

/// The largest useful scroll-back for `len` lines.
pub open spec fn max_scroll(len: nat) -> nat {
    sat_sub(len as int, VISIBLE_LINES as int)
}

/// Where a sequence of wheel movements leaves the scroll-back, for a
/// history of `len` lines: up moves one line back but not past
/// [`max_scroll`], down moves one line on but not past the newest.
pub open spec fn scroll_steps(scroll: nat, len: nat, dirs: Seq<ScrollDirection>) -> nat
    decreases dirs.len(),
{
    if dirs.len() == 0 {
        scroll
    } else {
        let prev = scroll_steps(scroll, len, dirs.drop_last());
        match dirs.last() {
            ScrollDirection::Up => if prev + 1 < max_scroll(len) {
                prev + 1
            } else {
                max_scroll(len)
            },
            ScrollDirection::Down => sat_sub(prev as int, 1),
            ScrollDirection::Still => prev,
        }
    }
}

/// Whether any of the movements turns the wheel.
pub open spec fn any_turn(dirs: Seq<ScrollDirection>) -> bool {
    exists|i: int| 0 <= i < dirs.len() && #[trigger] dirs[i] != ScrollDirection::Still
}

impl Default for TerminalHistory {
    /// The history of a new terminal: one line that points to `help`.
    fn default() -> (h: TerminalHistory)
        ensures
            h.lines@.map_values(|s: String| s@) == seq!["Type 'help' for commands."@],
            h.scroll == 0,
            h.lines@.len() <= MAX_HISTORY,
    {
        let mut lines: Vec<String> = Vec::new();
        lines.push(String::from_str("Type 'help' for commands."));
        let h = TerminalHistory { lines, scroll: 0 };
        assert(h.lines@.map_values(|s: String| s@) == seq!["Type 'help' for commands."@]);
        h
    }
}

impl TerminalHistory {
    /// The printed lines, oldest first.
    pub open spec fn lines_view(&self) -> Seq<Seq<char>> {
        self.lines@.map_values(|s: String| s@)
    }

    /// A well-formed history: it holds at most [`MAX_HISTORY`] lines and is
    /// scrolled back no further than it can be.
    pub open spec fn wf(&self) -> bool {
        &&& self.lines@.len() <= MAX_HISTORY
        &&& self.scroll <= max_scroll(self.lines@.len())
    }

    fn push_line(&mut self, l: &Vec<char>)
        ensures
            final(self).lines_view() == old(self).lines_view().push(l@),
            final(self).scroll == old(self).scroll,
    {
        let ghost before = self.lines@;
        let s = string_of(l.as_slice());
        self.lines.push(s);
        assert(self.lines@ == before.push(s));
    }

    fn push_text_lines(&mut self, msg: &String)
        ensures
            final(self).lines_view() == old(self).lines_view() + text_lines(msg@),
            final(self).scroll == old(self).scroll,
    {
        let chars = chars_of(msg.as_str());
        let ghost base = self.lines_view();
        let mut cur: Vec<char> = Vec::new();
        let mut k: usize = 0;
        assert(chars@.take(0) == Seq::<char>::empty());
        assert(base + Seq::<Seq<char>>::empty() == base);
        while k < chars.len()
            invariant
                chars@ == msg@,
                k <= chars@.len(),
                self.lines_view() == base + line_scan(chars@.take(k as int)).0,
                cur@ == line_scan(chars@.take(k as int)).1,
                self.scroll == old(self).scroll,
            decreases chars@.len() - k,
        {
            let c = chars[k];
            let ghost prev = line_scan(chars@.take(k as int));
            assert(chars@.take(k + 1).drop_last() == chars@.take(k as int));
            assert(chars@.take(k + 1).last() == c);
            if c == '\n' {
                let n = cur.len();
                let line = if n > 0 && cur[n - 1] == '\r' {
                    let mut t = cur;
                    t.pop();
                    t
                } else {
                    cur
                };
                assert(line@ == strip_cr(prev.1));
                self.push_line(&line);
                assert(base + prev.0.push(strip_cr(prev.1)) == (base + prev.0).push(
                    strip_cr(prev.1),
                ));
                cur = Vec::new();
            } else {
                cur.push(c);
            }
            k = k + 1;
        }
        assert(chars@.take(chars@.len() as int) == chars@);
        if cur.len() > 0 {
            let ghost prev = line_scan(chars@);
            self.push_line(&cur);
            assert(base + prev.0.push(prev.1) == (base + prev.0).push(prev.1));
        }
    }

    /// The text that the terminal shows for this history.
    pub fn rebuild_terminal(&self) -> (text: String)
        ensures
            text@ == rendered(self.lines_view(), self.scroll as nat),
    {
        let len = self.lines.len();
        let end = len.saturating_sub(self.scroll);
        let start = end.saturating_sub(VISIBLE_LINES);
        let ghost lv = self.lines_view();
        let mut text = String::new();
        let mut i = start;
        assert(lv.subrange(start as int, start as int) == Seq::<Seq<char>>::empty());
        while i < end
            invariant
                start <= i <= end <= len == self.lines@.len(),
                lv == self.lines_view(),
                text@ == join_lines(lv.subrange(start as int, i as int)),
            decreases end - i,
        {
            let ghost prev = text@;
            text.append(self.lines[i].as_str());
            push_char(&mut text, '\n');
            assert(lv.subrange(start as int, i + 1).drop_last() == lv.subrange(
                start as int,
                i as int,
            ));
            assert(lv.subrange(start as int, i + 1).last() == lv[i as int]);
            assert(lv[i as int] == self.lines@[i as int]@);
            assert(text@ == prev + lv[i as int].push('\n'));
            i = i + 1;
        }
        text
    }

    /// Prints the messages to the terminal: each line of each message joins
    /// the history, which keeps only its newest [`MAX_HISTORY`] lines. When a
    /// line was added the view returns to the newest lines and the new text of
    /// the view is returned; otherwise nothing is.
    pub fn update_terminal_history(&mut self, messages: &Vec<String>) -> (text: Option<String>)
        ensures
            old(self).wf() ==> final(self).wf(),
            final(self).lines@.len() <= MAX_HISTORY,
            final(self).lines_view() == keep_last(
                old(self).lines_view() + message_lines(messages@.map_values(|s: String| s@)),
                MAX_HISTORY as nat,
            ),
            message_lines(messages@.map_values(|s: String| s@)).len() > 0 ==> final(self).scroll
                == 0 && (text matches Some(t) && t@ == rendered(final(self).lines_view(), 0)),
            message_lines(messages@.map_values(|s: String| s@)).len() == 0 ==> final(self).scroll
                == old(self).scroll && text is None,
    {
        let ghost base = self.lines_view();
        let ghost msgs = messages@.map_values(|s: String| s@);
        let base_len = self.lines.len();
        let mut i: usize = 0;
        assert(msgs.take(0) == Seq::<Seq<char>>::empty());
        assert(base + Seq::<Seq<char>>::empty() == base);
        while i < messages.len()
            invariant
                i <= messages@.len(),
                msgs == messages@.map_values(|s: String| s@),
                self.lines_view() == base + message_lines(msgs.take(i as int)),
                self.scroll == old(self).scroll,
            decreases messages@.len() - i,
        {
            self.push_text_lines(&messages[i]);
            assert(msgs.take(i + 1).drop_last() == msgs.take(i as int));
            assert(msgs.take(i + 1).last() == messages@[i as int]@);
            i = i + 1;
        }
        assert(msgs.take(messages@.len() as int) == msgs);
        let changed = self.lines.len() > base_len;
        assert(changed == (message_lines(msgs).len() > 0)) by {
            assert(self.lines_view().len() == self.lines@.len());
        }
        if changed {
            self.scroll = 0;
        }
        if self.lines.len() > MAX_HISTORY {
            let excess = self.lines.len() - MAX_HISTORY;
            let ghost all = self.lines@;
            let kept = self.lines.split_off(excess);
            self.lines = kept;
            assert(self.lines_view() == (base + message_lines(msgs)).skip(excess as int)) by {
                assert(self.lines@ == all.skip(excess as int));
            }
        }
        if changed {
            Some(self.rebuild_terminal())
        } else {
            None
        }
    }

    /// Turns the view by the wheel movements of one frame, in order. When
    /// the wheel turned, the new text of the view is returned; otherwise
    /// nothing is.
    pub fn terminal_scroll(&mut self, wheel: &Vec<ScrollDirection>) -> (text: Option<String>)
        requires
            old(self).scroll < usize::MAX,
        ensures
            final(self).lines == old(self).lines,
            final(self).scroll == scroll_steps(
                old(self).scroll as nat,
                old(self).lines@.len(),
                wheel@,
            ),
            any_turn(wheel@) ==> (text matches Some(t) && t@ == rendered(
                final(self).lines_view(),
                final(self).scroll as nat,
            )),
            !any_turn(wheel@) ==> text is None,
            old(self).wf() ==> final(self).wf(),
    {
        let max = self.lines.len().saturating_sub(VISIBLE_LINES);
        let ghost s0 = self.scroll as nat;
        let ghost len = self.lines@.len();
        let mut changed = false;
        let mut i: usize = 0;
        assert(wheel@.take(0) == Seq::<ScrollDirection>::empty());
        while i < wheel.len()
            invariant
                i <= wheel@.len(),
                max == max_scroll(len),
                len == self.lines@.len(),
                self.lines == old(self).lines,
                self.scroll == scroll_steps(s0, len, wheel@.take(i as int)),
                s0 == old(self).scroll,
                s0 < usize::MAX,
                self.scroll < usize::MAX,
                len <= usize::MAX,
                changed == any_turn(wheel@.take(i as int)),
                old(self).wf() ==> self.scroll <= max,
            decreases wheel@.len() - i,
        {
            let d = wheel[i];
            assert(wheel@.take(i + 1).drop_last() == wheel@.take(i as int));
            assert(wheel@.take(i + 1).last() == d);
            match d {
                ScrollDirection::Up => {
                    let next = self.scroll + 1;
                    self.scroll = if next < max {
                        next
                    } else {
                        max
                    };
                    changed = true;
                },
                ScrollDirection::Down => {
                    self.scroll = self.scroll.saturating_sub(1);
                    changed = true;
                },
                ScrollDirection::Still => {},
            }
            assert(changed == any_turn(wheel@.take(i + 1))) by {
                if d != ScrollDirection::Still {
                    assert(wheel@.take(i + 1)[i as int] == d);
                } else if any_turn(wheel@.take(i + 1)) {
                    let j = choose|j: int|
                        0 <= j < wheel@.take(i + 1).len() && #[trigger] wheel@.take(i + 1)[j]
                            != ScrollDirection::Still;
                    assert(wheel@.take(i as int)[j] == wheel@.take(i + 1)[j]);
                }
            }
            i = i + 1;
        }
        assert(wheel@.take(wheel@.len() as int) == wheel@);
        if changed {
            Some(self.rebuild_terminal())
        } else {
            None
        }
    }
}

} // verus!
