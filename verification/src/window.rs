//! The terminal window: whether it is minimized, whether it is being
//! dragged, and the marker in its title that shows which.
use vstd::prelude::*;

use crate::text::{chars_of, string_of};

verus! {

/// What the window is doing.
#[derive(Debug, Clone, Copy, PartialEq, Eq, Structural)]
pub struct WindowControl {
    pub is_dragging: bool,
    pub is_minimized: bool,
}

/// What the left mouse button did in one frame, and where the pointer was:
/// on the minimize button, or on the title bar.
#[derive(Debug, Clone, Copy, PartialEq, Eq, Structural)]
pub struct PointerFrame {
    pub just_pressed: bool,
    pub just_released: bool,
    pub on_minimize_button: bool,
    pub on_title_bar: bool,
}

/// How the window changed its size in a frame.
#[derive(Debug, Clone, Copy, PartialEq, Eq, Structural)]
pub enum SizeChange {
    Minimized,
    Restored,
    Unchanged,
}

/// What a frame of mouse input does to the window: a press on the minimize
/// button minimizes or restores it; a press elsewhere on the title bar
/// starts a drag; a release ends any drag. Also the size change.
pub open spec fn window_step(w: WindowControl, f: PointerFrame) -> (WindowControl, SizeChange) {
    let (after_press, change) = if f.just_pressed && f.on_minimize_button {
        (
            WindowControl { is_minimized: !w.is_minimized, ..w },
            if !w.is_minimized {
                SizeChange::Minimized
            } else {
                SizeChange::Restored
            },
        )
    } else if f.just_pressed && f.on_title_bar {
        (WindowControl { is_dragging: true, ..w }, SizeChange::Unchanged)
    } else {
        (w, SizeChange::Unchanged)
    };
    if f.just_released {
        (WindowControl { is_dragging: false, ..after_press }, change)
    } else {
        (after_press, change)
    }
}

impl WindowControl {
    /// Handles a frame of mouse input and returns how the window's size
    /// changed. The window follows the pointer afterwards while it is
    /// being dragged.
    pub fn handle_pointer(&mut self, f: PointerFrame) -> (change: SizeChange)
        ensures
            (*final(self), change) == window_step(*old(self), f),
    {
        let mut change = SizeChange::Unchanged;
        if f.just_pressed {
            if f.on_minimize_button {
                self.is_minimized = !self.is_minimized;
                change = if self.is_minimized {
                    SizeChange::Minimized
                } else {
                    SizeChange::Restored
                };
            } else if f.on_title_bar {
                self.is_dragging = true;
            }
        }
        if f.just_released {
            self.is_dragging = false;
        }
        change
    }
}

/// Whether `s` has `p` at index `i`.
pub open spec fn occurs_at_spec(s: Seq<char>, p: Seq<char>, i: int) -> bool {
    0 <= i && i + p.len() <= s.len() && s.subrange(i, i + p.len()) == p
}

/// The text with every occurrence of `from` replaced by `to`, matching from
/// the left without overlaps, as `str::replace` does; `from` is not empty.
pub open spec fn replace_all(s: Seq<char>, from: Seq<char>, to: Seq<char>) -> Seq<char>
    decreases s.len(),
{
    if s.len() == 0 || from.len() == 0 {
        s
    } else if occurs_at_spec(s, from, 0) {
        to + replace_all(s.skip(from.len() as int), from, to)
    } else {
        seq![s[0]] + replace_all(s.drop_first(), from, to)
    }
}

/// The marker of a minimized window.
pub open spec fn minimized_marker() -> Seq<char> {
    seq!['[', '+', ']']
}

/// The marker of a window at full size.
pub open spec fn restored_marker() -> Seq<char> {
    seq!['[', '-', ']']
}

/// The title after the window changed its size: a title that starts with
/// the old marker has every old marker replaced by the new one; any other
/// title stays as it is.
pub open spec fn retitled(title: Seq<char>, change: SizeChange) -> Seq<char> {
    match change {
        SizeChange::Minimized => if occurs_at_spec(title, restored_marker(), 0) {
            replace_all(title, restored_marker(), minimized_marker())
        } else {
            title
        },
        SizeChange::Restored => if occurs_at_spec(title, minimized_marker(), 0) {
            replace_all(title, minimized_marker(), restored_marker())
        } else {
            title
        },
        SizeChange::Unchanged => title,
    }
}

fn marker_at(s: &Vec<char>, i: usize, middle: char) -> (r: bool)
    ensures
        r == occurs_at_spec(s@, seq!['[', middle, ']'], i as int),
{
    if i < s.len() && s.len() - i >= 3 {
        let r = s[i] == '[' && s[i + 1] == middle && s[i + 2] == ']';
        assert(r == (s@.subrange(i as int, i + 3) == seq!['[', middle, ']'])) by {
            if s@.subrange(i as int, i + 3) == seq!['[', middle, ']'] {
                assert(s@.subrange(i as int, i + 3)[1] == middle);
            }
            if r {
                assert(s@.subrange(i as int, i + 3) =~= seq!['[', middle, ']']);
            }
        }
        r
    } else {
        false
    }
}

proof fn lemma_replace_step(s: Seq<char>, from: Seq<char>, to: Seq<char>, i: int)
    requires
        from.len() > 0,
        0 <= i < s.len(),
    ensures
        occurs_at_spec(s, from, i) ==> replace_all(s.skip(i), from, to) == to + replace_all(
            s.skip(i + from.len()),
            from,
            to,
        ),
        !occurs_at_spec(s, from, i) ==> replace_all(s.skip(i), from, to) == seq![s[i]]
            + replace_all(s.skip(i + 1), from, to),
{
    let t = s.skip(i);
    if occurs_at_spec(s, from, i) {
        assert(t.subrange(0, from.len() as int) == s.subrange(i, i + from.len()));
        assert(t.skip(from.len() as int) == s.skip(i + from.len()));
    } else {
        if i + from.len() <= s.len() {
            assert(t.subrange(0, from.len() as int) == s.subrange(i, i + from.len()));
        }
        assert(t.drop_first() == s.skip(i + 1));
    }
}

/// Replaces every `[m]` of the old marker by the new marker.
fn replace_marker(s: &Vec<char>, old_middle: char, new_middle: char) -> (r: Vec<char>)
    ensures
        r@ == replace_all(s@, seq!['[', old_middle, ']'], seq!['[', new_middle, ']']),
{
    let ghost from = seq!['[', old_middle, ']'];
    let ghost to = seq!['[', new_middle, ']'];
    let mut out: Vec<char> = Vec::new();
    let mut i: usize = 0;
    assert(s@.skip(0) == s@);
    while i < s.len()
        invariant
            i <= s@.len(),
            from == seq!['[', old_middle, ']'],
            to == seq!['[', new_middle, ']'],
            replace_all(s@, from, to) == out@ + replace_all(s@.skip(i as int), from, to),
        decreases s@.len() - i,
    {
        proof {
            lemma_replace_step(s@, from, to, i as int);
        }
        let ghost before = out@;
        if marker_at(s, i, old_middle) {
            out.push('[');
            out.push(new_middle);
            out.push(']');
            assert(out@ =~= before + to);
            assert(before + (to + replace_all(s@.skip(i + 3), from, to)) =~= out@ + replace_all(
                s@.skip(i + 3),
                from,
                to,
            ));
            i = i + 3;
        } else {
            out.push(s[i]);
            assert(before + (seq![s@[i as int]] + replace_all(s@.skip(i + 1), from, to))
                =~= out@ + replace_all(s@.skip(i + 1), from, to));
            i = i + 1;
        }
    }
    assert(s@.skip(s@.len() as int) == Seq::<char>::empty());
    out
}

/// The title text of the window after its size changed.
pub fn retitle(title: &str, change: SizeChange) -> (r: String)
    ensures
        r@ == retitled(title@, change),
{
    let t = chars_of(title);
    match change {
        SizeChange::Minimized => {
            if marker_at(&t, 0, '-') {
                string_of(replace_marker(&t, '-', '+').as_slice())
            } else {
                string_of(t.as_slice())
            }
        },
        SizeChange::Restored => {
            if marker_at(&t, 0, '+') {
                string_of(replace_marker(&t, '+', '-').as_slice())
            } else {
                string_of(t.as_slice())
            }
        },
        SizeChange::Unchanged => string_of(t.as_slice()),
    }
}

} // verus!
