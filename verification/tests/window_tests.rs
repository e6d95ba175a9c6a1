use flock::window::{retitle, PointerFrame, SizeChange, WindowControl};

fn frame(pressed: bool, released: bool, min: bool, title: bool) -> PointerFrame {
    PointerFrame { just_pressed: pressed, just_released: released, on_minimize_button: min, on_title_bar: title }
}

#[test]
fn minimize_button_toggles_size() {
    let mut w = WindowControl { is_dragging: false, is_minimized: false };
    assert_eq!(w.handle_pointer(frame(true, false, true, true)), SizeChange::Minimized);
    assert!(w.is_minimized);
    assert!(!w.is_dragging);
    assert_eq!(w.handle_pointer(frame(true, false, true, true)), SizeChange::Restored);
    assert!(!w.is_minimized);
}

#[test]
fn title_bar_drag_starts_and_ends() {
    let mut w = WindowControl { is_dragging: false, is_minimized: false };
    assert_eq!(w.handle_pointer(frame(true, false, false, true)), SizeChange::Unchanged);
    assert!(w.is_dragging);
    w.handle_pointer(frame(false, false, false, false));
    assert!(w.is_dragging);
    w.handle_pointer(frame(false, true, false, false));
    assert!(!w.is_dragging);
    w.handle_pointer(frame(true, false, false, false));
    assert!(!w.is_dragging);
}

#[test]
fn title_marker_follows_size() {
    let t = retitle("[-] FLOCK TERM v0.1.0", SizeChange::Minimized);
    assert_eq!(t, "[+] FLOCK TERM v0.1.0");
    assert_eq!(retitle(&t, SizeChange::Restored), "[-] FLOCK TERM v0.1.0");
    assert_eq!(retitle("[-] a [-]", SizeChange::Minimized), "[+] a [+]");
    assert_eq!(retitle("x [-]", SizeChange::Minimized), "x [-]");
    assert_eq!(retitle("[-]-]", SizeChange::Minimized), "[-]-]".replace("[-]", "[+]"));
    assert_eq!(retitle("[-] t", SizeChange::Unchanged), "[-] t");
}
