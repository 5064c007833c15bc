use estm::clipboard_watch::ClipboardWatch;
use estm::focus_restore::{is_estm_app, PreviousFrontApp};
use estm::shell::{toggle_picker, PickerToggle};

#[test]
fn watch_starts_from_current_clipboard() {
    let mut w = ClipboardWatch::new(Some("a  b"));
    assert_eq!(w.last_fp, Some("a b".to_string()));
    assert_eq!(w.on_poll(false, Some(" a\nb ".to_string())), None);
    let empty = ClipboardWatch::new(None);
    assert_eq!(empty.last_fp, None);
}

#[test]
fn watch_records_new_texts_once() {
    let mut w = ClipboardWatch::new(None);
    assert_eq!(w.on_poll(false, Some("first".to_string())), Some("first".to_string()));
    assert_eq!(w.on_poll(false, Some("  first ".to_string())), None);
    assert_eq!(w.on_poll(false, None), None);
    assert_eq!(w.on_poll(false, Some("second".to_string())), Some("second".to_string()));
    assert_eq!(w.on_poll(false, Some("first".to_string())), Some("first".to_string()));
    assert_eq!(w.on_poll(false, Some(" \t ".to_string())), None);
    assert_eq!(w.last_fp, Some("first".to_string()));
}

#[test]
fn watch_ignores_own_writes() {
    let mut w = ClipboardWatch::new(None);
    assert_eq!(w.on_poll(true, Some("mine".to_string())), None);
    assert_eq!(w.last_fp, Some("mine".to_string()));
    assert_eq!(w.on_poll(false, Some("mine".to_string())), None);
    assert_eq!(w.on_poll(true, None), None);
    assert_eq!(w.last_fp, Some("mine".to_string()));
}

#[test]
fn front_app_capture_and_restore() {
    let mut f = PreviousFrontApp::new();
    assert_eq!(f.restore(), None);
    f.capture(Some("com.example.editor"), 42);
    f.capture(Some("fun.estm"), 7);
    f.capture(None, -1);
    assert_eq!(f.restore(), Some(42));
    assert_eq!(f.restore(), None);
    f.capture(None, 9);
    assert_eq!(f.restore(), Some(9));
}

#[test]
fn estm_bundle_is_recognized() {
    assert!(is_estm_app(Some("fun.estm")));
    assert!(!is_estm_app(Some("fun.estm.ESTM")));
    assert!(!is_estm_app(None));
}

#[test]
fn toggle_hides_unless_known_hidden() {
    assert_eq!(toggle_picker(Some(false)), PickerToggle::Show);
    assert_eq!(toggle_picker(Some(true)), PickerToggle::Hide);
    assert_eq!(toggle_picker(None), PickerToggle::Hide);
}
