use avatar_plugin::input::{
    is_keyboard, key_events_from_raw, InputCapture, InputCaptureError, InputEvent, InputState, Platform,
    RawInputEvent, UnsupportedInputCapture, WindowsInputCapture, X11InputCapture, EV_KEY,
};

fn key(code: u16, value: i32) -> RawInputEvent {
    RawInputEvent { event_type: EV_KEY, code, value }
}

#[test]
fn repeats_are_not_reported() {
    let raw = vec![key(30, 1), key(30, 2), key(30, 2), key(30, 0), RawInputEvent { event_type: 2, code: 0, value: 1 }];
    assert_eq!(key_events_from_raw(&raw), vec![InputEvent::KeyPress(30), InputEvent::KeyRelease(30)]);
    assert!(key_events_from_raw(&vec![key(57, 2)]).is_empty());
}

#[test]
fn empty_poll_stays_empty() {
    let mut capture = InputCapture::new(Platform::Evdev).unwrap();
    for _ in 0..3 {
        assert!(capture.poll(&vec![]).is_empty());
    }
    assert_eq!(capture.poll(&vec![key(28, 1)]), vec![InputEvent::KeyPress(28)]);
}

#[test]
fn platforms_without_backend() {
    assert!(matches!(InputCapture::new(Platform::Unsupported), Err(InputCaptureError::UnsupportedPlatform)));
    assert!(matches!(UnsupportedInputCapture::new(), Err(InputCaptureError::UnsupportedPlatform)));
    let mut w = WindowsInputCapture::new().unwrap();
    assert!(w.poll().is_empty());
    let mut x = X11InputCapture::new().unwrap();
    assert!(x.poll().is_empty());
    let mut c = InputCapture::new(Platform::X11).unwrap();
    assert!(c.poll(&vec![key(30, 1)]).is_empty());
}

#[test]
fn keyboard_needs_a_z_and_enter() {
    assert!(is_keyboard(&vec![1, 28, 30, 44]));
    assert!(!is_keyboard(&vec![28, 30]));
    assert!(!is_keyboard(&vec![]));
}

#[test]
fn input_state_tracks_held_keys() {
    let mut s = InputState::new();
    s.apply_all(&vec![
        InputEvent::KeyPress(30),
        InputEvent::KeyPress(31),
        InputEvent::KeyPress(30),
        InputEvent::MouseMove(1, 2),
        InputEvent::KeyRelease(30),
    ]);
    assert_eq!(s.pressed(), &vec![31]);
    for i in 0..20 {
        s.apply(InputEvent::KeyPress(100 + i));
    }
    assert_eq!(s.recent().len(), 10);
    assert_eq!(s.recent()[9], InputEvent::KeyPress(119));
    assert_eq!(s.pressed().len(), 21);
}
