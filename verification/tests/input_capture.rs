use avatarplugin::input_capture::{
    is_event_device, is_keyboard, key_event, key_events, InputCapture, InputCaptureError, InputEvent, Platform,
    RawInputEvent, UnsupportedInputCapture, WindowsInputCapture, X11InputCapture,
};

#[test]
fn capture_without_backend_is_unsupported() {
    assert!(matches!(InputCapture::new(), Err(InputCaptureError::UnsupportedPlatform)));
    assert!(matches!(UnsupportedInputCapture::new(), Err(InputCaptureError::UnsupportedPlatform)));
    assert!(matches!(
        InputCapture::for_platform(Platform::Unsupported),
        Err(InputCaptureError::UnsupportedPlatform)
    ));
}

#[test]
fn windows_and_x11_backends_poll_nothing() {
    let mut c = InputCapture::for_platform(Platform::Windows).unwrap();
    assert!(c.poll().is_empty());
    let mut c = InputCapture::for_platform(Platform::X11).unwrap();
    assert!(c.poll().is_empty());
    assert!(WindowsInputCapture::new().unwrap().poll().is_empty());
    assert!(X11InputCapture::new().unwrap().poll().is_empty());
}

#[test]
fn raw_key_events_become_presses_and_releases() {
    let raw = vec![
        RawInputEvent { event_type: 1, code: 30, value: 1 },
        RawInputEvent { event_type: 1, code: 30, value: 2 },
        RawInputEvent { event_type: 0, code: 0, value: 0 },
        RawInputEvent { event_type: 1, code: 30, value: 0 },
        RawInputEvent { event_type: 2, code: 0, value: 1 },
        RawInputEvent { event_type: 1, code: 28, value: 1 },
    ];
    assert_eq!(
        key_events(&raw),
        vec![InputEvent::KeyPress(30), InputEvent::KeyRelease(30), InputEvent::KeyPress(28)]
    );
    assert_eq!(key_event(RawInputEvent { event_type: 1, code: 65535, value: 0 }), Some(InputEvent::KeyRelease(65535)));
    assert_eq!(key_event(RawInputEvent { event_type: 1, code: 5, value: -1 }), None);
}

#[test]
fn keyboards_have_a_z_and_enter() {
    assert!(is_keyboard(Some(&vec![1, 28, 30, 44, 57])));
    assert!(!is_keyboard(Some(&vec![28, 30])));
    assert!(!is_keyboard(Some(&vec![])));
    assert!(!is_keyboard(None));
}

#[test]
fn event_devices_are_named_event() {
    assert!(is_event_device("event0"));
    assert!(is_event_device("event"));
    assert!(!is_event_device("mouse0"));
    assert!(!is_event_device("even"));
    assert!(!is_event_device("by-id"));
}

#[test]
fn capture_error_messages() {
    assert_eq!(
        InputCaptureError::InitError("no dir".to_string()).message(),
        "Failed to initialize input capture: no dir"
    );
    assert_eq!(InputCaptureError::PollError("x".to_string()).message(), "Failed to poll events: x");
    assert_eq!(InputCaptureError::UnsupportedPlatform.message(), "Platform not supported");
}
