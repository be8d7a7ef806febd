//! Input events and their capture: the capture backends, and the
//! conversion of raw evdev events into key events.

use vstd::prelude::*;
use crate::text::chars_of;

verus! {

/// Represents different types of input events.
#[derive(Debug, Clone, PartialEq, Eq, Structural)]
pub enum InputEvent {
    /// Key press event with key code
    KeyPress(u32),
    /// Key release event with key code
    KeyRelease(u32),
    /// Mouse move event with delta values (x, y)
    MouseMove(i32, i32),
    /// Mouse button press event with button code
    MouseButtonPress(u32),
    /// Mouse button release event with button code
    MouseButtonRelease(u32),
    /// Mouse scroll event with delta values (horizontal, vertical)
    MouseScroll(i32, i32),
}

/// Error type for input capture operations.
#[derive(Debug)]
pub enum InputCaptureError {
    InitError(String),
    PollError(String),
    UnsupportedPlatform,
}

/// The text an `InputCaptureError` displays as.
pub open spec fn capture_error_text(e: InputCaptureError) -> Seq<char> {
    match e {
        InputCaptureError::InitError(m) => "Failed to initialize input capture: "@ + m@,
        InputCaptureError::PollError(m) => "Failed to poll events: "@ + m@,
        InputCaptureError::UnsupportedPlatform => "Platform not supported"@,
    }
}

impl InputCaptureError {
    /// The message this error displays as.
    pub fn message(&self) -> (r: String)
        ensures
            r@ == capture_error_text(*self),
    {
        match self {
            InputCaptureError::InitError(m) => {
                let mut r = "Failed to initialize input capture: ".to_owned();
                r.append(m.as_str());
                r
            },
            InputCaptureError::PollError(m) => {
                let mut r = "Failed to poll events: ".to_owned();
                r.append(m.as_str());
                r
            },
            InputCaptureError::UnsupportedPlatform => "Platform not supported".to_owned(),
        }
    }
}

/// Windows capture backend (no events are captured yet).
pub struct WindowsInputCapture {}

impl WindowsInputCapture {
    pub fn new() -> (r: Result<Self, InputCaptureError>)
        ensures
            r is Ok,
    {
        Ok(Self {})
    }

    pub fn poll(&mut self) -> (r: Vec<InputEvent>)
        ensures
            r@.len() == 0,
    {
        Vec::new()
    }
}

/// X11 capture backend (no events are captured yet).
pub struct X11InputCapture {}

impl X11InputCapture {
    pub fn new() -> (r: Result<Self, InputCaptureError>)
        ensures
            r is Ok,
    {
        Ok(Self {})
    }

    pub fn poll(&mut self) -> (r: Vec<InputEvent>)
        ensures
            r@.len() == 0,
    {
        Vec::new()
    }
}

/// The backend of a platform with no input capture.
pub struct UnsupportedInputCapture;

impl UnsupportedInputCapture {
    pub fn new() -> (r: Result<Self, InputCaptureError>)
        ensures
            r == Err::<Self, InputCaptureError>(InputCaptureError::UnsupportedPlatform),
    {
        Err(InputCaptureError::UnsupportedPlatform)
    }

    pub fn poll(&mut self) -> (r: Vec<InputEvent>)
        ensures
            r@.len() == 0,
    {
        Vec::new()
    }
}

/// The platforms whose capture backend the library holds.
#[derive(Debug, Clone, Copy, PartialEq, Eq, Structural)]
pub enum Platform {
    Windows,
    X11,
    Unsupported,
}

enum Backend {
    Windows(WindowsInputCapture),
    X11(X11InputCapture),
    Unsupported(UnsupportedInputCapture),
}

/// Main struct for capturing input events.
pub struct InputCapture {
    inner: Backend,
}

impl InputCapture {
    /// The platform whose backend this capture uses.
    pub closed spec fn platform(&self) -> Platform {
        match self.inner {
            Backend::Windows(_) => Platform::Windows,
            Backend::X11(_) => Platform::X11,
            Backend::Unsupported(_) => Platform::Unsupported,
        }
    }

    /// Creates the input capture of a build without a capture backend: there
    /// is none, so this fails with `UnsupportedPlatform`.
    pub fn new() -> (r: Result<Self, InputCaptureError>)
        ensures
            r matches Err(e) && e == InputCaptureError::UnsupportedPlatform,
    {
        Self::for_platform(Platform::Unsupported)
    }

    /// Creates the input capture of `platform`'s backend.
    pub fn for_platform(platform: Platform) -> (r: Result<Self, InputCaptureError>)
        ensures
            match platform {
                Platform::Unsupported => r matches Err(e) && e == InputCaptureError::UnsupportedPlatform,
                _ => r matches Ok(c) && c.platform() == platform,
            },
    {
        let inner = match platform {
            Platform::Windows => Backend::Windows(WindowsInputCapture::new()?),
            Platform::X11 => Backend::X11(X11InputCapture::new()?),
            Platform::Unsupported => Backend::Unsupported(UnsupportedInputCapture::new()?),
        };
        Ok(Self { inner })
    }

    /// Polls for new input events: the events that occurred since the last
    /// poll. None of the backends held here captures events yet.
    pub fn poll(&mut self) -> (r: Vec<InputEvent>)
        ensures
            r@.len() == 0,
            final(self).platform() == old(self).platform(),
    {
        match &mut self.inner {
            Backend::Windows(b) => b.poll(),
            Backend::X11(b) => b.poll(),
            Backend::Unsupported(b) => b.poll(),
        }
    }
}

/// An event as read from an evdev device: its type, code and value.
#[derive(Debug, Clone, Copy, PartialEq, Eq)]
pub struct RawInputEvent {
    pub event_type: u16,
    pub code: u16,
    pub value: i32,
}

/// The evdev event type of key events, `evdev::EventType::KEY` (1).
#[verifier::external_body]
fn key_event_type() -> (r: u16)
    ensures
        r == 1,
{
    evdev::EventType::KEY.0
}

/// The key code of `evdev::KeyCode::KEY_A` (30).
#[verifier::external_body]
fn key_code_a() -> (r: u16)
    ensures
        r == 30,
{
    evdev::KeyCode::KEY_A.code()
}

/// The key code of `evdev::KeyCode::KEY_Z` (44).
#[verifier::external_body]
fn key_code_z() -> (r: u16)
    ensures
        r == 44,
{
    evdev::KeyCode::KEY_Z.code()
}

/// The key code of `evdev::KeyCode::KEY_ENTER` (28).
#[verifier::external_body]
fn key_code_enter() -> (r: u16)
    ensures
        r == 28,
{
    evdev::KeyCode::KEY_ENTER.code()
}

/// The input event a raw evdev event stands for: key presses (value 1) and
/// releases (value 0); key repeats (value 2) and other events are dropped.
pub open spec fn key_event_spec(ev: RawInputEvent) -> Option<InputEvent> {
    if ev.event_type == 1 {
        if ev.value == 1 {
            Some(InputEvent::KeyPress(ev.code as u32))
        } else if ev.value == 0 {
            Some(InputEvent::KeyRelease(ev.code as u32))
        } else {
            None
        }
    } else {
        None
    }
}

/// The input events a sequence of raw evdev events stands for, in order.
pub open spec fn key_events_spec(raw: Seq<RawInputEvent>) -> Seq<InputEvent>
    decreases raw.len(),
{
    if raw.len() == 0 {
        seq![]
    } else {
        let prev = key_events_spec(raw.drop_last());
        match key_event_spec(raw.last()) {
            Some(e) => prev.push(e),
            None => prev,
        }
    }
}

/// Only evdev key events (type 1, `EV_KEY`) become input events: a press
/// (value 1) of a key is a `KeyPress` of its code, a release (value 0) a
/// `KeyRelease`, and a repeat or any other value nothing; an event of any
/// other type (a LED, a sync, a relative motion) is nothing.
pub proof fn lemma_key_event_cases(ev: RawInputEvent)
    ensures
        ev.event_type != 1 ==> key_event_spec(ev) is None,
        ev.event_type == 1 && ev.value == 1 ==> key_event_spec(ev) == Some(InputEvent::KeyPress(ev.code as u32)),
        ev.event_type == 1 && ev.value == 0 ==> key_event_spec(ev) == Some(InputEvent::KeyRelease(ev.code as u32)),
        ev.event_type == 1 && ev.value != 0 && ev.value != 1 ==> key_event_spec(ev) is None,
{
}

/// A batch of raw events gives, in order, the input events of its key
/// presses and releases: appending an event that is not a key event
/// (type other than 1) changes nothing, and appending one that is adds
/// its input event at the end.
pub proof fn lemma_key_events_append(raw: Seq<RawInputEvent>, ev: RawInputEvent)
    ensures
        ev.event_type != 1 ==> key_events_spec(raw.push(ev)) == key_events_spec(raw),
        ev.event_type == 1 && ev.value == 1 ==> key_events_spec(raw.push(ev)) == key_events_spec(raw).push(
            InputEvent::KeyPress(ev.code as u32),
        ),
        ev.event_type == 1 && ev.value == 0 ==> key_events_spec(raw.push(ev)) == key_events_spec(raw).push(
            InputEvent::KeyRelease(ev.code as u32),
        ),
        key_events_spec(raw).len() <= raw.len(),
    decreases raw.len(),
{
    assert(raw.push(ev).drop_last() =~= raw);
    if raw.len() > 0 {
        lemma_key_events_append(raw.drop_last(), raw.last());
        assert(raw.drop_last().push(raw.last()) =~= raw);
    }
}

/// The input event a raw evdev event stands for.
pub fn key_event(ev: RawInputEvent) -> (r: Option<InputEvent>)
    ensures
        r == key_event_spec(ev),
{
    if ev.event_type == key_event_type() {
        match ev.value {
            1 => Some(InputEvent::KeyPress(ev.code as u32)),
            0 => Some(InputEvent::KeyRelease(ev.code as u32)),
            _ => None,  // Ignore repeat events (value=2)
        }
    } else {
        None
    }
}

/// The input events that a batch of raw evdev events stands for.
pub fn key_events(raw: &Vec<RawInputEvent>) -> (r: Vec<InputEvent>)
    ensures
        r@ == key_events_spec(raw@),
{
    let mut events: Vec<InputEvent> = Vec::new();
    for i in 0..raw.len()
        invariant
            events@ == key_events_spec(raw@.take(i as int)),
    {
        assert(raw@.take(i + 1).drop_last() =~= raw@.take(i as int));
        if let Some(e) = key_event(raw[i]) {
            events.push(e);
        }
    }
    assert(raw@.take(raw@.len() as int) =~= raw@);
    events
}

/// Whether a device with these supported keys is a keyboard: it has
/// keys A, Z and ENTER.
pub open spec fn is_keyboard_spec(keys: Option<Seq<u16>>) -> bool {
    match keys {
        Some(k) => k.contains(30) && k.contains(44) && k.contains(28),
        None => false,
    }
}

fn has_key(keys: &Vec<u16>, code: u16) -> (r: bool)
    ensures
        r == keys@.contains(code),
{
    for i in 0..keys.len()
        invariant
            forall|j: int| 0 <= j < i ==> keys@[j] != code,
    {
        if keys[i] == code {
            return true;
        }
    }
    false
}

/// Whether a device is a keyboard, from the keys it supports (`None` when
/// it reports none).
pub fn is_keyboard(supported_keys: Option<&Vec<u16>>) -> (r: bool)
    ensures
        r == is_keyboard_spec(
            match supported_keys {
                Some(k) => Some(k@),
                None => None,
            },
        ),
{
    match supported_keys {
        Some(keys) => has_key(keys, key_code_a()) && has_key(keys, key_code_z()) && has_key(
            keys,
            key_code_enter(),
        ),
        None => false,
    }
}

/// Whether a file in /dev/input is an event device: its name starts with
/// "event".
pub fn is_event_device(file_name: &str) -> (r: bool)
    ensures
        r == (file_name@.len() >= 5 && file_name@.subrange(0, 5) == "event"@),
{
    let name = chars_of(file_name);
    let prefix = chars_of("event");
    proof {
        reveal_strlit("event");
    }
    if name.len() < prefix.len() {
        return false;
    }
    let mut i: usize = 0;
    while i < prefix.len()
        invariant
            name@ == file_name@,
            prefix@ == "event"@,
            prefix@.len() == 5,
            name@.len() >= 5,
            i <= 5,
            forall|j: int| 0 <= j < i ==> name@[j] == prefix@[j],
        decreases 5 - i,
    {
        if name[i] != prefix[i] {
            assert(name@.subrange(0, 5)[i as int] != prefix@[i as int]);
            return false;
        }
        i = i + 1;
    }
    assert(name@.subrange(0, 5) =~= prefix@);
    true
}

} // verus!
