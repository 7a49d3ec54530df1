//! Keyboard capture: turning raw device events into key presses and
//! releases, and keeping the set of held keys.
use vstd::prelude::*;

verus! {

/// An input event, keyed by Linux input-event codes.
#[derive(Clone, Copy, Debug, PartialEq, Eq, Structural)]
pub enum InputEvent {
    /// Key press event with key code
    KeyPress(u32),
    /// Key release event with key code
    KeyRelease(u32),
    /// Mouse move event with delta values (x, y)
    MouseMove(i32, i32),
    /// Mouse button press event with button code
    MouseButtonPress(u32),
    /// Mouse button release event with button code
    MouseButtonRelease(u32),
    /// Mouse scroll event with delta values (horizontal, vertical)
    MouseScroll(i32, i32),
}

/// Why input capture could not start or poll.
#[derive(Clone, Debug, PartialEq, Eq)]
pub enum InputCaptureError {
    InitError(String),
    PollError(String),
    UnsupportedPlatform,
}

/// The event type of key events in the Linux input-event interface.
pub const EV_KEY: u16 = 1;

/// An event as a Linux input device reports it.
#[derive(Clone, Copy, Debug, PartialEq, Eq, Structural)]
pub struct RawInputEvent {
    pub event_type: u16,
    pub code: u16,
    pub value: i32,
}

/// A key event of value 1 is a press, of value 0 a release; auto-repeats
/// (value 2) and events of other types are no key transition.
pub open spec fn key_transition(e: RawInputEvent) -> Option<InputEvent> {
    if e.event_type != EV_KEY {
        None
    } else if e.value == 1 {
        Some(InputEvent::KeyPress(e.code as u32))
    } else if e.value == 0 {
        Some(InputEvent::KeyRelease(e.code as u32))
    } else {
        None
    }
}

/// The key transitions of a run of raw events, in order.
pub open spec fn key_transitions(raw: Seq<RawInputEvent>) -> Seq<InputEvent>
    decreases raw.len(),
{
    if raw.len() == 0 {
        Seq::empty()
    } else {
        let prev = key_transitions(raw.drop_last());
        match key_transition(raw.last()) {
            Some(e) => prev.push(e),
            None => prev,
        }
    }
}

/// The key transition of one raw event.
pub fn key_event_from_raw(e: RawInputEvent) -> (r: Option<InputEvent>)
    ensures
        r == key_transition(e),
{
    if e.event_type != EV_KEY {
        None
    } else if e.value == 1 {
        Some(InputEvent::KeyPress(e.code as u32))
    } else if e.value == 0 {
        Some(InputEvent::KeyRelease(e.code as u32))
    } else {
        None
    }
}

/// The key transitions of raw device events, in their order.
pub fn key_events_from_raw(raw: &Vec<RawInputEvent>) -> (r: Vec<InputEvent>)
    ensures
        r@ == key_transitions(raw@),
        forall|i: int| 0 <= i < r@.len() ==> (#[trigger] r@[i] is KeyPress || r@[i] is KeyRelease),
{
    let mut out: Vec<InputEvent> = Vec::new();
    let mut i: usize = 0;
    assert(raw@.subrange(0, 0) =~= Seq::<RawInputEvent>::empty());
    while i < raw.len()
        invariant
            i <= raw@.len(),
            out@ == key_transitions(raw@.subrange(0, i as int)),
            forall|j: int| 0 <= j < out@.len() ==> (#[trigger] out@[j] is KeyPress || out@[j] is KeyRelease),
        decreases raw@.len() - i,
    {
        assert(raw@.subrange(0, i + 1).drop_last() =~= raw@.subrange(0, i as int));
        match key_event_from_raw(raw[i]) {
            Some(e) => out.push(e),
            None => {},
        }
        i = i + 1;
    }
    assert(raw@.subrange(0, raw@.len() as int) =~= raw@);
    out
}

/// Auto-repeat events are never reported: dropping one from the raw events
/// leaves the key transitions as they were.
pub proof fn law_repeats_not_reported(raw: Seq<RawInputEvent>, i: int)
    requires
        0 <= i < raw.len(),
        raw[i].value == 2,
    ensures
        key_transitions(raw.remove(i)) == key_transitions(raw),
    decreases raw.len(),
{
    if i == raw.len() - 1 {
        assert(raw.remove(i) =~= raw.drop_last());
    } else {
        law_repeats_not_reported(raw.drop_last(), i);
        assert(raw.remove(i).drop_last() =~= raw.drop_last().remove(i));
        assert(raw.remove(i).last() == raw.last());
    }
}

/// A device is taken for a keyboard where it has the keys A, Z and Enter.
pub fn is_keyboard(supported_keys: &Vec<u16>) -> (r: bool)
    ensures
        r == (supported_keys@.contains(30) && supported_keys@.contains(44) && supported_keys@.contains(28)),
{
    has_key(supported_keys, 30) && has_key(supported_keys, 44) && has_key(supported_keys, 28)
}

fn has_key(keys: &Vec<u16>, code: u16) -> (r: bool)
    ensures
        r == keys@.contains(code),
{
    let mut i: usize = 0;
    while i < keys.len()
        invariant
            i <= keys@.len(),
            forall|j: int| 0 <= j < i ==> keys@[j] != code,
        decreases keys@.len() - i,
    {
        if keys[i] == code {
            assert(keys@[i as int] == code);
            return true;
        }
        i = i + 1;
    }
    false
}

/// The position of `code` among `keys`.
fn position_of(keys: &Vec<u32>, code: u32) -> (r: Option<usize>)
    ensures
        match r {
            Some(i) => i < keys@.len() && keys@[i as int] == code,
            None => !keys@.contains(code),
        },
{
    let mut i: usize = 0;
    while i < keys.len()
        invariant
            i <= keys@.len(),
            forall|j: int| 0 <= j < i ==> keys@[j] != code,
        decreases keys@.len() - i,
    {
        if keys[i] == code {
            return Some(i);
        }
        i = i + 1;
    }
    None
}

/// The platforms that input capture knows.
#[derive(Clone, Copy, Debug, PartialEq, Eq, Structural)]
pub enum Platform {
    Windows,
    X11,
    Evdev,
    Unsupported,
}

/// Input capture on Windows; it reports no events yet.
pub struct WindowsInputCapture {}

impl WindowsInputCapture {
    pub fn new() -> (r: Result<WindowsInputCapture, InputCaptureError>)
        ensures
            r is Ok,
    {
        Ok(WindowsInputCapture {})
    }

    pub fn poll(&mut self) -> (r: Vec<InputEvent>)
        ensures
            r@.len() == 0,
    {
        Vec::new()
    }
}

/// Input capture under X11; it reports no events yet.
pub struct X11InputCapture {}

impl X11InputCapture {
    pub fn new() -> (r: Result<X11InputCapture, InputCaptureError>)
        ensures
            r is Ok,
    {
        Ok(X11InputCapture {})
    }

    pub fn poll(&mut self) -> (r: Vec<InputEvent>)
        ensures
            r@.len() == 0,
    {
        Vec::new()
    }
}

/// Input capture from Linux input devices: the raw events read from the
/// keyboards, in device order, become key transitions.
pub struct EvdevInputCapture {}

impl EvdevInputCapture {
    pub fn new() -> (r: Result<EvdevInputCapture, InputCaptureError>)
        ensures
            r is Ok,
    {
        Ok(EvdevInputCapture {})
    }

    pub fn poll(&mut self, raw: &Vec<RawInputEvent>) -> (r: Vec<InputEvent>)
        ensures
            r@ == key_transitions(raw@),
    {
        key_events_from_raw(raw)
    }
}

/// Where no capture exists: it cannot be made.
pub struct UnsupportedInputCapture;

impl UnsupportedInputCapture {
    pub fn new() -> (r: Result<UnsupportedInputCapture, InputCaptureError>)
        ensures
            r == Err::<UnsupportedInputCapture, InputCaptureError>(InputCaptureError::UnsupportedPlatform),
    {
        Err(InputCaptureError::UnsupportedPlatform)
    }

    pub fn poll(&mut self) -> (r: Vec<InputEvent>)
        ensures
            r@.len() == 0,
    {
        Vec::new()
    }
}

pub enum CaptureBackend {
    Windows(WindowsInputCapture),
    X11(X11InputCapture),
    Evdev(EvdevInputCapture),
    Unsupported(UnsupportedInputCapture),
}

/// Input capture on one platform.
pub struct InputCapture {
    inner: CaptureBackend,
}

impl InputCapture {
    /// The platform this capture runs on.
    pub closed spec fn spec_platform(&self) -> Platform {
        match self.inner {
            CaptureBackend::Windows(_) => Platform::Windows,
            CaptureBackend::X11(_) => Platform::X11,
            CaptureBackend::Evdev(_) => Platform::Evdev,
            CaptureBackend::Unsupported(_) => Platform::Unsupported,
        }
    }

    /// Starts capture on `platform`; a platform without capture is
    /// `UnsupportedPlatform`.
    pub fn new(platform: Platform) -> (r: Result<InputCapture, InputCaptureError>)
        ensures
            platform == Platform::Unsupported <==> r is Err,
            r matches Err(e) ==> e == InputCaptureError::UnsupportedPlatform,
            r matches Ok(c) ==> c.spec_platform() == platform,
    {
        let inner = match platform {
            Platform::Windows => match WindowsInputCapture::new() {
                Ok(c) => CaptureBackend::Windows(c),
                Err(e) => {
                    return Err(e);
                },
            },
            Platform::X11 => match X11InputCapture::new() {
                Ok(c) => CaptureBackend::X11(c),
                Err(e) => {
                    return Err(e);
                },
            },
            Platform::Evdev => match EvdevInputCapture::new() {
                Ok(c) => CaptureBackend::Evdev(c),
                Err(e) => {
                    return Err(e);
                },
            },
            Platform::Unsupported => match UnsupportedInputCapture::new() {
                Ok(c) => CaptureBackend::Unsupported(c),
                Err(e) => {
                    return Err(e);
                },
            },
        };
        Ok(InputCapture { inner })
    }

    /// The key transitions since the last poll. `raw` holds the events read
    /// from the devices since then, in device order; only the device
    /// backend has any.
    pub fn poll(&mut self, raw: &Vec<RawInputEvent>) -> (r: Vec<InputEvent>)
        ensures
            final(self).spec_platform() == old(self).spec_platform(),
            old(self).spec_platform() == Platform::Evdev ==> r@ == key_transitions(raw@),
            old(self).spec_platform() != Platform::Evdev ==> r@.len() == 0,
    {
        match &mut self.inner {
            CaptureBackend::Windows(c) => c.poll(),
            CaptureBackend::X11(c) => c.poll(),
            CaptureBackend::Evdev(c) => c.poll(raw),
            CaptureBackend::Unsupported(c) => c.poll(),
        }
    }
}

/// How many recent events the input state keeps.
pub const RECENT_EVENTS: usize = 10;

/// The keys held and the latest events.
pub struct InputState {
    pressed: Vec<u32>,
    recent: Vec<InputEvent>,
}

impl InputState {
    pub closed spec fn pressed_keys(&self) -> Seq<u32> {
        self.pressed@
    }

    pub closed spec fn recent_events(&self) -> Seq<InputEvent> {
        self.recent@
    }

    /// No key is held twice, and at most `RECENT_EVENTS` events are kept.
    pub open spec fn wf(&self) -> bool {
        &&& self.pressed_keys().no_duplicates()
        &&& self.recent_events().len() <= RECENT_EVENTS
    }

    pub fn new() -> (r: InputState)
        ensures
            r.wf(),
            r.pressed_keys().len() == 0,
            r.recent_events().len() == 0,
    {
        InputState { pressed: Vec::new(), recent: Vec::new() }
    }

    /// The held keys.
    pub fn pressed(&self) -> (r: &Vec<u32>)
        ensures
            r@ == self.pressed_keys(),
    {
        &self.pressed
    }

    /// The latest events, oldest first.
    pub fn recent(&self) -> (r: &Vec<InputEvent>)
        ensures
            r@ == self.recent_events(),
    {
        &self.recent
    }

    /// Takes one event: a press adds its key to the held keys, a release
    /// removes it; every event joins the recent ones, the oldest leaving
    /// once there are more than `RECENT_EVENTS`.
    pub fn apply(&mut self, e: InputEvent)
        requires
            old(self).wf(),
        ensures
            final(self).wf(),
            forall|k: u32| #[trigger] final(self).pressed_keys().contains(k) <==> match e {
                InputEvent::KeyPress(c) => old(self).pressed_keys().contains(k) || k == c,
                InputEvent::KeyRelease(c) => old(self).pressed_keys().contains(k) && k != c,
                _ => old(self).pressed_keys().contains(k),
            },
            final(self).recent_events() == (if old(self).recent_events().len() < RECENT_EVENTS {
                old(self).recent_events().push(e)
            } else {
                old(self).recent_events().push(e).drop_first()
            }),
    {
        match e {
            InputEvent::KeyPress(c) => {
                if !crate::render::is_pressed(&self.pressed, c) {
                    self.pressed.push(c);
                    assert(self.pressed@ =~= old(self).pressed@.push(c));
                    assert forall|k: u32| #[trigger] self.pressed@.contains(k) <==> old(self).pressed@.contains(k) || k == c by {
                        if old(self).pressed@.contains(k) {
                            let j = choose|j: int| 0 <= j < old(self).pressed@.len() && old(self).pressed@[j] == k;
                            assert(self.pressed@[j] == k);
                        }
                        if k == c {
                            assert(self.pressed@[self.pressed@.len() - 1] == c);
                        }
                        if self.pressed@.contains(k) && k != c {
                            let j = choose|j: int| 0 <= j < self.pressed@.len() && self.pressed@[j] == k;
                            assert(j < old(self).pressed@.len());
                            assert(old(self).pressed@[j] == k);
                        }
                    }
                }
            },
            InputEvent::KeyRelease(c) => {
                let found = position_of(&self.pressed, c);
                if let Some(i) = found {
                    let ghost before = self.pressed@;
                    assert(before[i as int] == c);
                    self.pressed.remove(i);
                    assert(self.pressed@ == before.remove(i as int));
                    assert forall|k: u32| #[trigger] self.pressed@.contains(k) <==> before.contains(k) && k != c by {
                        if before.contains(k) && k != c {
                            let j = choose|j: int| 0 <= j < before.len() && before[j] == k;
                            if j < i {
                                assert(self.pressed@[j] == k);
                            } else {
                                assert(j != i);
                                assert(self.pressed@[j - 1] == before[j]);
                            }
                        }
                        if self.pressed@.contains(k) {
                            let j = choose|j: int| 0 <= j < self.pressed@.len() && self.pressed@[j] == k;
                            if j < i {
                                assert(before[j] == k);
                                assert(j != i);
                            } else {
                                assert(before[j + 1] == k);
                                assert(j + 1 != i);
                            }
                        }
                    }
                }
            },
            _ => {},
        }
        let ghost before = self.recent@;
        self.recent.push(e);
        if self.recent.len() > RECENT_EVENTS {
            self.recent.remove(0);
            assert(self.recent@ =~= before.push(e).drop_first());
        }
    }

    /// Takes the events of one poll, in order.
    pub fn apply_all(&mut self, events: &Vec<InputEvent>)
        requires
            old(self).wf(),
        ensures
            final(self).wf(),
            forall|k: u32| #[trigger] final(self).pressed_keys().contains(k) <==> held_after(
                old(self).pressed_keys(),
                events@,
                k,
            ),
    {
        let mut i: usize = 0;
        assert(events@.subrange(0, 0) =~= Seq::<InputEvent>::empty());
        while i < events.len()
            invariant
                self.wf(),
                i <= events@.len(),
                forall|k: u32| #[trigger] self.pressed_keys().contains(k) <==> held_after(
                    old(self).pressed_keys(),
                    events@.subrange(0, i as int),
                    k,
                ),
            decreases events@.len() - i,
        {
            assert(events@.subrange(0, i + 1).drop_last() =~= events@.subrange(0, i as int));
            self.apply(events[i]);
            i = i + 1;
        }
        assert(events@.subrange(0, events@.len() as int) =~= events@);
    }
}

/// Whether key `k` is held after `events`, starting from the keys `held`.
pub open spec fn held_after(held: Seq<u32>, events: Seq<InputEvent>, k: u32) -> bool
    decreases events.len(),
{
    if events.len() == 0 {
        held.contains(k)
    } else {
        let before = held_after(held, events.drop_last(), k);
        match events.last() {
            InputEvent::KeyPress(c) => before || k == c,
            InputEvent::KeyRelease(c) => before && k != c,
            _ => before,
        }
    }
}

} // verus!
