//! Input events for `SendInput`.
//!
//! Two limits cannot be passed at this layer: a process without elevation cannot reach elevated
//! windows, which [`outcome`] reports as a missing permission, and the secure desktop is out of
//! reach altogether.

use vstd::prelude::*;
use vstd::string::StringExecFns;

use crate::input::keymap_windows::{physical_key, PhysicalKey};
use crate::input::{HeldState, InputError};
use crate::protocol::control::{InputEvent, KeyCode, MouseButton, Real32};
use crate::text::{push_decimal, utf16_of};

verus! {

pub const MOVE: u32 = 0x0001;

pub const LEFT_DOWN: u32 = 0x0002;

pub const LEFT_UP: u32 = 0x0004;

pub const RIGHT_DOWN: u32 = 0x0008;

pub const RIGHT_UP: u32 = 0x0010;

pub const MIDDLE_DOWN: u32 = 0x0020;

pub const MIDDLE_UP: u32 = 0x0040;

pub const X_DOWN: u32 = 0x0080;

pub const X_UP: u32 = 0x0100;

pub const WHEEL: u32 = 0x0800;

pub const HWHEEL: u32 = 0x1000;

pub const ABSOLUTE: u32 = 0x8000;

pub const EXTENDED_KEY: u32 = 0x0001;

pub const KEY_UP: u32 = 0x0002;

pub const UNICODE: u32 = 0x0004;

pub const SCAN_CODE: u32 = 0x0008;

/// The first and the second extra button, in an event's data.
pub const XBUTTON1: i32 = 1;

pub const XBUTTON2: i32 = 2;

/// `ERROR_ACCESS_DENIED`.
pub const ACCESS_DENIED: u32 = 5;

/// One `INPUT`.
#[derive(Debug, Clone, Copy, PartialEq)]
pub enum Input {
    /// `to` is the place on the screen; without it the coordinates are zero.
    Mouse { flags: u32, to: Option<(Real32, Real32)>, data: i32 },
    Keyboard { vk: u16, scan: u16, flags: u32 },
}

pub open spec fn button_event(button: MouseButton, pressed: bool) -> (u32, i32) {
    match (button, pressed) {
        (MouseButton::Left, true) => (LEFT_DOWN, 0),
        (MouseButton::Left, false) => (LEFT_UP, 0),
        (MouseButton::Right, true) => (RIGHT_DOWN, 0),
        (MouseButton::Right, false) => (RIGHT_UP, 0),
        (MouseButton::Middle, true) => (MIDDLE_DOWN, 0),
        (MouseButton::Middle, false) => (MIDDLE_UP, 0),
        (MouseButton::Back, true) => (X_DOWN, XBUTTON1),
        (MouseButton::Back, false) => (X_UP, XBUTTON1),
        (MouseButton::Forward, true) => (X_DOWN, XBUTTON2),
        (MouseButton::Forward, false) => (X_UP, XBUTTON2),
    }
}

/// The virtual key stays zero beside a scan code, else the system would prefer it.
pub open spec fn key_event(code: KeyCode, pressed: bool) -> Input {
    let up: u32 = if pressed {
        0
    } else {
        KEY_UP
    };
    match crate::input::keymap_windows::windows_key(code) {
        PhysicalKey::Scan { code: scan, extended } => Input::Keyboard {
            vk: 0,
            scan,
            flags: (SCAN_CODE + up + if extended {
                EXTENDED_KEY
            } else {
                0
            }) as u32,
        },
        PhysicalKey::Virtual(vk) => Input::Keyboard { vk, scan: 0, flags: up },
    }
}

/// Each unit down and up.
pub open spec fn typed(units: Seq<u16>) -> Seq<Input> {
    Seq::new(
        2 * units.len(),
        |i: int|
            Input::Keyboard {
                vk: 0,
                scan: units[i / 2],
                flags: if i % 2 == 0 {
                    UNICODE
                } else {
                    (UNICODE + KEY_UP) as u32
                },
            },
    )
}

pub open spec fn button_release(button: MouseButton) -> Input {
    Input::Mouse {
        flags: button_event(button, false).0,
        to: None,
        data: button_event(button, false).1,
    }
}

/// Every button goes up, then every key.
pub open spec fn release_inputs(keys: Seq<KeyCode>, buttons: Seq<MouseButton>) -> Seq<Input> {
    buttons.map_values(|b: MouseButton| button_release(b)) + keys.map_values(
        |k: KeyCode| key_event(k, false),
    )
}

/// Vertical first; an axis that does not move sends nothing.
pub open spec fn turned(units_x: i32, units_y: i32) -> Seq<Input> {
    let vertical = seq![Input::Mouse { flags: WHEEL, to: None, data: units_y }];
    let horizontal = seq![Input::Mouse { flags: HWHEEL, to: None, data: units_x }];
    (if units_y != 0 {
        vertical
    } else {
        seq![]
    }) + (if units_x != 0 {
        horizontal
    } else {
        seq![]
    })
}

pub open spec fn inputs(
    keys: Seq<KeyCode>,
    buttons: Seq<MouseButton>,
    event: InputEvent,
    wheel: (i32, i32),
) -> Seq<Input> {
    match event {
        InputEvent::MouseMove { x, y, .. } => seq![
            Input::Mouse { flags: (MOVE + ABSOLUTE) as u32, to: Some((x, y)), data: 0 },
        ],
        InputEvent::MouseButton { button, pressed, x, y, .. } => if pressed == buttons.contains(
            button,
        ) {
            seq![]
        } else {
            // One event for the move and the click: the host's own mouse cannot come between.
            seq![
                Input::Mouse {
                    flags: (button_event(button, pressed).0 + MOVE + ABSOLUTE) as u32,
                    to: Some((x, y)),
                    data: button_event(button, pressed).1,
                },
            ]
        },
        InputEvent::Scroll { .. } => turned(wheel.0, wheel.1),
        InputEvent::Key { code, pressed } => if pressed == keys.contains(code) {
            seq![]
        } else {
            seq![key_event(code, pressed)]
        },
        InputEvent::Text { text } => typed(crate::text::utf16(text@)),
        InputEvent::ReleaseAll => release_inputs(keys, buttons),
    }
}

pub struct SendInputInjector {
    held: HeldState,
}

impl SendInputInjector {
    pub closed spec fn down(&self) -> Seq<KeyCode> {
        self.held.down()
    }

    pub closed spec fn clicked(&self) -> Seq<MouseButton> {
        self.held.clicked()
    }

    pub closed spec fn wf(&self) -> bool {
        self.held.wf()
    }

    /// Nothing can be refused here: Windows refuses only when an event is sent, and only for
    /// elevated windows.
    pub fn open() -> (r: Self)
        ensures
            r.wf(),
            r.down() == Seq::<KeyCode>::empty(),
            r.clicked() == Seq::<MouseButton>::empty(),
    {
        SendInputInjector { held: HeldState::default() }
    }

    pub fn is_idle(&self) -> (r: bool)
        ensures
            r == (self.down().len() == 0 && self.clicked().len() == 0),
    {
        self.held.is_empty()
    }

    fn button_flags(button: MouseButton, pressed: bool) -> (r: (u32, i32))
        ensures
            r == button_event(button, pressed),
    {
        match (button, pressed) {
            (MouseButton::Left, true) => (LEFT_DOWN, 0),
            (MouseButton::Left, false) => (LEFT_UP, 0),
            (MouseButton::Right, true) => (RIGHT_DOWN, 0),
            (MouseButton::Right, false) => (RIGHT_UP, 0),
            (MouseButton::Middle, true) => (MIDDLE_DOWN, 0),
            (MouseButton::Middle, false) => (MIDDLE_UP, 0),
            (MouseButton::Back, true) => (X_DOWN, XBUTTON1),
            (MouseButton::Back, false) => (X_UP, XBUTTON1),
            (MouseButton::Forward, true) => (X_DOWN, XBUTTON2),
            (MouseButton::Forward, false) => (X_UP, XBUTTON2),
        }
    }

    fn key_input(code: KeyCode, pressed: bool) -> (r: Input)
        ensures
            r == key_event(code, pressed),
    {
        let up: u32 = if pressed { 0 } else { KEY_UP };
        match physical_key(code) {
            PhysicalKey::Scan { code: scan, extended } => {
                let flags: u32 = if extended { SCAN_CODE + up + EXTENDED_KEY } else { SCAN_CODE + up };
                Input::Keyboard { vk: 0, scan, flags }
            },
            PhysicalKey::Virtual(vk) => Input::Keyboard { vk, scan: 0, flags: up },
        }
    }

    /// A text is sent in one call, so that nothing comes between the two halves of a character.
    fn text_inputs(text: &str) -> (r: Vec<Input>)
        ensures
            r@ == typed(crate::text::utf16(text@)),
    {
        let units = utf16_of(text);
        let mut r: Vec<Input> = Vec::new();
        let mut i: usize = 0;
        while i < units.len()
            invariant
                i <= units@.len(),
                r@ == typed(units@.take(i as int)),
            decreases units@.len() - i,
        {
            let ghost before = r@;
            r.push(Input::Keyboard { vk: 0, scan: units[i], flags: UNICODE });
            r.push(Input::Keyboard { vk: 0, scan: units[i], flags: UNICODE + KEY_UP });
            proof {
                let more = typed(units@.take(i + 1));
                assert(r@.len() == more.len());
                assert forall|j: int| 0 <= j < r@.len() implies r@[j] == more[j] by {
                    if j < 2 * i {
                        assert(r@[j] == before[j]);
                        assert(j / 2 < i);
                    }
                }
                assert(r@ =~= more);
            }
            i += 1;
        }
        assert(units@.take(i as int) =~= units@);
        r
    }

    /// What to send for an event, in one call. `wheel` is what a scroll comes to in whole units of
    /// the wheel, horizontal first.
    pub fn inject(&mut self, event: &InputEvent, wheel: (i32, i32)) -> (r: Vec<Input>)
        requires
            old(self).wf(),
        ensures
            final(self).wf(),
            final(self).down() == crate::input::macos::keys_after(old(self).down(), *event),
            final(self).clicked() == crate::input::macos::buttons_after(
                old(self).clicked(),
                *event,
            ),
            r@ == inputs(old(self).down(), old(self).clicked(), *event, wheel),
            *event matches InputEvent::MouseMove { x, y, .. } ==> r@.len() == 1 && (
            r@[0] matches Input::Mouse { to: Some(to), .. } && to.0 == x && to.1 == y),
            *event matches InputEvent::MouseButton { x, y, .. } ==> (r@.len() > 0 ==> (
            r@[0] matches Input::Mouse { to: Some(to), .. } && to.0 == x && to.1 == y)),
    {
        let mut r: Vec<Input> = Vec::new();
        match event {
            InputEvent::MouseMove { monitor: _, x, y } => {
                r.push(Input::Mouse { flags: MOVE + ABSOLUTE, to: Some((*x, *y)), data: 0 });
            },
            InputEvent::MouseButton { monitor: _, button, pressed, x, y } => {
                if self.held.set_button(*button, *pressed) {
                    let (flags, data) = Self::button_flags(*button, *pressed);
                    r.push(
                        Input::Mouse { flags: flags + MOVE + ABSOLUTE, to: Some((*x, *y)), data },
                    );
                }
            },
            InputEvent::Scroll { monitor: _, delta_x: _, delta_y: _ } => {
                if wheel.1 != 0 {
                    r.push(Input::Mouse { flags: WHEEL, to: None, data: wheel.1 });
                }
                if wheel.0 != 0 {
                    r.push(Input::Mouse { flags: HWHEEL, to: None, data: wheel.0 });
                }
                assert(r@ =~= turned(wheel.0, wheel.1));
            },
            InputEvent::Key { code, pressed } => {
                if self.held.set_key(*code, *pressed) {
                    r.push(Self::key_input(*code, *pressed));
                }
            },
            InputEvent::Text { text } => {
                r = Self::text_inputs(text.as_str());
            },
            InputEvent::ReleaseAll => {
                r = self.release_all();
            },
        }
        r
    }

    /// What to send so that nothing stays down.
    pub fn release_all(&mut self) -> (r: Vec<Input>)
        ensures
            final(self).wf(),
            final(self).down() == Seq::<KeyCode>::empty(),
            final(self).clicked() == Seq::<MouseButton>::empty(),
            r@ == release_inputs(old(self).down(), old(self).clicked()),
    {
        let (keys, buttons) = self.held.drain();
        let mut r: Vec<Input> = Vec::new();
        let mut i: usize = 0;
        while i < buttons.len()
            invariant
                i <= buttons@.len(),
                r@ == buttons@.take(i as int).map_values(|b: MouseButton| button_release(b)),
            decreases buttons@.len() - i,
        {
            let (flags, data) = Self::button_flags(buttons[i], false);
            r.push(Input::Mouse { flags, to: None, data });
            i += 1;
            assert(r@ =~= buttons@.take(i as int).map_values(|b: MouseButton| button_release(b)));
        }
        assert(buttons@.take(i as int) =~= buttons@);
        let ghost ups = r@;
        let mut k: usize = 0;
        while k < keys.len()
            invariant
                k <= keys@.len(),
                r@ == ups + keys@.take(k as int).map_values(|c: KeyCode| key_event(c, false)),
            decreases keys@.len() - k,
        {
            r.push(Self::key_input(keys[k], false));
            k += 1;
            assert(r@ =~= ups + keys@.take(k as int).map_values(|c: KeyCode| key_event(c, false)));
        }
        assert(keys@.take(k as int) =~= keys@);
        r
    }
}

/// What `SendInput` did: it took `sent` of `wanted` events, and the system's last error is
/// `error`. Nothing to send is no failure.
pub fn outcome(sent: u32, wanted: usize, error: u32) -> (r: Result<(), InputError>)
    ensures
        match r {
            Ok(()) => wanted == 0 || sent == wanted,
            Err(InputError::PermissionDenied) => wanted != 0 && sent != wanted && error
                == ACCESS_DENIED,
            Err(InputError::Platform(reason)) => wanted != 0 && sent != wanted && error
                != ACCESS_DENIED && reason@ == "SendInput chỉ nhận "@ + crate::text::decimal(
                sent as nat,
            ) + "/"@ + crate::text::decimal(wanted as nat) + " sự kiện (mã lỗi "@
                + crate::text::decimal(error as nat) + ")"@,
            Err(_) => false,
        },
{
    if wanted == 0 || sent as usize == wanted {
        return Ok(());
    }
    if error == ACCESS_DENIED {
        return Err(InputError::PermissionDenied);
    }
    let mut s: String = String::new();
    s.append("SendInput chỉ nhận ");
    push_decimal(&mut s, sent as u64);
    s.append("/");
    push_decimal(&mut s, wanted as u64);
    s.append(" sự kiện (mã lỗi ");
    push_decimal(&mut s, error as u64);
    s.append(")");
    Err(InputError::Platform(s))
}

/// The pointer goes where the event says, across by `x` and down by `y`: one event that moves it to
/// a place on the screen.
pub proof fn moves_go_where_they_say(
    keys: Seq<KeyCode>,
    buttons: Seq<MouseButton>,
    monitor: u8,
    x: Real32,
    y: Real32,
    wheel: (i32, i32),
)
    ensures
        ({
            let all = inputs(keys, buttons, InputEvent::MouseMove { monitor, x, y }, wheel);
            &&& all.len() == 1
            &&& all[0] matches Input::Mouse { flags, to: Some(to), data }
            &&& flags == 0x8001
            &&& to.0 == x
            &&& to.1 == y
            &&& data == 0
        }),
{
}

/// The button and the direction that an event's flags, without those of the move, and its data
/// stand for.
pub open spec fn button_of(flags: int, data: int) -> Option<(MouseButton, bool)> {
    if flags == 0x2 && data == 0 {
        Some((MouseButton::Left, true))
    } else if flags == 0x4 && data == 0 {
        Some((MouseButton::Left, false))
    } else if flags == 0x8 && data == 0 {
        Some((MouseButton::Right, true))
    } else if flags == 0x10 && data == 0 {
        Some((MouseButton::Right, false))
    } else if flags == 0x20 && data == 0 {
        Some((MouseButton::Middle, true))
    } else if flags == 0x40 && data == 0 {
        Some((MouseButton::Middle, false))
    } else if flags == 0x80 && data == 1 {
        Some((MouseButton::Back, true))
    } else if flags == 0x100 && data == 1 {
        Some((MouseButton::Back, false))
    } else if flags == 0x80 && data == 2 {
        Some((MouseButton::Forward, true))
    } else if flags == 0x100 && data == 2 {
        Some((MouseButton::Forward, false))
    } else {
        None
    }
}

/// A button goes down or up where the event says, in one event that also moves the pointer there,
/// and only where that changes anything.
pub proof fn clicks_go_where_they_say(
    keys: Seq<KeyCode>,
    buttons: Seq<MouseButton>,
    monitor: u8,
    button: MouseButton,
    pressed: bool,
    x: Real32,
    y: Real32,
    wheel: (i32, i32),
)
    ensures
        ({
            let all = inputs(
                keys,
                buttons,
                InputEvent::MouseButton { monitor, button, pressed, x, y },
                wheel,
            );
            &&& all.len() == 0 <==> pressed == buttons.contains(button)
            &&& all.len() > 0 ==> {
                &&& all.len() == 1
                &&& all[0] matches Input::Mouse { flags, to: Some(to), data }
                &&& button_of(flags - 0x8001, data as int) == Some((button, pressed))
                &&& to.0 == x
                &&& to.1 == y
            }
        }),
{
}

/// The wheel turns first upright and then sideways, each by its own units, and only where there are
/// any. The pointer stays.
pub proof fn wheels_turn_as_they_say(
    keys: Seq<KeyCode>,
    buttons: Seq<MouseButton>,
    monitor: u8,
    delta_x: Real32,
    delta_y: Real32,
    wheel: (i32, i32),
)
    ensures
        ({
            let all = inputs(keys, buttons, InputEvent::Scroll { monitor, delta_x, delta_y }, wheel);
            let upright = Input::Mouse { flags: 0x800, to: None, data: wheel.1 };
            let sideways = Input::Mouse { flags: 0x1000, to: None, data: wheel.0 };
            &&& wheel.0 == 0 && wheel.1 == 0 ==> all.len() == 0
            &&& wheel.0 == 0 && wheel.1 != 0 ==> all == seq![upright]
            &&& wheel.0 != 0 && wheel.1 == 0 ==> all == seq![sideways]
            &&& wheel.0 != 0 && wheel.1 != 0 ==> all == seq![upright, sideways]
        }),
{
    let all = inputs(keys, buttons, InputEvent::Scroll { monitor, delta_x, delta_y }, wheel);
    let upright = Input::Mouse { flags: 0x800, to: None, data: wheel.1 };
    let sideways = Input::Mouse { flags: 0x1000, to: None, data: wheel.0 };
    if wheel.0 == 0 && wheel.1 != 0 {
        assert(all =~= seq![upright]);
    } else if wheel.0 != 0 && wheel.1 == 0 {
        assert(all =~= seq![sideways]);
    } else if wheel.0 != 0 {
        assert(all =~= seq![upright, sideways]);
    }
}

/// What is handed over for a key, read back: the key, and whether it goes down.
pub open spec fn key_read(event: Input) -> Option<(KeyCode, bool)> {
    match event {
        Input::Keyboard { vk, scan, flags } => {
            let up = flags / 2 % 2 == 1;
            let by_scan = flags / 8 % 2 == 1;
            let extended = flags % 2 == 1;
            if flags / 4 % 2 == 1 || flags >= 16 {
                None
            } else if by_scan && vk == 0 {
                Some(
                    (
                        crate::input::keymap_windows::key_of(
                            PhysicalKey::Scan { code: scan, extended },
                        ),
                        !up,
                    ),
                )
            } else if !by_scan && scan == 0 && !extended {
                Some((crate::input::keymap_windows::key_of(PhysicalKey::Virtual(vk)), !up))
            } else {
                None
            }
        },
        _ => None,
    }
}

/// A key goes down or up in one event that names it, and only where that changes anything.
pub proof fn keys_go_as_they_say(
    keys: Seq<KeyCode>,
    buttons: Seq<MouseButton>,
    code: KeyCode,
    pressed: bool,
    wheel: (i32, i32),
)
    ensures
        ({
            let all = inputs(keys, buttons, InputEvent::Key { code, pressed }, wheel);
            &&& all.len() == 0 <==> pressed == keys.contains(code)
            &&& all.len() > 0 ==> all.len() == 1 && key_read(all[0]) == Some((code, pressed))
        }),
{
    key_is_read_back(code, pressed);
}

proof fn key_is_read_back(code: KeyCode, pressed: bool)
    ensures
        key_read(key_event(code, pressed)) == Some((code, pressed)),
{
    crate::input::keymap_windows::keys_are_found_again(code);
}

/// A text goes unit by unit, each down and then up before the next.
pub proof fn texts_go_unit_by_unit(
    keys: Seq<KeyCode>,
    buttons: Seq<MouseButton>,
    text: String,
    wheel: (i32, i32),
    i: int,
)
    requires
        0 <= i < crate::text::utf16(text@).len(),
    ensures
        ({
            let all = inputs(keys, buttons, InputEvent::Text { text }, wheel);
            let unit = crate::text::utf16(text@)[i];
            &&& all.len() == 2 * crate::text::utf16(text@).len()
            &&& all[2 * i] == Input::Keyboard { vk: 0, scan: unit, flags: 4 }
            &&& all[2 * i + 1] == Input::Keyboard { vk: 0, scan: unit, flags: 6 }
        }),
{
}

/// When everything is released, each held button goes up where the pointer is, and then each held
/// key, in the order in which they went down.
pub proof fn everything_goes_up(
    keys: Seq<KeyCode>,
    buttons: Seq<MouseButton>,
    wheel: (i32, i32),
    i: int,
)
    requires
        0 <= i < buttons.len() + keys.len(),
    ensures
        ({
            let all = inputs(keys, buttons, InputEvent::ReleaseAll, wheel);
            &&& all.len() == buttons.len() + keys.len()
            &&& i < buttons.len() ==> {
                &&& all[i] matches Input::Mouse { flags, to, data }
                &&& to is None
                &&& button_of(flags as int, data as int) == Some((buttons[i], false))
            }
            &&& i >= buttons.len() ==> key_read(all[i]) == Some((keys[i - buttons.len()], false))
        }),
{
    if i >= buttons.len() {
        key_is_read_back(keys[i - buttons.len()], false);
    }
}

/// A call sends what the event says and notes what is held by it: what was pressed is held until it
/// is let go.
pub proof fn calls_send_what_the_event_says(
    injector: &mut SendInputInjector,
    event: InputEvent,
    wheel: (i32, i32),
    r: Vec<Input>,
)
    requires
        old(injector).wf(),
        call_ensures(SendInputInjector::inject, (injector, &event, wheel), r),
    ensures
        event matches InputEvent::Key { code, pressed } ==> final(injector).down().contains(code)
            == pressed && final(injector).clicked() == old(injector).clicked() && (r@.len() == 0
            <==> pressed == old(injector).down().contains(code)),
        event matches InputEvent::MouseButton { button, pressed, .. } ==> final(injector).clicked().contains(button) == pressed && final(injector).down() == old(injector).down()
            && (r@.len() == 0 <==> pressed == old(injector).clicked().contains(button)),
        event is MouseMove || event is Scroll || event is Text ==> final(injector).down() == old(injector).down() && final(injector).clicked() == old(injector).clicked(),
        event is ReleaseAll ==> final(injector).down().len() == 0 && final(injector).clicked().len() == 0 && r@.len() == old(injector).down().len() + old(injector).clicked().len(),
{
    let keys = old(injector).down();
    let buttons = old(injector).clicked();
    assert(keys.no_duplicates() && buttons.no_duplicates());
    crate::input::macos::each_event_changes_its_own(keys, buttons, event);
    match event {
        InputEvent::Key { code, pressed } => {
            keys_go_as_they_say(keys, buttons, code, pressed, wheel);
        },
        InputEvent::MouseButton { monitor, button, pressed, x, y } => {
            clicks_go_where_they_say(keys, buttons, monitor, button, pressed, x, y, wheel);
        },
        _ => {},
    }
}

/// To let everything go is the same as the event that says so, and an injector that holds nothing
/// is idle.
pub proof fn letting_go_is_an_event(
    first: &mut SendInputInjector,
    second: &mut SendInputInjector,
    wheel: (i32, i32),
    one: Vec<Input>,
    two: Vec<Input>,
    idle: bool,
)
    requires
        *old(first) == *old(second),
        old(second).wf(),
        call_ensures(SendInputInjector::release_all, (first,), one),
        call_ensures(SendInputInjector::inject, (second, &InputEvent::ReleaseAll, wheel), two),
        call_ensures(SendInputInjector::is_idle, (final(first),), idle),
    ensures
        one@ == two@,
        idle,
        final(first).down().len() == 0,
        final(first).clicked().len() == 0,
{
}

/// Sending fails where something was to be sent and not all of it was taken; error 5 is the want of
/// a permission.
pub proof fn all_or_an_error(sent: u32, wanted: usize, error: u32, r: Result<(), InputError>)
    requires
        call_ensures(outcome, (sent, wanted, error), r),
    ensures
        r is Ok <==> wanted == 0 || sent == wanted,
        r is Err ==> ((r matches Err(InputError::PermissionDenied)) <==> error == 5),
        r is Err && error != 5 ==> r matches Err(InputError::Platform(_)),
{
}

/// An injector begins with nothing held.
pub proof fn injectors_begin_idle(fresh: SendInputInjector, idle: bool)
    requires
        call_ensures(SendInputInjector::open, (), fresh),
        call_ensures(SendInputInjector::is_idle, (&fresh,), idle),
    ensures
        idle,
        fresh.down().len() == 0 && fresh.clicked().len() == 0,
{
}

} // verus!
