//! Input events for CoreGraphics.
//!
//! What is posted, and in which order, is decided here; making and posting the `CGEvent`s is left
//! to the caller.

use vstd::prelude::*;

use crate::input::keymap_macos::{is_numpad, modifier_flag, virtual_key};
use crate::input::{HeldState, InputError};
use crate::protocol::control::{InputEvent, KeyCode, MouseButton, Real32};

verus! {

/// `kCGEventFlagMaskNumericPad`.
pub const NUMERIC_PAD: u64 = 2097152;

#[derive(Debug, Clone, Copy, PartialEq, Eq, Structural)]
pub enum MouseKind {
    Moved,
    LeftDown,
    LeftUp,
    LeftDragged,
    RightDown,
    RightUp,
    RightDragged,
    OtherDown,
    OtherUp,
    OtherDragged,
}

/// One event to post.
#[derive(Debug, Clone, Copy, PartialEq)]
pub enum Posted {
    /// `at` moves the pointer first; without it the event falls where the pointer was left.
    Mouse { kind: MouseKind, button: u32, at: Option<(Real32, Real32)>, flags: u64 },
    /// In pixels, rounded to whole ones: trackpads scroll by pixels.
    Scroll { delta_x: Real32, delta_y: Real32, flags: u64 },
    Key { vk: u16, pressed: bool, flags: u64 },
    /// A key event that carries the plan's text.
    Text { pressed: bool },
}

/// What an event asks for.
#[derive(Debug)]
pub struct Plan {
    /// In this order. An `Err` is a step that cannot be taken.
    pub steps: Vec<Result<Posted, InputError>>,
    /// UTF-16 of the text that the steps carry.
    pub units: Vec<u16>,
    /// Whether the steps behind a failed one are still taken. The first failure is reported
    /// either way.
    pub keep_going: bool,
}

/// Some key in `keys` has this modifier flag.
pub open spec fn sets(keys: Seq<KeyCode>, flag: u64) -> bool {
    exists|i: int| 0 <= i < keys.len() && #[trigger] crate::input::keymap_macos::modifier(keys[i]) == Some(flag)
}

pub open spec fn flag_if(keys: Seq<KeyCode>, flag: u64) -> u64 {
    if sets(keys, flag) {
        flag
    } else {
        0
    }
}

/// The flags of the modifiers among `keys`, each counted once.
pub open spec fn flags_of(keys: Seq<KeyCode>) -> u64 {
    (flag_if(keys, 65536) + flag_if(keys, 131072) + flag_if(keys, 262144) + flag_if(keys, 524288)
        + flag_if(keys, 1048576)) as u64
}

fn has(keys: &[KeyCode], flag: u64) -> (r: bool)
    ensures
        r == sets(keys@, flag),
{
    let mut i: usize = 0;
    while i < keys.len()
        invariant
            i <= keys@.len(),
            forall|j: int|
                0 <= j < i ==> #[trigger] crate::input::keymap_macos::modifier(keys@[j]) != Some(flag),
        decreases keys@.len() - i,
    {
        match modifier_flag(keys[i]) {
            Some(found) => {
                if found == flag {
                    assert(crate::input::keymap_macos::modifier(keys@[i as int]) == Some(flag));
                    return true;
                }
            },
            None => {},
        }
        i += 1;
    }
    false
}

pub open spec fn click(button: MouseButton, pressed: bool) -> MouseKind {
    match button {
        MouseButton::Left => if pressed {
            MouseKind::LeftDown
        } else {
            MouseKind::LeftUp
        },
        MouseButton::Right => if pressed {
            MouseKind::RightDown
        } else {
            MouseKind::RightUp
        },
        _ => if pressed {
            MouseKind::OtherDown
        } else {
            MouseKind::OtherUp
        },
    }
}

/// The number of a button. Back and forward have no name, they are the fourth and the fifth.
pub open spec fn button_number(button: MouseButton) -> u32 {
    match button {
        MouseButton::Left => 0,
        MouseButton::Right => 1,
        MouseButton::Middle => 2,
        MouseButton::Back => 3,
        MouseButton::Forward => 4,
    }
}

/// A move with a button down is a drag, of the button that went down first.
pub open spec fn motion(buttons: Seq<MouseButton>) -> MouseKind {
    if buttons.len() == 0 {
        MouseKind::Moved
    } else {
        match buttons[0] {
            MouseButton::Left => MouseKind::LeftDragged,
            MouseButton::Right => MouseKind::RightDragged,
            _ => MouseKind::OtherDragged,
        }
    }
}

pub open spec fn key_step(code: KeyCode, pressed: bool, flags: u64) -> Result<Posted, InputError> {
    match crate::input::keymap_macos::mac_key(code) {
        None => Err(InputError::UnsupportedKey(code)),
        Some(vk) => Ok(
            Posted::Key {
                vk,
                pressed,
                flags: if crate::input::keymap_macos::numpad(code) {
                    (flags + NUMERIC_PAD) as u64
                } else {
                    flags
                },
            },
        ),
    }
}

pub open spec fn button_release(button: MouseButton) -> Result<Posted, InputError> {
    Ok(
        Posted::Mouse {
            kind: click(button, false),
            button: button_number(button),
            at: None,
            flags: 0,
        },
    )
}

/// Every button goes up, then every key, without modifiers.
pub open spec fn release_steps(
    keys: Seq<KeyCode>,
    buttons: Seq<MouseButton>,
) -> Seq<Result<Posted, InputError>> {
    buttons.map_values(|b: MouseButton| button_release(b)) + keys.map_values(
        |k: KeyCode| key_step(k, false, 0),
    )
}

pub open spec fn keys_after(keys: Seq<KeyCode>, event: InputEvent) -> Seq<KeyCode> {
    match event {
        InputEvent::Key { code, pressed } => crate::input::held_after(keys, code, pressed),
        InputEvent::ReleaseAll => seq![],
        _ => keys,
    }
}

pub open spec fn buttons_after(buttons: Seq<MouseButton>, event: InputEvent) -> Seq<MouseButton> {
    match event {
        InputEvent::MouseButton { button, pressed, .. } => crate::input::held_after(
            buttons,
            button,
            pressed,
        ),
        InputEvent::ReleaseAll => seq![],
        _ => buttons,
    }
}

pub open spec fn steps(
    keys: Seq<KeyCode>,
    buttons: Seq<MouseButton>,
    event: InputEvent,
) -> Seq<Result<Posted, InputError>> {
    match event {
        InputEvent::MouseMove { x, y, .. } => seq![
            Ok(
                Posted::Mouse {
                    kind: motion(buttons),
                    button: if buttons.len() == 0 {
                        0
                    } else {
                        button_number(buttons[0])
                    },
                    at: Some((x, y)),
                    flags: flags_of(keys),
                },
            ),
        ],
        InputEvent::MouseButton { button, pressed, x, y, .. } => if pressed == buttons.contains(
            button,
        ) {
            seq![]
        } else {
            seq![
                Ok(
                    Posted::Mouse {
                        kind: click(button, pressed),
                        button: button_number(button),
                        at: Some((x, y)),
                        flags: flags_of(keys),
                    },
                ),
            ]
        },
        InputEvent::Scroll { delta_x, delta_y, .. } => seq![
            Ok(Posted::Scroll { delta_x, delta_y, flags: flags_of(keys) }),
        ],
        InputEvent::Key { code, pressed } => if pressed == keys.contains(code) {
            seq![]
        } else if pressed {
            // With its own flag, so that Cmd+C carries Cmd.
            seq![key_step(code, true, flags_of(keys_after(keys, event)))]
        } else {
            // With its own flag still, as on a real keyboard.
            seq![key_step(code, false, flags_of(keys))]
        },
        InputEvent::Text { text } => if text@.len() == 0 {
            seq![]
        } else {
            seq![Ok(Posted::Text { pressed: true }), Ok(Posted::Text { pressed: false })]
        },
        InputEvent::ReleaseAll => release_steps(keys, buttons),
    }
}

/// Whether `flag`, a power of two, is among `flags`.
pub open spec fn carries(flags: u64, flag: u64) -> bool {
    (flags / flag) % 2 == 1
}

/// A key that goes down carries the flag of each modifier that is down, itself counted, and of no
/// other: Cmd+C stays Cmd+C.
pub proof fn presses_carry_modifiers(
    keys: Seq<KeyCode>,
    buttons: Seq<MouseButton>,
    code: KeyCode,
    flag: u64,
)
    requires
        !keys.contains(code),
        crate::input::keymap_macos::mac_key(code) is Some,
        exists|m: KeyCode| #[trigger] crate::input::keymap_macos::modifier(m) == Some(flag),
    ensures
        steps(keys, buttons, InputEvent::Key { code, pressed: true }).len() == 1,
        match steps(keys, buttons, InputEvent::Key { code, pressed: true })[0] {
            Ok(Posted::Key { flags, .. }) => carries(flags, flag) == sets(keys.push(code), flag),
            _ => false,
        },
{
    let event = InputEvent::Key { code, pressed: true };
    assert(keys_after(keys, event) == keys.push(code));
    let down = keys.push(code);
    flags_are_carried(down, crate::input::keymap_macos::numpad(code), flag);
}

pub struct CgInjector {
    held: HeldState,
    /// Flags of the modifiers that are down. Every event carries them.
    flags: u64,
}

impl CgInjector {
    pub closed spec fn down(&self) -> Seq<KeyCode> {
        self.held.down()
    }

    pub closed spec fn clicked(&self) -> Seq<MouseButton> {
        self.held.clicked()
    }

    pub closed spec fn wf(&self) -> bool {
        self.held.wf() && self.flags == flags_of(self.held.down())
    }

    /// `trusted` is whether the system lets us control it, `source` whether it gave an event
    /// source.
    pub fn open(trusted: bool, source: bool) -> (r: Result<Self, InputError>)
        ensures
            match r {
                Ok(injector) => trusted && source && injector.wf() && injector.down() == Seq::<
                    KeyCode,
                >::empty() && injector.clicked() == Seq::<MouseButton>::empty(),
                Err(InputError::PermissionDenied) => !trusted,
                Err(InputError::Platform(reason)) => trusted && !source && reason@
                    == "không tạo được CGEventSource"@,
                Err(_) => false,
            },
    {
        if !trusted {
            return Err(InputError::PermissionDenied);
        }
        if !source {
            return Err(InputError::Platform("không tạo được CGEventSource".to_owned()));
        }
        Ok(CgInjector { held: HeldState::default(), flags: 0 })
    }

    pub fn is_idle(&self) -> (r: bool)
        ensures
            r == (self.down().len() == 0 && self.clicked().len() == 0),
    {
        self.held.is_empty()
    }

    fn refresh_flags(&mut self)
        requires
            old(self).held.wf(),
        ensures
            final(self).wf(),
            final(self).held == old(self).held,
    {
        let keys = self.held.keys();
        let caps: u64 = if has(keys, 65536) { 65536 } else { 0 };
        let shift: u64 = if has(keys, 131072) { 131072 } else { 0 };
        let control: u64 = if has(keys, 262144) { 262144 } else { 0 };
        let alt: u64 = if has(keys, 524288) { 524288 } else { 0 };
        let command: u64 = if has(keys, 1048576) { 1048576 } else { 0 };
        self.flags = caps + shift + control + alt + command;
    }

    fn mouse_type(button: MouseButton, pressed: bool) -> (r: MouseKind)
        ensures
            r == click(button, pressed),
    {
        match (button, pressed) {
            (MouseButton::Left, true) => MouseKind::LeftDown,
            (MouseButton::Left, false) => MouseKind::LeftUp,
            (MouseButton::Right, true) => MouseKind::RightDown,
            (MouseButton::Right, false) => MouseKind::RightUp,
            (_, true) => MouseKind::OtherDown,
            (_, false) => MouseKind::OtherUp,
        }
    }

    fn mouse_button(button: MouseButton) -> (r: u32)
        ensures
            r == button_number(button),
    {
        match button {
            MouseButton::Left => 0,
            MouseButton::Right => 1,
            MouseButton::Middle => 2,
            MouseButton::Back => 3,
            MouseButton::Forward => 4,
        }
    }

    fn move_type(&self) -> (r: MouseKind)
        ensures
            r == motion(self.clicked()),
    {
        let buttons = self.held.buttons();
        if buttons.len() == 0 {
            return MouseKind::Moved;
        }
        match buttons[0] {
            MouseButton::Left => MouseKind::LeftDragged,
            MouseButton::Right => MouseKind::RightDragged,
            _ => MouseKind::OtherDragged,
        }
    }

    fn post_key(&self, code: KeyCode, pressed: bool) -> (r: Result<Posted, InputError>)
        requires
            self.flags <= 2031616,
        ensures
            r == key_step(code, pressed, self.flags),
    {
        match virtual_key(code) {
            None => Err(InputError::UnsupportedKey(code)),
            Some(vk) => {
                let flags: u64 = if is_numpad(code) { self.flags + NUMERIC_PAD } else { self.flags };
                Ok(Posted::Key { vk, pressed, flags })
            },
        }
    }

    /// What to post for an event. Repeats of what is already down or up are dropped.
    pub fn inject(&mut self, event: &InputEvent) -> (r: Plan)
        requires
            old(self).wf(),
        ensures
            final(self).wf(),
            final(self).down() == keys_after(old(self).down(), *event),
            final(self).clicked() == buttons_after(old(self).clicked(), *event),
            r.steps@ == steps(old(self).down(), old(self).clicked(), *event),
            r.units@ == (match *event {
                InputEvent::Text { text } => crate::text::utf16(text@),
                _ => seq![],
            }),
            r.keep_going == (*event is ReleaseAll),
            *event matches InputEvent::MouseMove { x, y, .. } ==> r.steps@.len() == 1 && (
            r.steps@[0] matches Ok(Posted::Mouse { at: Some(to), .. }) && to.0 == x && to.1 == y),
            *event matches InputEvent::MouseButton { x, y, .. } ==> (r.steps@.len() > 0 ==> (
            r.steps@[0] matches Ok(Posted::Mouse { at: Some(to), .. }) && to.0 == x && to.1 == y)),
            *event matches InputEvent::Scroll { delta_x, delta_y, .. } ==> r.steps@.len() == 1 && (
            r.steps@[0] matches Ok(Posted::Scroll { delta_x: across, delta_y: down, .. }) && across
                == delta_x && down == delta_y),
    {
        let mut steps: Vec<Result<Posted, InputError>> = Vec::new();
        let mut units: Vec<u16> = Vec::new();
        match event {
            InputEvent::MouseMove { monitor: _, x, y } => {
                let buttons = self.held.buttons();
                let button: u32 = if buttons.len() == 0 {
                    0
                } else {
                    Self::mouse_button(buttons[0])
                };
                steps.push(
                    Ok(
                        Posted::Mouse {
                            kind: self.move_type(),
                            button,
                            at: Some((*x, *y)),
                            flags: self.flags,
                        },
                    ),
                );
            },
            InputEvent::MouseButton { monitor: _, button, pressed, x, y } => {
                if self.held.set_button(*button, *pressed) {
                    steps.push(
                        Ok(
                            Posted::Mouse {
                                kind: Self::mouse_type(*button, *pressed),
                                button: Self::mouse_button(*button),
                                at: Some((*x, *y)),
                                flags: self.flags,
                            },
                        ),
                    );
                }
            },
            InputEvent::Scroll { monitor: _, delta_x, delta_y } => {
                steps.push(
                    Ok(
                        Posted::Scroll {
                            delta_x: *delta_x,
                            delta_y: *delta_y,
                            flags: self.flags,
                        },
                    ),
                );
            },
            InputEvent::Key { code, pressed } => {
                if self.held.set_key(*code, *pressed) {
                    if *pressed {
                        self.refresh_flags();
                        steps.push(self.post_key(*code, true));
                    } else {
                        steps.push(self.post_key(*code, false));
                        self.refresh_flags();
                    }
                }
            },
            InputEvent::Text { text } => {
                units = crate::text::utf16_of(text.as_str());
                proof {
                    crate::text::utf16_is_empty(text@);
                }
                if units.len() != 0 {
                    steps.push(Ok(Posted::Text { pressed: true }));
                    steps.push(Ok(Posted::Text { pressed: false }));
                }
            },
            InputEvent::ReleaseAll => {
                return self.release_all();
            },
        }
        Plan { steps, units, keep_going: false }
    }

    /// What to post so that nothing stays down. A step that fails does not stop the others: that
    /// would leave keys stuck.
    pub fn release_all(&mut self) -> (r: Plan)
        ensures
            final(self).wf(),
            final(self).down() == Seq::<KeyCode>::empty(),
            final(self).clicked() == Seq::<MouseButton>::empty(),
            r.steps@ == release_steps(old(self).down(), old(self).clicked()),
            r.units@ == Seq::<u16>::empty(),
            r.keep_going,
    {
        let (keys, buttons) = self.held.drain();
        self.flags = 0;
        let mut steps: Vec<Result<Posted, InputError>> = Vec::new();
        let mut i: usize = 0;
        while i < buttons.len()
            invariant
                i <= buttons@.len(),
                steps@ == buttons@.take(i as int).map_values(|b: MouseButton| button_release(b)),
            decreases buttons@.len() - i,
        {
            steps.push(
                Ok(
                    Posted::Mouse {
                        kind: Self::mouse_type(buttons[i], false),
                        button: Self::mouse_button(buttons[i]),
                        at: None,
                        flags: 0,
                    },
                ),
            );
            i += 1;
            assert(steps@ =~= buttons@.take(i as int).map_values(
                |b: MouseButton| button_release(b),
            ));
        }
        assert(buttons@.take(i as int) =~= buttons@);
        let ghost ups = steps@;
        let mut k: usize = 0;
        while k < keys.len()
            invariant
                k <= keys@.len(),
                self.flags == 0,
                steps@ == ups + keys@.take(k as int).map_values(
                    |c: KeyCode| key_step(c, false, 0),
                ),
            decreases keys@.len() - k,
        {
            steps.push(self.post_key(keys[k], false));
            k += 1;
            assert(steps@ =~= ups + keys@.take(k as int).map_values(
                |c: KeyCode| key_step(c, false, 0),
            ));
        }
        assert(keys@.take(k as int) =~= keys@);
        Plan { steps, units: Vec::new(), keep_going: true }
    }
}

/// The pointer goes where the event says, across by `x` and down by `y`, in one step. While a
/// button is down it drags that button, the first one of several; else it only moves. It carries
/// the modifiers that are down.
pub proof fn moves_go_where_they_say(
    keys: Seq<KeyCode>,
    buttons: Seq<MouseButton>,
    monitor: u8,
    x: Real32,
    y: Real32,
    flag: u64,
)
    requires
        exists|m: KeyCode| #[trigger] crate::input::keymap_macos::modifier(m) == Some(flag),
    ensures
        ({
            let all = steps(keys, buttons, InputEvent::MouseMove { monitor, x, y });
            &&& all.len() == 1
            &&& all[0] matches Ok(Posted::Mouse { kind, button, at: Some(to), flags })
            &&& to.0 == x
            &&& to.1 == y
            &&& kind is Moved <==> buttons.len() == 0
            &&& kind is LeftDragged <==> buttons.len() > 0 && buttons[0] is Left
            &&& kind is RightDragged <==> buttons.len() > 0 && buttons[0] is Right
            &&& kind is OtherDragged <==> buttons.len() > 0 && !(buttons[0] is Left) && !(
            buttons[0] is Right)
            &&& buttons.len() > 0 ==> numbered(button) == Some(buttons[0])
            &&& buttons.len() == 0 ==> button == 0
            &&& carries(flags, flag) == sets(keys, flag)
        }),
{
    flags_are_carried(keys, false, flag);
}

/// The button that a number stands for.
pub open spec fn numbered(button: u32) -> Option<MouseButton> {
    if button == 0 {
        Some(MouseButton::Left)
    } else if button == 1 {
        Some(MouseButton::Right)
    } else if button == 2 {
        Some(MouseButton::Middle)
    } else if button == 3 {
        Some(MouseButton::Back)
    } else if button == 4 {
        Some(MouseButton::Forward)
    } else {
        None
    }
}

/// A button goes down or up where the event says, in one step, and only where that changes
/// anything. The step names the button, and carries the modifiers that are down.
pub proof fn clicks_go_where_they_say(
    keys: Seq<KeyCode>,
    buttons: Seq<MouseButton>,
    monitor: u8,
    button: MouseButton,
    pressed: bool,
    x: Real32,
    y: Real32,
    flag: u64,
)
    requires
        exists|m: KeyCode| #[trigger] crate::input::keymap_macos::modifier(m) == Some(flag),
    ensures
        ({
            let all = steps(
                keys,
                buttons,
                InputEvent::MouseButton { monitor, button, pressed, x, y },
            );
            &&& all.len() == 0 <==> pressed == buttons.contains(button)
            &&& all.len() > 0 ==> {
                &&& all.len() == 1
                &&& all[0] matches Ok(Posted::Mouse { kind, button: number, at: Some(to), flags })
                &&& to.0 == x
                &&& to.1 == y
                &&& numbered(number) == Some(button)
                &&& kind is LeftDown <==> button is Left && pressed
                &&& kind is LeftUp <==> button is Left && !pressed
                &&& kind is RightDown <==> button is Right && pressed
                &&& kind is RightUp <==> button is Right && !pressed
                &&& kind is OtherDown <==> !(button is Left || button is Right) && pressed
                &&& kind is OtherUp <==> !(button is Left || button is Right) && !pressed
                &&& carries(flags, flag) == sets(keys, flag)
            }
        }),
{
    flags_are_carried(keys, false, flag);
}

/// A scroll goes across by what the event says across and down by what it says down, in one step
/// that carries the modifiers that are down.
pub proof fn scrolls_go_as_they_say(
    keys: Seq<KeyCode>,
    buttons: Seq<MouseButton>,
    monitor: u8,
    delta_x: Real32,
    delta_y: Real32,
    flag: u64,
)
    requires
        exists|m: KeyCode| #[trigger] crate::input::keymap_macos::modifier(m) == Some(flag),
    ensures
        ({
            let all = steps(keys, buttons, InputEvent::Scroll { monitor, delta_x, delta_y });
            &&& all.len() == 1
            &&& all[0] matches Ok(Posted::Scroll { delta_x: across, delta_y: down, flags })
            &&& across == delta_x
            &&& down == delta_y
            &&& carries(flags, flag) == sets(keys, flag)
        }),
{
    flags_are_carried(keys, false, flag);
}

#[verifier::spinoff_prover]
#[verifier::rlimit(60)]
proof fn flags_are_carried(keys: Seq<KeyCode>, pad: bool, flag: u64)
    requires
        exists|m: KeyCode| #[trigger] crate::input::keymap_macos::modifier(m) == Some(flag),
    ensures
        ({
            let flags = (flags_of(keys) + if pad {
                2097152int
            } else {
                0
            }) as u64;
            &&& carries(flags, flag) == sets(keys, flag)
            &&& carries(flags, 2097152) == pad
        }),
{
    assert(flag == 65536 || flag == 131072 || flag == 262144 || flag == 524288 || flag == 1048576);
    let flags = (flags_of(keys) + if pad {
        2097152int
    } else {
        0
    }) as u64;
    assert((flags / 65536u64) % 2 == 1 <==> sets(keys, 65536));
    assert((flags / 131072u64) % 2 == 1 <==> sets(keys, 131072));
    assert((flags / 262144u64) % 2 == 1 <==> sets(keys, 262144));
    assert((flags / 524288u64) % 2 == 1 <==> sets(keys, 524288));
    assert((flags / 1048576u64) % 2 == 1 <==> sets(keys, 1048576));
    assert((flags / 2097152u64) % 2 == 1 <==> pad);
}

/// A key goes down or up in one step, and only where that changes anything. The step has the key's
/// code; a key without one fails and is named. A key that goes up still carries its own modifier,
/// and one of the numeric pad is marked as such.
pub proof fn keys_go_as_they_say(
    keys: Seq<KeyCode>,
    buttons: Seq<MouseButton>,
    code: KeyCode,
    pressed: bool,
    flag: u64,
)
    requires
        keys.no_duplicates(),
        exists|m: KeyCode| #[trigger] crate::input::keymap_macos::modifier(m) == Some(flag),
    ensures
        ({
            let all = steps(keys, buttons, InputEvent::Key { code, pressed });
            &&& all.len() == 0 <==> pressed == keys.contains(code)
            &&& all.len() > 0 ==> all.len() == 1 && match all[0] {
                Ok(Posted::Key { vk, pressed: down, flags }) => {
                    &&& crate::input::keymap_macos::key_of(vk) == Some(code)
                    &&& down == pressed
                    &&& carries(flags, flag) == (sets(keys, flag)
                        || crate::input::keymap_macos::modifier(code) == Some(flag))
                    &&& carries(flags, 2097152) == crate::input::keymap_macos::numpad(code)
                },
                Err(InputError::UnsupportedKey(named)) => named == code
                    && crate::input::keymap_macos::mac_key(code) is None,
                _ => false,
            }
        }),
{
    let event = InputEvent::Key { code, pressed };
    let pad = crate::input::keymap_macos::numpad(code);
    crate::input::keymap_macos::keys_are_found_by_their_codes(code);
    if pressed && !keys.contains(code) {
        let down = keys.push(code);
        assert(keys_after(keys, event) == down);
        flags_are_carried(down, pad, flag);
        if sets(keys, flag) {
            let i = choose|i: int|
                0 <= i < keys.len() && #[trigger] crate::input::keymap_macos::modifier(keys[i])
                    == Some(flag);
            assert(down[i] == keys[i]);
        }
        if crate::input::keymap_macos::modifier(code) == Some(flag) {
            assert(down[keys.len() as int] == code);
        }
        if sets(down, flag) {
            let i = choose|i: int|
                0 <= i < down.len() && #[trigger] crate::input::keymap_macos::modifier(down[i])
                    == Some(flag);
            if i < keys.len() {
                assert(crate::input::keymap_macos::modifier(keys[i]) == Some(flag));
            }
        }
    } else if !pressed && keys.contains(code) {
        flags_are_carried(keys, pad, flag);
        let i = choose|i: int| 0 <= i < keys.len() && keys[i] == code;
        if crate::input::keymap_macos::modifier(code) == Some(flag) {
            assert(crate::input::keymap_macos::modifier(keys[i]) == Some(flag));
        }
    }
}

/// A text is typed by one event that goes down and one that goes up; an empty one by none.
pub proof fn texts_go_down_and_up(keys: Seq<KeyCode>, buttons: Seq<MouseButton>, text: String)
    ensures
        ({
            let all = steps(keys, buttons, InputEvent::Text { text });
            &&& text@.len() == 0 ==> all.len() == 0
            &&& text@.len() > 0 ==> all.len() == 2 && all[0] == Ok::<Posted, InputError>(
                Posted::Text { pressed: true },
            ) && all[1] == Ok::<Posted, InputError>(Posted::Text { pressed: false })
        }),
{
}

/// When everything is released, each held button goes up, and then each held key, in the order in
/// which they went down; the pointer stays, and no modifier is carried. Then nothing is held.
pub proof fn everything_goes_up(keys: Seq<KeyCode>, buttons: Seq<MouseButton>, i: int)
    requires
        0 <= i < buttons.len() + keys.len(),
    ensures
        ({
            let all = steps(keys, buttons, InputEvent::ReleaseAll);
            &&& all.len() == buttons.len() + keys.len()
            &&& i < buttons.len() ==> {
                &&& all[i] matches Ok(Posted::Mouse { kind, button, at, flags })
                &&& (kind is LeftUp || kind is RightUp || kind is OtherUp)
                &&& kind is LeftUp <==> buttons[i] is Left
                &&& kind is RightUp <==> buttons[i] is Right
                &&& numbered(button) == Some(buttons[i])
                &&& at is None
                &&& flags == 0
            }
            &&& i >= buttons.len() ==> match all[i] {
                Ok(Posted::Key { vk, pressed, flags }) => {
                    let code = keys[i - buttons.len()];
                    &&& crate::input::keymap_macos::key_of(vk) == Some(code)
                    &&& !pressed
                    &&& flags as int == if crate::input::keymap_macos::numpad(code) {
                        2097152int
                    } else {
                        0
                    }
                },
                Err(InputError::UnsupportedKey(named)) => named == keys[i - buttons.len()]
                    && crate::input::keymap_macos::mac_key(named) is None,
                _ => false,
            }
            &&& keys_after(keys, InputEvent::ReleaseAll).len() == 0
            &&& buttons_after(buttons, InputEvent::ReleaseAll).len() == 0
        }),
{
    if i >= buttons.len() {
        crate::input::keymap_macos::keys_are_found_by_their_codes(keys[i - buttons.len()]);
    }
}

/// Only keys change which keys are held, and only clicks which buttons are; to release everything
/// changes both.
pub proof fn each_event_changes_its_own(
    keys: Seq<KeyCode>,
    buttons: Seq<MouseButton>,
    event: InputEvent,
)
    requires
        keys.no_duplicates(),
        buttons.no_duplicates(),
    ensures
        !(event is Key) && !(event is ReleaseAll) ==> keys_after(keys, event) == keys,
        !(event is MouseButton) && !(event is ReleaseAll) ==> buttons_after(buttons, event)
            == buttons,
        event matches InputEvent::Key { code, pressed } ==> keys_after(keys, event).contains(code)
            == pressed,
        event matches InputEvent::MouseButton { button, pressed, .. } ==> buttons_after(
            buttons,
            event,
        ).contains(button) == pressed,
{
    if let InputEvent::Key { code, pressed } = event {
        crate::input::held_is_what_went_down(keys, code, pressed, code);
    }
    if let InputEvent::MouseButton { button, pressed, .. } = event {
        crate::input::held_is_what_went_down(buttons, button, pressed, button);
    }
}

/// A call posts what the event says and notes what is held by it: only a release goes on behind a
/// failure, only a text carries units, and what was pressed is held until it is let go.
pub proof fn calls_post_what_the_event_says(
    injector: &mut CgInjector,
    event: InputEvent,
    plan: Plan,
)
    requires
        old(injector).wf(),
        call_ensures(CgInjector::inject, (injector, &event), plan),
    ensures
        plan.keep_going <==> event is ReleaseAll,
        !(event is Text) ==> plan.units@.len() == 0,
        event matches InputEvent::Text { text } ==> plan.units@ == crate::text::utf16(text@),
        event matches InputEvent::Key { code, pressed } ==> final(injector).down().contains(code)
            == pressed && final(injector).clicked() == old(injector).clicked() && (
        plan.steps@.len() == 0 <==> pressed == old(injector).down().contains(code)),
        event matches InputEvent::MouseButton { button, pressed, .. } ==> final(injector).clicked().contains(button) == pressed && final(injector).down() == old(injector).down()
            && (plan.steps@.len() == 0 <==> pressed == old(injector).clicked().contains(button)),
        event is MouseMove || event is Scroll || event is Text ==> final(injector).down() == old(injector).down() && final(injector).clicked() == old(injector).clicked(),
        event is ReleaseAll ==> final(injector).down().len() == 0 && final(injector).clicked().len() == 0 && plan.steps@.len() == old(injector).down().len() + old(injector).clicked().len(),
{
    let keys = old(injector).down();
    let buttons = old(injector).clicked();
    assert(keys.no_duplicates() && buttons.no_duplicates());
    each_event_changes_its_own(keys, buttons, event);
    assert(crate::input::keymap_macos::modifier(KeyCode::ShiftLeft) == Some(131072u64));
    match event {
        InputEvent::Key { code, pressed } => {
            keys_go_as_they_say(keys, buttons, code, pressed, 131072);
        },
        InputEvent::MouseButton { monitor, button, pressed, x, y } => {
            clicks_go_where_they_say(keys, buttons, monitor, button, pressed, x, y, 131072);
        },
        _ => {},
    }
}

/// To let everything go is the same as the event that says so, and an injector that holds nothing
/// is idle.
pub proof fn letting_go_is_an_event(
    first: &mut CgInjector,
    second: &mut CgInjector,
    one: Plan,
    two: Plan,
    idle: bool,
)
    requires
        *old(first) == *old(second),
        old(second).wf(),
        call_ensures(CgInjector::release_all, (first,), one),
        call_ensures(CgInjector::inject, (second, &InputEvent::ReleaseAll), two),
        call_ensures(CgInjector::is_idle, (final(first),), idle),
    ensures
        one.steps@ == two.steps@,
        one.units@ == two.units@,
        one.keep_going == two.keep_going,
        idle,
        final(first).down().len() == 0,
        final(first).clicked().len() == 0,
{
}

/// Injecting needs the permission first and a source of events second, and begins with nothing
/// held.
pub proof fn injecting_needs_a_permission(
    trusted: bool,
    source: bool,
    r: Result<CgInjector, InputError>,
)
    requires
        call_ensures(CgInjector::open, (trusted, source), r),
    ensures
        r is Ok <==> trusted && source,
        !trusted ==> r matches Err(InputError::PermissionDenied),
        trusted && !source ==> r matches Err(InputError::Platform(_)),
        r matches Ok(injector) ==> injector.down().len() == 0 && injector.clicked().len() == 0,
{
}

} // verus!
