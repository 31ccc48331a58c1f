//! Mouse and keyboard events for the host.
//!
//! * **Stuck keys.** A link that breaks while a key is down must not leave it down: what is held
//!   is remembered and released.
//! * **Modifier flags.** On macOS every event brings the flags of the modifiers that are down,
//!   else Cmd+C becomes C. Windows follows the keyboard by itself.

use vstd::prelude::*;
use vstd::string::StringExecFns;

use crate::protocol::control::{KeyCode, MouseButton};

pub mod keymap_macos;
pub mod keymap_windows;
pub mod macos;
pub mod windows;

verus! {

#[derive(Debug, Clone, PartialEq, Eq)]
pub enum InputError {
    /// The system does not let us control it.
    PermissionDenied,
    /// An event could not be made.
    Platform(String),
    /// There is no such key on this platform.
    UnsupportedKey(KeyCode),
}

impl InputError {
    pub open spec fn text(self) -> Seq<char> {
        match self {
            InputError::PermissionDenied =>
                "hệ điều hành từ chối quyền điều khiển — cấp quyền trong System Settings > Privacy & Security > Accessibility rồi chạy lại"@,
            InputError::Platform(reason) => "không tạo được sự kiện: "@ + reason@,
            InputError::UnsupportedKey(code) => "mã phím "@ + code.label()
                + " không có trên nền tảng này"@,
        }
    }

    /// The error in words.
    pub fn message(&self) -> (s: String)
        ensures
            s@ == self.text(),
    {
        let mut s: String = String::new();
        match self {
            InputError::PermissionDenied => {
                s.append(
                    "hệ điều hành từ chối quyền điều khiển — cấp quyền trong System Settings > Privacy & Security > Accessibility rồi chạy lại",
                );
            },
            InputError::Platform(reason) => {
                s.append("không tạo được sự kiện: ");
                s.append(reason.as_str());
            },
            InputError::UnsupportedKey(code) => {
                s.append("mã phím ");
                s.append(code.name());
                s.append(" không có trên nền tảng này");
            },
        }
        assert(s@ =~= self.text());
        s
    }
}

/// Checks the size that the system gave for the main screen.
pub fn main_screen_geometry(width: i64, height: i64) -> (r: Result<(i64, i64), InputError>)
    ensures
        match r {
            Ok(size) => width > 0 && height > 0 && size == (width, height),
            Err(InputError::Platform(reason)) => (width <= 0 || height <= 0) && reason@
                == "không đọc được kích thước màn hình"@,
            Err(_) => false,
        },
{
    if width <= 0 || height <= 0 {
        return Err(InputError::Platform("không đọc được kích thước màn hình".to_owned()));
    }
    Ok((width, height))
}

/// What is held down.
#[derive(Debug, Clone)]
pub struct HeldState {
    keys: Vec<KeyCode>,
    buttons: Vec<MouseButton>,
}

/// What is held after a press or a release. A press adds at the end, a release takes out; a press
/// of what is down and a release of what is up change nothing.
pub open spec fn held_after<T>(held: Seq<T>, x: T, pressed: bool) -> Seq<T> {
    if pressed && !held.contains(x) {
        held.push(x)
    } else if !pressed && held.contains(x) {
        held.remove(held.index_of(x))
    } else {
        held
    }
}

impl Default for HeldState {
    fn default() -> (r: Self)
        ensures
            r.wf(),
            r.down() == Seq::<KeyCode>::empty(),
            r.clicked() == Seq::<MouseButton>::empty(),
    {
        HeldState { keys: Vec::new(), buttons: Vec::new() }
    }
}

impl HeldState {
    pub closed spec fn down(&self) -> Seq<KeyCode> {
        self.keys@
    }

    pub closed spec fn clicked(&self) -> Seq<MouseButton> {
        self.buttons@
    }

    /// Nothing is held twice.
    pub open spec fn wf(&self) -> bool {
        self.down().no_duplicates() && self.clicked().no_duplicates()
    }

    /// Notes a key. `false` where nothing changed: such an event must not be passed on, for a
    /// keyboard repeats a key that is held and the host would get it twice.
    pub fn set_key(&mut self, code: KeyCode, pressed: bool) -> (r: bool)
        requires
            old(self).wf(),
        ensures
            final(self).wf(),
            r == (pressed != old(self).down().contains(code)),
            final(self).down() == held_after(old(self).down(), code, pressed),
            final(self).clicked() == old(self).clicked(),
    {
        let mut i: usize = 0;
        while i < self.keys.len() && self.keys[i] != code
            invariant
                i <= self.keys@.len(),
                forall|j: int| 0 <= j < i ==> self.keys@[j] != code,
            decreases self.keys@.len() - i,
        {
            i += 1;
        }
        let known: bool = i < self.keys.len();
        proof {
            if known {
                assert(self.keys@[i as int] == code);
                assert(self.keys@.index_of(code) == i);
            }
            assert(known == self.keys@.contains(code));
        }
        if pressed && !known {
            self.keys.push(code);
            true
        } else if !pressed && known {
            let _ = self.keys.remove(i);
            assert(self.keys@ =~= old(self).keys@.remove(i as int));
            true
        } else {
            false
        }
    }

    pub fn set_button(&mut self, button: MouseButton, pressed: bool) -> (r: bool)
        requires
            old(self).wf(),
        ensures
            final(self).wf(),
            r == (pressed != old(self).clicked().contains(button)),
            final(self).clicked() == held_after(old(self).clicked(), button, pressed),
            final(self).down() == old(self).down(),
    {
        let mut i: usize = 0;
        while i < self.buttons.len() && self.buttons[i] != button
            invariant
                i <= self.buttons@.len(),
                forall|j: int| 0 <= j < i ==> self.buttons@[j] != button,
            decreases self.buttons@.len() - i,
        {
            i += 1;
        }
        let known: bool = i < self.buttons.len();
        proof {
            if known {
                assert(self.buttons@[i as int] == button);
                assert(self.buttons@.index_of(button) == i);
            }
            assert(known == self.buttons@.contains(button));
        }
        if pressed && !known {
            self.buttons.push(button);
            true
        } else if !pressed && known {
            let _ = self.buttons.remove(i);
            assert(self.buttons@ =~= old(self).buttons@.remove(i as int));
            true
        } else {
            false
        }
    }

    /// The keys that are down, in the order in which they went down.
    pub fn keys(&self) -> (r: &[KeyCode])
        ensures
            r@ == self.down(),
    {
        self.keys.as_slice()
    }

    /// The buttons that are down, in the order in which they went down.
    pub fn buttons(&self) -> (r: &[MouseButton])
        ensures
            r@ == self.clicked(),
    {
        self.buttons.as_slice()
    }

    pub fn is_empty(&self) -> (r: bool)
        ensures
            r == (self.down().len() == 0 && self.clicked().len() == 0),
    {
        self.keys.len() == 0 && self.buttons.len() == 0
    }

    /// Hands out everything that is held and forgets it, so that the caller can release it.
    pub fn drain(&mut self) -> (r: (Vec<KeyCode>, Vec<MouseButton>))
        ensures
            r.0@ == old(self).down(),
            r.1@ == old(self).clicked(),
            final(self).wf(),
            final(self).down() == Seq::<KeyCode>::empty(),
            final(self).clicked() == Seq::<MouseButton>::empty(),
    {
        let mut keys: Vec<KeyCode> = Vec::new();
        let mut buttons: Vec<MouseButton> = Vec::new();
        keys.append(&mut self.keys);
        buttons.append(&mut self.buttons);
        assert(keys@ =~= old(self).keys@);
        assert(buttons@ =~= old(self).buttons@);
        (keys, buttons)
    }
}

/// A press and a release of what was not held leave everything as it was.
pub proof fn release_undoes_press<T>(held: Seq<T>, x: T)
    requires
        !held.contains(x),
    ensures
        held_after(held_after(held, x, true), x, false) == held,
{
    let more = held.push(x);
    assert(more[held.len() as int] == x);
    assert(more.contains(x));
    assert forall|j: int| 0 <= j < held.len() implies more[j] != x by {
        assert(held.contains(held[j]));
    }
    assert(more.index_of(x) == held.len());
    assert(more.remove(held.len() as int) =~= held);
}

/// An event that repeats the last one changes nothing.
pub proof fn repeats_change_nothing<T>(held: Seq<T>, x: T, pressed: bool)
    requires
        held.no_duplicates(),
    ensures
        held_after(held_after(held, x, pressed), x, pressed) == held_after(held, x, pressed),
{
    let once = held_after(held, x, pressed);
    if pressed {
        if !held.contains(x) {
            assert(once[held.len() as int] == x);
        }
        assert(once.contains(x));
    } else if held.contains(x) {
        let i = held.index_of(x);
        assert(held[i] == x);
        if once.contains(x) {
            let j = choose|j: int| 0 <= j < once.len() && once[j] == x;
            assert(held[if j < i { j } else { j + 1 }] == x);
        }
    }
}

/// Afterwards exactly what was pressed, or was held before and not released, is held. What was held
/// keeps its order, and what is pressed anew comes last. Nothing is held twice.
pub proof fn held_is_what_went_down<T>(held: Seq<T>, x: T, pressed: bool, y: T)
    requires
        held.no_duplicates(),
    ensures
        ({
            let after = held_after(held, x, pressed);
            &&& after.no_duplicates()
            &&& after.contains(x) == pressed
            &&& y != x ==> after.contains(y) == held.contains(y)
            &&& pressed && !held.contains(x) ==> after.last() == x && after.drop_last() == held
            &&& pressed && held.contains(x) ==> after == held
            &&& !pressed ==> after == held.filter(|z: T| z != x)
        }),
{
    let after = held_after(held, x, pressed);
    if pressed && !held.contains(x) {
        assert(after[held.len() as int] == x);
        assert(after.drop_last() =~= held);
        assert forall|i: int, j: int|
            0 <= i < after.len() && 0 <= j < after.len() && i != j implies after[i] != after[j] by {
            if i < held.len() {
                assert(held.contains(held[i]));
            }
            if j < held.len() {
                assert(held.contains(held[j]));
            }
        }
        if held.contains(y) {
            let k = choose|k: int| 0 <= k < held.len() && held[k] == y;
            assert(after[k] == y);
        }
        if after.contains(y) && y != x {
            let k = choose|k: int| 0 <= k < after.len() && after[k] == y;
            assert(held[k] == y);
        }
    } else if !pressed {
        without_one(held, x);
        if held.contains(x) {
            let i = held.index_of(x);
            assert(held[i] == x);
            assert forall|j: int| 0 <= j < after.len() implies #[trigger] after[j] == held[if j < i {
                j
            } else {
                j + 1
            }] by {}
            if after.contains(x) {
                let j = choose|j: int| 0 <= j < after.len() && after[j] == x;
                assert(held[if j < i { j } else { j + 1 }] == x);
            }
            if held.contains(y) && y != x {
                let j = choose|j: int| 0 <= j < held.len() && held[j] == y;
                assert(after[if j < i { j } else { j - 1 }] == y);
            }
            if after.contains(y) {
                let j = choose|j: int| 0 <= j < after.len() && after[j] == y;
                assert(held[if j < i { j } else { j + 1 }] == y);
            }
        }
    }
}

proof fn without_one<T>(held: Seq<T>, x: T)
    requires
        held.no_duplicates(),
    ensures
        held_after(held, x, false) == held.filter(|z: T| z != x),
    decreases held.len(),
{
    reveal(Seq::filter);
    if held.len() > 0 {
        let front = held.drop_last();
        without_one(front, x);
        let after = held_after(held, x, false);
        assert(held == front.push(held.last()));
        if held.last() == x {
            assert(held[held.len() - 1] == x);
            assert(held.contains(x));
            let i = held.index_of(x);
            assert(held[i] == x);
            assert(i == held.len() - 1);
            assert(after =~= front);
            if front.contains(x) {
                let j = choose|j: int| 0 <= j < front.len() && front[j] == x;
                assert(held[j] == x);
            }
        } else if front.contains(x) {
            let j = choose|j: int| 0 <= j < front.len() && front[j] == x;
            assert(held[j] == x);
            let i = held.index_of(x);
            assert(held[i] == x && i == j);
            let k = front.index_of(x);
            assert(front[k] == x);
            assert(held[k] == x);
            assert(k == i);
            assert(after =~= front.remove(i).push(held.last()));
        } else {
            if held.contains(x) {
                let j = choose|j: int| 0 <= j < held.len() && held[j] == x;
                assert(front[j] == x);
            }
            assert(after =~= front.push(held.last()));
        }
    } else {
        assert(held_after(held, x, false) =~= held);
    }
}

/// The words of an error say the reason or the key.
pub proof fn errors_say_their_reason(error: &InputError, s: String)
    requires
        call_ensures(InputError::message, (error,), s),
    ensures
        *error matches InputError::Platform(reason) ==> crate::text::says(s@, reason@),
        *error matches InputError::UnsupportedKey(code) ==> crate::text::says(s@, code.label()),
{
    let none = Seq::<char>::empty();
    match *error {
        InputError::Platform(reason) => {
            crate::text::parts_are_said("không tạo được sự kiện: "@, reason@, none, none, none);
        },
        InputError::UnsupportedKey(code) => {
            crate::text::parts_are_said(
                "mã phím "@,
                code.label(),
                none,
                none,
                " không có trên nền tảng này"@,
            );
        },
        _ => {},
    }
}

/// A screen has a size where both edges are positive, and it is the one that was read.
pub proof fn screens_have_positive_edges(
    width: i64,
    height: i64,
    r: Result<(i64, i64), InputError>,
)
    requires
        call_ensures(main_screen_geometry, (width, height), r),
    ensures
        r is Ok <==> width > 0 && height > 0,
        r matches Ok(size) ==> size.0 == width && size.1 == height,
{
}

/// A key or a button that changes is told so once: it is held from its press to its release, and the
/// others are left alone. Draining hands out all that is held.
pub proof fn presses_are_held_until_released(
    pressing: &mut HeldState,
    again: &mut HeldState,
    draining: &mut HeldState,
    code: KeyCode,
    one: bool,
    two: bool,
    all: (Vec<KeyCode>, Vec<MouseButton>),
    other: KeyCode,
)
    requires
        old(pressing).wf(),
        call_ensures(HeldState::set_key, (pressing, code, true), one),
        *old(again) == *final(pressing),
        call_ensures(HeldState::set_key, (again, code, true), two),
        *old(draining) == *final(again),
        call_ensures(HeldState::drain, (draining,), all),
        other != code,
    ensures
        one <==> !old(pressing).down().contains(code),
        !two,
        final(again).down().contains(code),
        final(again).down().contains(other) == old(pressing).down().contains(other),
        final(again).clicked() == old(pressing).clicked(),
        all.0@ == final(again).down(),
        all.1@ == old(pressing).clicked(),
        final(draining).down().len() == 0 && final(draining).clicked().len() == 0,
{
    held_is_what_went_down(old(pressing).down(), code, true, other);
    held_is_what_went_down(old(pressing).down(), code, true, code);
    held_is_what_went_down(old(again).down(), code, true, other);
    held_is_what_went_down(old(again).down(), code, true, code);
}

} // verus!
