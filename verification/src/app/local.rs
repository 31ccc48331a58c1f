//! A trial on one machine: capture, encode and decode, without a network.
//!
//! Its latency is the floor under that of two machines.

use vstd::prelude::*;
use vstd::string::StringExecFns;

use crate::app::ui::{put, Item, Shown, Tone};
use crate::text::push_decimal;

verus! {

/// Frames by what became of them.
#[derive(Debug, Clone, Copy, PartialEq, Eq, Structural)]
pub struct Counters {
    pub captured: u64,
    pub encoded: u64,
    pub decoded: u64,
    pub dropped_late: u64,
    pub errors: u64,
}

impl Counters {
    pub open spec fn text(self) -> Seq<char> {
        "chụp "@ + crate::text::decimal(self.captured as nat) + " · mã hoá "@
            + crate::text::decimal(self.encoded as nat) + " · giải mã "@ + crate::text::decimal(
            self.decoded as nat,
        ) + " · bỏ "@ + crate::text::decimal(self.dropped_late as nat) + " · lỗi "@
            + crate::text::decimal(self.errors as nat)
    }

    pub fn line(&self) -> (s: String)
        ensures
            s@ == self.text(),
    {
        let mut s: String = "chụp ".to_owned();
        push_decimal(&mut s, self.captured);
        s.append(" · mã hoá ");
        push_decimal(&mut s, self.encoded);
        s.append(" · giải mã ");
        push_decimal(&mut s, self.decoded);
        s.append(" · bỏ ");
        push_decimal(&mut s, self.dropped_late);
        s.append(" · lỗi ");
        push_decimal(&mut s, self.errors);
        assert(s@ =~= self.text());
        s
    }
}

/// The page's own lines of the overlay. `note` says how control stands.
pub open spec fn local_lines(note: Seq<char>, control: bool) -> Seq<Shown> {
    seq![
        Shown::Text(
            "điều khiển: "@ + note + " (F9)"@,
            if control {
                Tone::Good
            } else {
                Tone::Warn
            },
        ),
        Shown::Text("F10 ẩn/hiện bảng này"@, Tone::Warn),
    ]
}

/// What is drawn in a turn.
#[derive(Debug)]
pub struct LocalPage {
    /// The line in the bar.
    pub counters: String,
    pub picture: bool,
    /// Whether input goes to the machine.
    pub pass_input: bool,
    /// `None` while the overlay is hidden.
    pub overlay: Option<Vec<Item>>,
}

#[derive(Debug)]
pub struct LocalState {
    show_hud: bool,
    pictured: bool,
}

impl LocalState {
    pub closed spec fn hud(&self) -> bool {
        self.show_hud
    }

    pub closed spec fn has_picture(&self) -> bool {
        self.pictured
    }

    pub fn start() -> (r: Self)
        ensures
            r.hud(),
            !r.has_picture(),
    {
        LocalState { show_hud: true, pictured: false }
    }

    /// The keys F10 and F9. Says what control is to be set to, if at all.
    pub fn hotkeys(&mut self, hud: bool, control: bool, control_on: bool) -> (r: Option<bool>)
        ensures
            final(self).hud() == (old(self).hud() != hud),
            final(self).has_picture() == old(self).has_picture(),
            r == (if control {
                Some(!control_on)
            } else {
                None
            }),
    {
        if hud {
            self.show_hud = !self.show_hud;
        }
        if control {
            Some(!control_on)
        } else {
            None
        }
    }

    /// One turn: what is drawn, after the keys were seen to. Once there was a picture it stays
    /// until the next.
    pub fn update(
        &mut self,
        new_picture: bool,
        counters: &Counters,
        control_on: bool,
        note: &str,
    ) -> (r: LocalPage)
        ensures
            final(self).hud() == old(self).hud(),
            final(self).has_picture() == (old(self).has_picture() || new_picture),
            r.counters@ == counters.text(),
            r.picture == final(self).has_picture(),
            r.pass_input == control_on,
            match r.overlay {
                Some(lines) => old(self).hud() && crate::app::ui::shown(lines@) == local_lines(
                    note@,
                    control_on,
                ),
                None => !old(self).hud(),
            },
    {
        if new_picture {
            self.pictured = true;
        }
        let overlay: Option<Vec<Item>> = if self.show_hud {
            let mut lines: Vec<Item> = Vec::new();
            let mut s: String = "điều khiển: ".to_owned();
            s.append(note);
            s.append(" (F9)");
            put(&mut lines, s, if control_on { Tone::Good } else { Tone::Warn });
            put(&mut lines, "F10 ẩn/hiện bảng này".to_owned(), Tone::Warn);
            assert(crate::app::ui::shown(lines@) =~= local_lines(note@, control_on));
            Some(lines)
        } else {
            None
        };
        LocalPage {
            counters: counters.line(),
            picture: self.pictured,
            pass_input: control_on,
            overlay,
        }
    }
}

/// The overlay and the control are switched by their own key; the picture stays once there was one.
pub proof fn keys_switch_their_own(
    state: &mut LocalState,
    hud: bool,
    control: bool,
    control_on: bool,
    r: Option<bool>,
)
    requires
        call_ensures(LocalState::hotkeys, (state, hud, control, control_on), r),
    ensures
        final(state).hud() != old(state).hud() <==> hud,
        r is Some <==> control,
        r matches Some(on) ==> on != control_on,
        final(state).has_picture() == old(state).has_picture(),
{
}

/// The page shows the picture once there was one, passes input on while control is on, and has the
/// overlay while it is switched on.
pub proof fn pages_show_what_there_is(
    state: &mut LocalState,
    new_picture: bool,
    counters: &Counters,
    control_on: bool,
    note: &str,
    r: LocalPage,
)
    requires
        call_ensures(LocalState::update, (state, new_picture, counters, control_on, note), r),
    ensures
        r.picture <==> old(state).has_picture() || new_picture,
        final(state).has_picture() == r.picture,
        r.pass_input == control_on,
        r.overlay is Some <==> old(state).hud(),
        final(state).hud() == old(state).hud(),
{
}

} // verus!
