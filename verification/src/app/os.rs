//! Clipboard and file dialogs. Both can block for long, so the calls run on threads of their own;
//! what is made of them is decided here.

use vstd::prelude::*;

use crate::protocol::MAX_CLIPBOARD_TEXT;
use crate::text::same;

verus! {

/// How often the clipboard is looked at, in milliseconds. No system lets us be told.
pub const POLL_MS: u64 = 400;

/// The bridge between the clipboards of two machines.
pub struct Clipboard {
    /// The newest text we know of, copied by the user or set by ourselves. Without it every text
    /// from the other end would look new and go back, and the two would never stop.
    last: String,
}

impl Clipboard {
    pub closed spec fn known(&self) -> Seq<char> {
        self.last@
    }

    /// `text` is what the clipboard holds at the start; nothing where it holds no text.
    pub fn start(text: Option<String>) -> (r: Self)
        ensures
            r.known() == (match text {
                Some(t) => t@,
                None => ""@,
            }),
    {
        match text {
            Some(last) => Clipboard { last },
            None => Clipboard { last: "".to_owned() },
        }
    }

    /// The other machine copied something: the text to write, where it is new.
    pub fn set(&self, text: String) -> (r: Option<String>)
        ensures
            r == (if text@ == self.known() {
                None
            } else {
                Some(text)
            }),
    {
        if same(text.as_str(), self.last.as_str()) {
            None
        } else {
            Some(text)
        }
    }

    /// The text was written. One that could not be written is not noted.
    pub fn written(&mut self, text: String)
        ensures
            final(self).known() == text@,
    {
        self.last = text;
    }

    /// The clipboard was looked at: the text to send to the other machine, where it is new and
    /// short enough. One that is too long is noted all the same, else it would look new every time.
    pub fn take_local_change(&mut self, text: String) -> (r: Option<String>)
        ensures
            final(self).known() == text@,
            match r {
                Some(t) => sent_on(old(self).known(), text@) && t@ == text@,
                None => !sent_on(old(self).known(), text@),
            },
    {
        if same(text.as_str(), self.last.as_str()) {
            return None;
        }
        let short: bool = text.as_str().as_bytes().len() <= MAX_CLIPBOARD_TEXT;
        self.last = text.clone();
        if short {
            Some(text)
        } else {
            None
        }
    }
}

/// Whether a text found in the clipboard goes to the other machine.
pub open spec fn sent_on(known: Seq<char>, text: Seq<char>) -> bool {
    text != known && crate::text::byte_len(text) <= MAX_CLIPBOARD_TEXT
}

/// What came from the other machine and was written does not go back to it.
pub proof fn texts_do_not_bounce(clipboard: Clipboard, text: Seq<char>)
    requires
        clipboard.known() == text,
    ensures
        !sent_on(clipboard.known(), text),
{
}

/// What a file dialog that was opened came to.
#[derive(Debug)]
pub enum Picked {
    Paths(Vec<String>),
    /// The user is still at it.
    Pending,
    /// The thread is gone without a word.
    Gone,
}

/// The system's file dialog. One at a time: two would cover each other.
pub struct FilePicker {
    open: bool,
}

impl Default for FilePicker {
    fn default() -> (r: Self)
        ensures
            !r.shown(),
    {
        FilePicker { open: false }
    }
}

impl FilePicker {
    pub closed spec fn shown(&self) -> bool {
        self.open
    }

    pub fn busy(&self) -> (r: bool)
        ensures
            r == self.shown(),
    {
        self.open
    }

    /// Whether a dialog is to be opened now.
    pub fn open(&self) -> (r: bool)
        ensures
            r == !self.shown(),
    {
        !self.open
    }

    /// A dialog was opened, or could not be.
    pub fn opened(&mut self, ok: bool)
        ensures
            final(self).shown() == (old(self).shown() || ok),
    {
        if ok {
            self.open = true;
        }
    }

    /// The files just picked; none while the dialog is open or when the user gave up. `picked` is
    /// only looked at while a dialog is open.
    pub fn take(&mut self, picked: Picked) -> (r: Vec<String>)
        ensures
            final(self).shown() == (old(self).shown() && picked is Pending),
            match picked {
                Picked::Paths(paths) if old(self).shown() => r == paths,
                _ => r@.len() == 0,
            },
    {
        if !self.open {
            return Vec::new();
        }
        match picked {
            Picked::Paths(paths) => {
                self.open = false;
                paths
            },
            Picked::Pending => Vec::new(),
            Picked::Gone => {
                self.open = false;
                Vec::new()
            },
        }
    }
}

/// A new text goes to the other machine where it is not longer than 256 KiB; one that is known
/// never does.
pub proof fn new_texts_go_on(known: Seq<char>, text: Seq<char>)
    ensures
        !sent_on(known, known),
        text != known && crate::text::byte_len(text) <= 256 * 1024 ==> sent_on(known, text),
        crate::text::byte_len(text) > 256 * 1024 ==> !sent_on(known, text),
{
}

/// A text that was copied here goes to the other machine once, and one that the other machine
/// copied is written here once, and does not go back.
pub proof fn texts_cross_once(
    first: &mut Clipboard,
    second: &mut Clipboard,
    text: String,
    one: Option<String>,
    two: Option<String>,
)
    requires
        call_ensures(Clipboard::take_local_change, (first, text), one),
        *old(second) == *final(first),
        call_ensures(Clipboard::take_local_change, (second, text), two),
    ensures
        one is Some <==> text@ != old(first).known() && crate::text::byte_len(text@) <= 262_144,
        one matches Some(sent) ==> sent@ == text@,
        two is None,
        final(first).known() == text@,
{
}

/// What came from the other machine and was written is known, so it neither goes back nor is
/// written again.
pub proof fn written_texts_are_known(
    writing: &mut Clipboard,
    looking: &mut Clipboard,
    text: String,
    back: Option<String>,
    again: Option<String>,
)
    requires
        call_ensures(Clipboard::written, (writing, text), ()),
        *old(looking) == *final(writing),
        call_ensures(Clipboard::set, (final(writing), text), again),
        call_ensures(Clipboard::take_local_change, (looking, text), back),
    ensures
        back is None,
        again is None,
{
}

/// A text from the other machine is written where it is not there already.
pub proof fn new_texts_are_written(clipboard: &Clipboard, text: String, r: Option<String>)
    requires
        call_ensures(Clipboard::set, (clipboard, text), r),
    ensures
        r is None <==> text@ == clipboard.known(),
        r matches Some(t) ==> t == text,
{
}

/// One dialogue for files is open at a time, until an answer comes; the files that were picked come
/// out, and nothing where none is open.
pub proof fn one_dialogue_at_a_time(
    opening: &mut FilePicker,
    taking: &mut FilePicker,
    ok: bool,
    picked: Picked,
    may: bool,
    paths: Vec<String>,
)
    requires
        call_ensures(FilePicker::opened, (opening, ok), ()),
        call_ensures(FilePicker::open, (final(opening),), may),
        call_ensures(FilePicker::take, (taking, picked), paths),
    ensures
        ok ==> final(opening).shown() && !may,
        !ok ==> final(opening).shown() == old(opening).shown(),
        final(taking).shown() <==> old(taking).shown() && picked is Pending,
        old(taking).shown() ==> (picked matches Picked::Paths(list) ==> paths == list),
        !old(taking).shown() ==> paths@.len() == 0,
{
}

} // verus!
