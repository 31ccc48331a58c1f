//! A session on the screen.
//!
//! Both roles share it: a host has no video to draw, and only a viewer sends input. Chat and files
//! are the same on both sides.

use std::time::Instant;

use vstd::prelude::*;
use vstd::string::StringExecFns;

use crate::app::ui::{put, Item, Tone};
use crate::clock::{elapsed_ns, instant_now, now_ms};
use crate::net::{LinkStats, NetConfig, NetEvent, PeerId, PipelineInfo, Role, UiCommand};
use crate::protocol::control::{ChatMessage, FileOffer, InputEvent};
use crate::text::{push_decimal, trim, view_of};

verus! {

#[derive(Debug, Clone, Copy, PartialEq, Eq, Structural)]
pub enum Who {
    Me,
    Peer,
    /// The program itself: a file came, the other end left.
    System,
}

#[derive(Debug)]
pub struct ChatEntry {
    pub who: Who,
    pub name: String,
    pub body: String,
    pub at_ms: u64,
}

/// An entry without its time.
pub ghost struct Said {
    pub who: Who,
    pub name: Seq<char>,
    pub body: Seq<char>,
}

pub open spec fn said(entries: Seq<ChatEntry>) -> Seq<Said> {
    Seq::new(
        entries.len(),
        |i: int|
            Said { who: entries[i].who, name: entries[i].name@, body: entries[i].body@ },
    )
}

/// When each entry was said.
pub open spec fn times(entries: Seq<ChatEntry>) -> Seq<u64> {
    Seq::new(entries.len(), |i: int| entries[i].at_ms)
}

/// What the user reads in the chat.
#[derive(Debug)]
pub struct ChatLog {
    entries: Vec<ChatEntry>,
}

impl Default for ChatLog {
    fn default() -> (r: Self)
        ensures
            r.list().len() == 0,
    {
        ChatLog { entries: Vec::new() }
    }
}

impl ChatLog {
    pub closed spec fn list(&self) -> Seq<ChatEntry> {
        self.entries@
    }

    /// Adds an entry.
    pub fn add_entry(&mut self, entry: ChatEntry)
        ensures
            final(self).list() == old(self).list().push(entry),
            said(final(self).list()) == said(old(self).list()).push(
                Said { who: entry.who, name: entry.name@, body: entry.body@ },
            ),
    {
        self.entries.push(entry);
        assert(said(self.list()) =~= said(old(self).list()).push(
            Said { who: entry.who, name: entry.name@, body: entry.body@ },
        ));
    }

    pub fn receive(&mut self, message: ChatMessage)
        ensures
            final(self).list() == old(self).list().push(
                ChatEntry {
                    who: Who::Peer,
                    name: message.from,
                    body: message.body,
                    at_ms: message.sent_at_ms,
                },
            ),
            said(final(self).list()) == said(old(self).list()).push(
                Said { who: Who::Peer, name: message.from@, body: message.body@ },
            ),
    {
        self.add_entry(
            ChatEntry {
                who: Who::Peer,
                name: message.from,
                body: message.body,
                at_ms: message.sent_at_ms,
            },
        );
    }

    /// The time is the clock's.
    pub fn mine(&mut self, name: &str, body: String)
        ensures
            final(self).list().len() == old(self).list().len() + 1,
            final(self).list().drop_last() == old(self).list(),
            said(final(self).list()) == said(old(self).list()).push(
                Said { who: Who::Me, name: name@, body: body@ },
            ),
    {
        self.add_entry(ChatEntry { who: Who::Me, name: name.to_owned(), body, at_ms: now_ms() });
        assert(self.list().drop_last() =~= old(self).list());
    }

    /// The time is the clock's.
    pub fn system(&mut self, body: String)
        ensures
            final(self).list().len() == old(self).list().len() + 1,
            final(self).list().drop_last() == old(self).list(),
            said(final(self).list()) == said(old(self).list()).push(
                Said { who: Who::System, name: ""@, body: body@ },
            ),
    {
        self.add_entry(
            ChatEntry { who: Who::System, name: "".to_owned(), body, at_ms: now_ms() },
        );
        assert(self.list().drop_last() =~= old(self).list());
    }

    pub fn entries(&self) -> (r: &[ChatEntry])
        ensures
            r@ == self.list(),
    {
        self.entries.as_slice()
    }
}

#[derive(Debug, Clone, PartialEq, Eq)]
pub enum TransferState {
    /// Offered; the other end has not answered.
    Offered,
    Active,
    Done(Option<String>),
    Rejected,
    Failed(String),
}

#[derive(Debug, Clone, Copy, PartialEq, Eq, Structural)]
pub enum Direction {
    Out,
    In,
}

#[derive(Debug)]
pub struct Transfer {
    pub id: u64,
    pub name: String,
    pub size: u64,
    pub done: u64,
    pub direction: Direction,
    pub state: TransferState,
    pub started: Instant,
}

/// A row without its time.
pub ghost struct Row {
    pub id: u64,
    pub name: Seq<char>,
    pub size: u64,
    pub done: u64,
    pub direction: Direction,
    pub state: TransferState,
}

impl Transfer {
    pub open spec fn row(self) -> Row {
        Row {
            id: self.id,
            name: self.name@,
            size: self.size,
            done: self.done,
            direction: self.direction,
            state: self.state,
        }
    }

    /// How much is done, as a part of a whole; an empty file is done.
    pub fn ratio(&self) -> (r: (u64, u64))
        ensures
            r == (if self.size == 0 {
                (1u64, 1u64)
            } else if self.done > self.size {
                (self.size, self.size)
            } else {
                (self.done, self.size)
            }),
            0 <= r.0 <= r.1,
            r.1 > 0,
    {
        if self.size == 0 {
            return (1, 1);
        }
        if self.done > self.size {
            (self.size, self.size)
        } else {
            (self.done, self.size)
        }
    }

    /// How many bytes in how many nanoseconds, a millisecond at least.
    pub fn rate(&self) -> (r: (u64, u64))
        ensures
            r.0 == self.done,
            r.1 >= 1_000_000,
    {
        pace(self.done, elapsed_ns(&self.started))
    }
}

/// A number of bytes against the time they took, a millisecond at least.
pub fn pace(done: u64, passed_ns: u64) -> (r: (u64, u64))
    ensures
        r.0 == done,
        r.1 == (if passed_ns < 1_000_000 {
            1_000_000
        } else {
            passed_ns
        }),
{
    (done, if passed_ns < 1_000_000 { 1_000_000 } else { passed_ns })
}

pub open spec fn rows(list: Seq<Transfer>) -> Seq<Row> {
    Seq::new(list.len(), |i: int| list[i].row())
}

/// Since when the speed of each row is measured.
pub open spec fn starts(list: Seq<Transfer>) -> Seq<Instant> {
    Seq::new(list.len(), |i: int| list[i].started)
}

/// Only the row at that place may have another start.
pub open spec fn restarted(before: Seq<Instant>, place: Option<int>, after: Seq<Instant>) -> bool {
    &&& after.len() == before.len()
    &&& forall|i: int|
        0 <= i < before.len() && place != Some(i) ==> #[trigger] after[i] == before[i]
}

/// The first row from `from` on with the number.
pub open spec fn place_from(rows: Seq<Row>, id: u64, from: int) -> Option<int>
    decreases rows.len() - from,
{
    if from >= rows.len() {
        None
    } else if rows[from].id == id {
        Some(from)
    } else {
        place_from(rows, id, from + 1)
    }
}

proof fn place_is_inside(rows: Seq<Row>, id: u64, from: int)
    requires
        0 <= from,
    ensures
        place_from(rows, id, from) matches Some(i) ==> from <= i < rows.len() && rows[i].id == id,
    decreases rows.len() - from,
{
    if from < rows.len() && rows[from].id != id {
        place_is_inside(rows, id, from + 1);
    }
}

/// The rows with another state for the first one of that number.
pub open spec fn with_state(rows: Seq<Row>, id: u64, state: TransferState) -> Seq<Row> {
    match place_from(rows, id, 0) {
        Some(i) => rows.update(i, Row { state, ..rows[i] }),
        None => rows,
    }
}

/// So much is done; what was only offered runs now.
pub open spec fn with_progress(rows: Seq<Row>, id: u64, done: u64) -> Seq<Row> {
    match place_from(rows, id, 0) {
        Some(i) => rows.update(
            i,
            Row {
                done,
                state: if rows[i].state is Offered {
                    TransferState::Active
                } else {
                    rows[i].state
                },
                ..rows[i]
            },
        ),
        None => rows,
    }
}

/// All of it is done.
pub open spec fn with_end(rows: Seq<Row>, id: u64, path: Option<String>) -> Seq<Row> {
    match place_from(rows, id, 0) {
        Some(i) => rows.update(
            i,
            Row { done: rows[i].size, state: TransferState::Done(path), ..rows[i] },
        ),
        None => rows,
    }
}

/// What the user reads of files.
#[derive(Debug)]
pub struct Transfers {
    list: Vec<Transfer>,
}

impl Default for Transfers {
    fn default() -> (r: Self)
        ensures
            r.all().len() == 0,
    {
        Transfers { list: Vec::new() }
    }
}

impl Transfers {
    pub closed spec fn all(&self) -> Seq<Transfer> {
        self.list@
    }

    fn add_row(&mut self, offer: FileOffer, direction: Direction)
        ensures
            rows(final(self).all()) == rows(old(self).all()).push(
                Row {
                    id: offer.transfer_id,
                    name: offer.name@,
                    size: offer.size,
                    done: 0,
                    direction,
                    state: TransferState::Offered,
                },
            ),
            starts(final(self).all()).len() == starts(old(self).all()).len() + 1,
            starts(final(self).all()).drop_last() == starts(old(self).all()),
    {
        let transfer = Transfer {
            id: offer.transfer_id,
            name: offer.name,
            size: offer.size,
            done: 0,
            direction,
            state: TransferState::Offered,
            started: instant_now(),
        };
        self.list.push(transfer);
        assert(rows(self.all()) =~= rows(old(self).all()).push(transfer.row()));
        assert(starts(self.all()).drop_last() =~= starts(old(self).all()));
    }

    pub fn offer_outgoing(&mut self, offer: FileOffer)
        ensures
            rows(final(self).all()) == rows(old(self).all()).push(
                Row {
                    id: offer.transfer_id,
                    name: offer.name@,
                    size: offer.size,
                    done: 0,
                    direction: Direction::Out,
                    state: TransferState::Offered,
                },
            ),
            starts(final(self).all()).len() == starts(old(self).all()).len() + 1,
            starts(final(self).all()).drop_last() == starts(old(self).all()),
    {
        self.add_row(offer, Direction::Out);
    }

    pub fn offer_incoming(&mut self, offer: FileOffer)
        ensures
            rows(final(self).all()) == rows(old(self).all()).push(
                Row {
                    id: offer.transfer_id,
                    name: offer.name@,
                    size: offer.size,
                    done: 0,
                    direction: Direction::In,
                    state: TransferState::Offered,
                },
            ),
            starts(final(self).all()).len() == starts(old(self).all()).len() + 1,
            starts(final(self).all()).drop_last() == starts(old(self).all()),
    {
        self.add_row(offer, Direction::In);
    }

    fn find(&self, id: u64) -> (r: Option<usize>)
        ensures
            match r {
                Some(i) => i < self.all().len() && place_from(rows(self.all()), id, 0) == Some(
                    i as int,
                ),
                None => place_from(rows(self.all()), id, 0) is None,
            },
    {
        let mut i: usize = 0;
        while i < self.list.len()
            invariant
                i <= self.list@.len(),
                place_from(rows(self.list@), id, 0) == place_from(rows(self.list@), id, i as int),
            decreases self.list@.len() - i,
        {
            assert(rows(self.list@)[i as int].id == self.list@[i as int].id);
            if self.list[i].id == id {
                return Some(i);
            }
            i += 1;
        }
        None
    }

    fn set_state(&mut self, id: u64, state: TransferState)
        ensures
            rows(final(self).all()) == with_state(rows(old(self).all()), id, state),
            starts(final(self).all()) == starts(old(self).all()),
    {
        match self.find(id) {
            Some(i) => {
                self.list[i].state = state;
                assert(rows(self.all()) =~= with_state(rows(old(self).all()), id, state));
                assert(starts(self.all()) =~= starts(old(self).all()));
            },
            None => {},
        }
    }

    /// From here on the speed means something.
    fn start(&mut self, id: u64)
        ensures
            rows(final(self).all()) == with_state(
                rows(old(self).all()),
                id,
                TransferState::Active,
            ),
            restarted(
                starts(old(self).all()),
                place_from(rows(old(self).all()), id, 0),
                starts(final(self).all()),
            ),
    {
        match self.find(id) {
            Some(i) => {
                self.list[i].state = TransferState::Active;
                self.list[i].started = instant_now();
                assert(rows(self.all()) =~= with_state(
                    rows(old(self).all()),
                    id,
                    TransferState::Active,
                ));
            },
            None => {},
        }
    }

    /// The other end takes the file.
    pub fn peer_accepted(&mut self, id: u64)
        ensures
            rows(final(self).all()) == with_state(
                rows(old(self).all()),
                id,
                TransferState::Active,
            ),
            restarted(
                starts(old(self).all()),
                place_from(rows(old(self).all()), id, 0),
                starts(final(self).all()),
            ),
    {
        self.start(id);
    }

    /// The user takes the file.
    pub fn accept_local(&mut self, id: u64)
        ensures
            rows(final(self).all()) == with_state(
                rows(old(self).all()),
                id,
                TransferState::Active,
            ),
            restarted(
                starts(old(self).all()),
                place_from(rows(old(self).all()), id, 0),
                starts(final(self).all()),
            ),
    {
        self.start(id);
    }

    pub fn reject(&mut self, id: u64)
        ensures
            rows(final(self).all()) == with_state(
                rows(old(self).all()),
                id,
                TransferState::Rejected,
            ),
            starts(final(self).all()) == starts(old(self).all()),
    {
        self.set_state(id, TransferState::Rejected);
    }

    pub fn progress(&mut self, id: u64, done: u64)
        ensures
            rows(final(self).all()) == with_progress(rows(old(self).all()), id, done),
            starts(final(self).all()) == starts(old(self).all()),
    {
        match self.find(id) {
            Some(i) => {
                self.list[i].done = done;
                if matches!(self.list[i].state, TransferState::Offered) {
                    self.list[i].state = TransferState::Active;
                }
                assert(rows(self.all()) =~= with_progress(rows(old(self).all()), id, done));
                assert(starts(self.all()) =~= starts(old(self).all()));
            },
            None => {},
        }
    }

    pub fn finish(&mut self, id: u64, path: Option<String>)
        ensures
            rows(final(self).all()) == with_end(rows(old(self).all()), id, path),
            starts(final(self).all()) == starts(old(self).all()),
    {
        match self.find(id) {
            Some(i) => {
                let size: u64 = self.list[i].size;
                self.list[i].done = size;
                self.list[i].state = TransferState::Done(path);
                assert(rows(self.all()) =~= with_end(rows(old(self).all()), id, path));
                assert(starts(self.all()) =~= starts(old(self).all()));
            },
            None => {},
        }
    }

    pub fn fail(&mut self, id: u64, reason: String)
        ensures
            rows(final(self).all()) == with_state(
                rows(old(self).all()),
                id,
                TransferState::Failed(reason),
            ),
            starts(final(self).all()) == starts(old(self).all()),
    {
        self.set_state(id, TransferState::Failed(reason));
    }

    pub fn list(&self) -> (r: &[Transfer])
        ensures
            r@ == self.all(),
    {
        self.list.as_slice()
    }
}

/// A finished row shows all of the file, whatever was reported before.
pub proof fn finished_rows_are_full(rows: Seq<Row>, id: u64, path: Option<String>)
    ensures
        place_from(rows, id, 0) matches Some(i) ==> with_end(rows, id, path)[i].done
            == rows[i].size && with_end(rows, id, path)[i].state == TransferState::Done(path),
{
    place_is_inside(rows, id, 0);
}

/// "3 minutes ago": a time on the wire is the other machine's, which may be in another zone.
pub open spec fn ago_text(now_ms: u64, at_ms: u64) -> Seq<char> {
    let secs = if now_ms < at_ms {
        0nat
    } else {
        ((now_ms - at_ms) / 1000) as nat
    };
    if secs < 10 {
        "vừa xong"@
    } else if secs < 60 {
        crate::text::decimal(secs) + "s"@
    } else if secs < 3600 {
        crate::text::decimal(secs / 60) + " phút"@
    } else {
        crate::text::decimal(secs / 3600) + " giờ"@
    }
}

pub fn ago(now_ms: u64, at_ms: u64) -> (s: String)
    ensures
        s@ == ago_text(now_ms, at_ms),
{
    let secs: u64 = if now_ms < at_ms { 0 } else { (now_ms - at_ms) / 1000 };
    let mut s: String = String::new();
    if secs < 10 {
        s.append("vừa xong");
    } else if secs < 60 {
        push_decimal(&mut s, secs);
        s.append("s");
    } else if secs < 3600 {
        push_decimal(&mut s, secs / 60);
        s.append(" phút");
    } else {
        push_decimal(&mut s, secs / 3600);
        s.append(" giờ");
    }
    assert(s@ =~= ago_text(now_ms, at_ms));
    s
}

/// What a page asks the program to do after it was drawn.
#[derive(Debug, Clone, Copy, PartialEq, Eq, Structural)]
pub enum Outcome {
    Continue,
    Leave,
}

/// The page of a session, by what is on it.
#[verifier::ext_equal]
pub ghost struct Page {
    pub role: Role,
    pub my_name: Seq<char>,
    pub password: Seq<char>,
    pub bitrate_kbps: u32,
    pub info: Option<PipelineInfo>,
    pub pictured: bool,
    pub said: Seq<Said>,
    pub rows: Seq<Row>,
    pub status: Seq<char>,
    pub code: Option<PeerId>,
    pub peer: Option<Seq<char>>,
    pub relayed: bool,
    pub link: Option<LinkStats>,
    pub latency_us: Option<u64>,
    pub ended: Option<Seq<char>>,
    pub control_on: bool,
    pub show_hud: bool,
    pub show_panel: bool,
    pub unread: u32,
    pub addresses: Seq<Seq<char>>,
    pub sync_clipboard: bool,
}

impl Page {
    /// With one more line by the program.
    pub open spec fn note(self, body: Seq<char>) -> Page {
        Page { said: self.said.push(Said { who: Who::System, name: ""@, body }), ..self }
    }

    pub open spec fn peer_name(self) -> Seq<char> {
        match self.peer {
            Some(name) => name,
            None => "đầu kia"@,
        }
    }

    /// What an event of the network part changes.
    pub open spec fn after(self, event: NetEvent) -> Page {
        match event {
            NetEvent::Status(text) => Page { status: text@, ..self },
            NetEvent::Code(id) => Page { code: Some(id), ..self },
            NetEvent::Connected { peer, name, relayed } => (Page {
                peer: Some(name@),
                relayed,
                ..self
            }).note(
                name@ + " ("@ + peer@ + ") đã nối"@ + (if relayed {
                    " qua relay"@
                } else {
                    ""@
                }),
            ),
            NetEvent::Info(info) => Page { info: Some(info), ..self },
            NetEvent::OutgoingOffer(offer) => (Page {
                rows: self.rows.push(
                    Row {
                        id: offer.transfer_id,
                        name: offer.name@,
                        size: offer.size,
                        done: 0,
                        direction: Direction::Out,
                        state: TransferState::Offered,
                    },
                ),
                ..self
            }).note("đang gửi "@ + offer.name@),
            NetEvent::IncomingOffer(offer) => (Page {
                rows: self.rows.push(
                    Row {
                        id: offer.transfer_id,
                        name: offer.name@,
                        size: offer.size,
                        done: 0,
                        direction: Direction::In,
                        state: TransferState::Offered,
                    },
                ),
                unread: (self.unread + 1) as u32,
                ..self
            }).note(self.peer_name() + " muốn gửi "@ + offer.name@),
            NetEvent::TransferAccepted(id) => Page {
                rows: with_state(self.rows, id, TransferState::Active),
                ..self
            },
            NetEvent::TransferRejected(id) => Page {
                rows: with_state(self.rows, id, TransferState::Rejected),
                ..self
            },
            NetEvent::TransferProgress { id, done } => Page {
                rows: with_progress(self.rows, id, done),
                ..self
            },
            NetEvent::TransferDone { id, path } => (Page {
                rows: with_end(self.rows, id, Some(path)),
                ..self
            }).note("xong: "@ + path@),
            NetEvent::TransferFailed { id, reason } => (Page {
                rows: with_state(self.rows, id, TransferState::Failed(reason)),
                ..self
            }).note("tệp lỗi: "@ + reason@),
            NetEvent::Chat(message) => Page {
                said: self.said.push(
                    Said { who: Who::Peer, name: message.from@, body: message.body@ },
                ),
                unread: if self.show_panel {
                    self.unread
                } else {
                    (self.unread + 1) as u32
                },
                ..self
            },
            NetEvent::Clipboard(_) => self,
            NetEvent::Link(stats) => Page { link: Some(stats), ..self },
            NetEvent::Latency(us) => Page { latency_us: Some(us), ..self },
            NetEvent::PeerLeft => (Page {
                peer: None,
                info: None,
                pictured: false,
                latency_us: None,
                ..self
            }).note("đầu kia đã ngắt"@),
            NetEvent::Disconnected(reason) => (Page { ended: Some(reason@), ..self }).note(
                "phiên kết thúc: "@ + reason@,
            ),
        }
    }
}

/// What the other machine copied, among other events.
pub open spec fn copied(events: Seq<NetEvent>) -> Seq<Seq<char>>
    decreases events.len(),
{
    if events.len() == 0 {
        seq![]
    } else {
        match events.last() {
            NetEvent::Clipboard(text) => copied(events.drop_last()).push(text@),
            _ => copied(events.drop_last()),
        }
    }
}

/// The time of the line that an event adds to the chat, where it adds one: a message has its own,
/// the program's lines have the clock's, of which nothing is said.
pub open spec fn stamp(event: NetEvent) -> Seq<Option<u64>> {
    match event {
        NetEvent::Chat(message) => seq![Some(message.sent_at_ms)],
        NetEvent::Connected { .. }
        | NetEvent::OutgoingOffer(_)
        | NetEvent::IncomingOffer(_)
        | NetEvent::TransferDone { .. }
        | NetEvent::TransferFailed { .. }
        | NetEvent::PeerLeft
        | NetEvent::Disconnected(_) => seq![None],
        _ => seq![],
    }
}

pub open spec fn stamps(events: Seq<NetEvent>) -> Seq<Option<u64>>
    decreases events.len(),
{
    if events.len() == 0 {
        seq![]
    } else {
        stamps(events.drop_last()) + stamp(events.last())
    }
}

/// The chat keeps the times that it had, and takes over those of the messages that came.
pub open spec fn stamped(before: Seq<u64>, stamps: Seq<Option<u64>>, after: Seq<u64>) -> bool {
    &&& after.len() == before.len() + stamps.len()
    &&& forall|i: int| 0 <= i < before.len() ==> #[trigger] after[i] == before[i]
    &&& forall|i: int|
        #![trigger stamps[i]]
        0 <= i < stamps.len() && stamps[i] is Some ==> after[before.len() + i] == stamps[i]->0
}

impl Page {
    /// The row whose speed is measured anew after an event.
    pub open spec fn restart(self, event: NetEvent) -> Option<int> {
        match event {
            NetEvent::TransferAccepted(id) => place_from(self.rows, id, 0),
            _ => None,
        }
    }

    /// Whether the speed of a row is measured anew after some of the events.
    pub open spec fn restarts(self, events: Seq<NetEvent>, i: int) -> bool
        decreases events.len(),
    {
        events.len() > 0 && (self.restarts(events.drop_last(), i) || self.after_all(
            events.drop_last(),
        ).restart(events.last()) == Some(i))
    }

    /// What several events change, one after the other.
    pub open spec fn after_all(self, events: Seq<NetEvent>) -> Page
        decreases events.len(),
    {
        if events.len() == 0 {
            self
        } else {
            self.after_all(events.drop_last()).after(events.last())
        }
    }

    /// What the user has chosen on the page.
    pub open spec fn same_choices(self, other: Page) -> bool {
        &&& self.role == other.role
        &&& self.my_name == other.my_name
        &&& self.password == other.password
        &&& self.bitrate_kbps == other.bitrate_kbps
        &&& self.control_on == other.control_on
        &&& self.show_hud == other.show_hud
        &&& self.show_panel == other.show_panel
        &&& self.sync_clipboard == other.sync_clipboard
    }
}

/// Whatever the network part reports, what the user has chosen on the page stays: above all,
/// no event turns control on.
pub proof fn events_leave_choices(page: Page, events: Seq<NetEvent>)
    ensures
        page.after_all(events).same_choices(page),
    decreases events.len(),
{
    if events.len() > 0 {
        events_leave_choices(page, events.drop_last());
    }
}

/// A session that is over stays over.
pub proof fn an_end_is_final(page: Page, events: Seq<NetEvent>)
    requires
        page.ended is Some,
    ensures
        page.after_all(events).ended is Some,
    decreases events.len(),
{
    if events.len() > 0 {
        an_end_is_final(page, events.drop_last());
    }
}

/// Nothing that was said goes away, and no file leaves the list.
pub proof fn events_only_add(page: Page, events: Seq<NetEvent>)
    ensures
        page.said.is_prefix_of(page.after_all(events).said),
        page.rows.len() <= page.after_all(events).rows.len(),
        forall|i: int|
            0 <= i < page.rows.len() ==> (#[trigger] page.after_all(events).rows[i]).id
                == page.rows[i].id && page.after_all(events).rows[i].name == page.rows[i].name
                && page.after_all(events).rows[i].size == page.rows[i].size,
    decreases events.len(),
{
    if events.len() > 0 {
        events_only_add(page, events.drop_last());
        let before = page.after_all(events.drop_last());
        one_event_only_adds(before, events.last());
    }
}

proof fn one_event_only_adds(page: Page, event: NetEvent)
    ensures
        page.said.is_prefix_of(page.after(event).said),
        page.rows.len() <= page.after(event).rows.len(),
        forall|i: int|
            0 <= i < page.rows.len() ==> (#[trigger] page.after(event).rows[i]).id
                == page.rows[i].id && page.after(event).rows[i].name == page.rows[i].name
                && page.after(event).rows[i].size == page.rows[i].size,
{
    match event {
        NetEvent::TransferAccepted(id) => place_is_inside(page.rows, id, 0),
        NetEvent::TransferRejected(id) => place_is_inside(page.rows, id, 0),
        NetEvent::TransferProgress { id, done } => place_is_inside(page.rows, id, 0),
        NetEvent::TransferDone { id, path } => place_is_inside(page.rows, id, 0),
        NetEvent::TransferFailed { id, reason } => place_is_inside(page.rows, id, 0),
        _ => {},
    }
}

/// The bar above a session.
#[derive(Debug)]
pub struct TopBar {
    pub role: &'static str,
    pub state: &'static str,
    pub tone: Tone,
    pub peer: Option<String>,
    pub panel: String,
    /// For a viewer.
    pub control: Option<&'static str>,
    /// For a viewer: the ceiling of the rate, in kbps.
    pub kbps: Option<Gauge>,
}

/// A number that can be changed, and between which ones.
#[derive(Debug, Clone, Copy, PartialEq, Eq, Structural)]
pub struct Gauge {
    pub value: u32,
    pub low: u32,
    pub high: u32,
}

/// The lowest ceiling that can be set in the bar.
pub const LOWEST_KBPS: u32 = 1_000;

/// The highest ceiling that can be set in the bar.
pub const HIGHEST_KBPS: u32 = 200_000;

pub open spec fn in_bar(kbps: u32) -> u32 {
    if kbps < LOWEST_KBPS {
        LOWEST_KBPS
    } else if kbps > HIGHEST_KBPS {
        HIGHEST_KBPS
    } else {
        kbps
    }
}

fn held_in_bar(kbps: u32) -> (r: u32)
    ensures
        r == in_bar(kbps),
{
    if kbps < LOWEST_KBPS {
        LOWEST_KBPS
    } else if kbps > HIGHEST_KBPS {
        HIGHEST_KBPS
    } else {
        kbps
    }
}

/// What the user clicked on.
#[derive(Debug, Clone, Copy, PartialEq, Eq, Structural)]
pub enum Click {
    Leave,
    Panel,
    Control,
    Keyframe,
    /// The rate in the bar was changed.
    Bitrate(u32),
    Accept(u64),
    Reject(u64),
    /// Whether the clipboards are kept alike.
    Clipboard,
}

/// The page when a session begins. Control is off: the click that enlarges the window must not fall
/// on the other machine.
pub open spec fn opening(
    config: NetConfig,
    lan_ip: Option<Seq<char>>,
    tailscale_ip: Option<Seq<char>>,
) -> Page {
    Page {
        role: config.role,
        my_name: config.name@,
        password: config.password@,
        bitrate_kbps: config.bitrate_kbps,
        info: None,
        pictured: false,
        said: seq![],
        rows: seq![],
        status: "đang khởi động"@,
        code: None,
        peer: None,
        relayed: false,
        link: None,
        latency_us: None,
        ended: None,
        control_on: false,
        show_hud: true,
        show_panel: true,
        unread: 0,
        addresses: at_port(lan_ip, config.bind.port) + at_port(tailscale_ip, config.bind.port),
        sync_clipboard: true,
    }
}

/// An address as the other end types it, where there is one.
pub open spec fn at_port(ip: Option<Seq<char>>, port: u16) -> Seq<Seq<char>> {
    match ip {
        Some(text) => seq![text + ":"@ + crate::text::decimal(port as nat)],
        None => seq![],
    }
}

fn push_address(list: &mut Vec<String>, ip: &Option<String>, port: u16)
    ensures
        texts(final(list)@) == texts(old(list)@) + at_port(view_of(*ip), port),
{
    match ip {
        Some(text) => {
            let mut s: String = text.as_str().to_owned();
            s.append(":");
            push_decimal(&mut s, port as u64);
            list.push(s);
        },
        None => {},
    }
    assert(texts(list@) =~= texts(old(list)@) + at_port(view_of(*ip), port));
}

/// A list of texts by their characters.
pub open spec fn texts(list: Seq<String>) -> Seq<Seq<char>> {
    Seq::new(list.len(), |i: int| list[i]@)
}

pub struct SessionState {
    role: Role,
    my_name: String,
    password: String,
    bitrate_kbps: u32,
    info: Option<PipelineInfo>,
    pictured: bool,
    chat: ChatLog,
    transfers: Transfers,
    status: String,
    code: Option<PeerId>,
    peer: Option<String>,
    relayed: bool,
    link: Option<LinkStats>,
    latency_us: Option<u64>,
    ended: Option<String>,
    control_on: bool,
    show_hud: bool,
    show_panel: bool,
    unread: u32,
    addresses: Vec<String>,
    sync_clipboard: bool,
}

impl SessionState {
    pub closed spec fn page(&self) -> Page {
        Page {
            role: self.role,
            my_name: self.my_name@,
            password: self.password@,
            bitrate_kbps: self.bitrate_kbps,
            info: self.info,
            pictured: self.pictured,
            said: said(self.chat.list()),
            rows: rows(self.transfers.all()),
            status: self.status@,
            code: self.code,
            peer: view_of(self.peer),
            relayed: self.relayed,
            link: self.link,
            latency_us: self.latency_us,
            ended: view_of(self.ended),
            control_on: self.control_on,
            show_hud: self.show_hud,
            show_panel: self.show_panel,
            unread: self.unread,
            addresses: texts(self.addresses@),
            sync_clipboard: self.sync_clipboard,
        }
    }

    /// When each line of the chat was said.
    pub closed spec fn heard(&self) -> Seq<u64> {
        times(self.chat.list())
    }

    /// Since when the speed of each file is measured.
    pub closed spec fn clocked(&self) -> Seq<Instant> {
        starts(self.transfers.all())
    }

    /// Neither the chat nor the files have other times.
    pub open spec fn same_times(&self, before: &Self) -> bool {
        self.heard() == before.heard() && self.clocked() == before.clocked()
    }

    /// `lan_ip` and `tailscale_ip` are this machine's own, as far as they are known.
    pub fn start(
        config: &NetConfig,
        lan_ip: &Option<String>,
        tailscale_ip: &Option<String>,
    ) -> (r: Self)
        ensures
            r.page() == opening(*config, view_of(*lan_ip), view_of(*tailscale_ip)),
            r.heard().len() == 0,
            r.clocked().len() == 0,
    {
        let mut addresses: Vec<String> = Vec::new();
        assert(texts(addresses@) =~= seq![]);
        push_address(&mut addresses, lan_ip, config.bind.port);
        push_address(&mut addresses, tailscale_ip, config.bind.port);
        let r = SessionState {
            role: config.role,
            my_name: config.name.as_str().to_owned(),
            password: config.password.as_str().to_owned(),
            bitrate_kbps: config.bitrate_kbps,
            info: None,
            pictured: false,
            chat: ChatLog::default(),
            transfers: Transfers::default(),
            status: "đang khởi động".to_owned(),
            code: None,
            peer: None,
            relayed: false,
            link: None,
            latency_us: None,
            ended: None,
            control_on: false,
            show_hud: true,
            show_panel: true,
            unread: 0,
            addresses,
            sync_clipboard: true,
        };
        assert(r.page() =~= opening(*config, view_of(*lan_ip), view_of(*tailscale_ip)));
        r
    }

    fn peer_name(&self) -> (r: String)
        ensures
            r@ == self.page().peer_name(),
    {
        match &self.peer {
            Some(name) => name.as_str().to_owned(),
            None => "đầu kia".to_owned(),
        }
    }

    /// Takes in what the network part has reported since the last time, in its order, and whether
    /// a new picture came. Hands back the texts that the other machine copied, for the clipboard.
    pub fn pump(&mut self, events: Vec<NetEvent>, pictured: bool) -> (r: Vec<String>)
        requires
            old(self).page().unread + events@.len() <= u32::MAX,
        ensures
            ({
                let reported = old(self).page().after_all(events@);
                final(self).page() == (Page {
                    pictured: reported.pictured || pictured,
                    ..reported
                })
            }),
            texts(r@) == (if old(self).page().sync_clipboard {
                copied(events@)
            } else {
                seq![]
            }),
            stamped(old(self).heard(), stamps(events@), final(self).heard()),
            old(self).clocked().len() <= final(self).clocked().len(),
            forall|i: int|
                0 <= i < old(self).clocked().len() && !old(self).page().restarts(events@, i)
                    ==> #[trigger] final(self).clocked()[i] == old(self).clocked()[i],
    {
        let ghost before = self.page();
        let ghost heard = self.heard();
        let ghost clocked = self.clocked();
        let mut r: Vec<String> = Vec::new();
        assert(texts(r@) =~= seq![]);
        for event in iter: events
            invariant
                iter.seq() == events@,
                self.sync_clipboard == before.sync_clipboard,
                texts(r@) == (if before.sync_clipboard {
                    copied(events@.take(iter.index()))
                } else {
                    seq![]
                }),
                self.page() == before.after_all(events@.take(iter.index())),
                stamped(heard, stamps(events@.take(iter.index())), self.heard()),
                clocked.len() <= self.clocked().len(),
                forall|i: int|
                    0 <= i < clocked.len() && !before.restarts(events@.take(iter.index()), i)
                        ==> #[trigger] self.clocked()[i] == clocked[i],
                self.page().unread <= before.unread + iter.index(),
                before.unread + events@.len() <= u32::MAX,
        {
            assert(events@.take(iter.index() + 1).drop_last() =~= events@.take(iter.index()));
            match &event {
                NetEvent::Clipboard(text) => {
                    if self.sync_clipboard {
                        let ghost had = texts(r@);
                        r.push(text.as_str().to_owned());
                        assert(texts(r@) =~= had.push(text@));
                    }
                },
                _ => {},
            }
            let ghost had = self.heard();
            let ghost first = stamps(events@.take(iter.index()));
            let ghost ran = self.clocked();
            let ghost shown = self.page();
            self.take_event(event);
            proof {
                let all = stamps(events@.take(iter.index() + 1));
                assert(all == first + stamp(event));
                assert forall|i: int|
                    #![trigger all[i]]
                    0 <= i < all.len() && all[i] is Some implies self.heard()[heard.len() + i]
                    == all[i]->0 by {
                    if i < first.len() {
                        assert(first[i] == all[i]);
                        assert(self.heard()[heard.len() + i] == had[heard.len() + i]);
                    } else {
                        assert(stamp(event)[i - first.len()] == all[i]);
                    }
                }
                assert forall|i: int|
                    0 <= i < clocked.len() && !before.restarts(
                        events@.take(iter.index() + 1),
                        i,
                    ) implies #[trigger] self.clocked()[i] == clocked[i] by {
                    assert(shown.restart(event) != Some(i));
                    assert(ran[i] == clocked[i]);
                }
            }
        }
        assert(events@.take(events@.len() as int) =~= events@);
        if pictured {
            self.pictured = true;
        }
        r
    }

    /// Takes in one event of the network part.
    #[verifier::rlimit(40)]
    fn take_event(&mut self, event: NetEvent)
        requires
            old(self).page().unread < u32::MAX,
        ensures
            final(self).page() == old(self).page().after(event),
            stamped(old(self).heard(), stamp(event), final(self).heard()),
            old(self).clocked().len() <= final(self).clocked().len(),
            forall|i: int|
                0 <= i < old(self).clocked().len() && old(self).page().restart(event) != Some(i)
                    ==> #[trigger] final(self).clocked()[i] == old(self).clocked()[i],
    {
        match event {
            NetEvent::Status(text) => {
                self.status = text;
            },
            NetEvent::Code(id) => {
                self.code = Some(id);
            },
            NetEvent::Connected { peer, name, relayed } => {
                let mut s: String = name.as_str().to_owned();
                s.append(" (");
                s.append(peer.as_str());
                s.append(") đã nối");
                if relayed {
                    s.append(" qua relay");
                } else {
                    s.append("");
                }
                self.peer = Some(name);
                self.relayed = relayed;
                self.chat.system(s);
            },
            NetEvent::Info(info) => {
                self.info = Some(info);
            },
            NetEvent::OutgoingOffer(offer) => {
                let mut s: String = "đang gửi ".to_owned();
                s.append(offer.name.as_str());
                self.chat.system(s);
                self.transfers.offer_outgoing(offer);
            },
            NetEvent::IncomingOffer(offer) => {
                let mut s: String = self.peer_name();
                s.append(" muốn gửi ");
                s.append(offer.name.as_str());
                self.chat.system(s);
                self.transfers.offer_incoming(offer);
                self.unread = self.unread + 1;
            },
            NetEvent::TransferAccepted(id) => {
                self.transfers.peer_accepted(id);
            },
            NetEvent::TransferRejected(id) => {
                self.transfers.reject(id);
            },
            NetEvent::TransferProgress { id, done } => {
                self.transfers.progress(id, done);
            },
            NetEvent::TransferDone { id, path } => {
                let mut s: String = "xong: ".to_owned();
                s.append(path.as_str());
                self.chat.system(s);
                self.transfers.finish(id, Some(path));
            },
            NetEvent::TransferFailed { id, reason } => {
                let mut s: String = "tệp lỗi: ".to_owned();
                s.append(reason.as_str());
                self.chat.system(s);
                self.transfers.fail(id, reason);
            },
            NetEvent::Chat(message) => {
                self.chat.receive(message);
                if !self.show_panel {
                    self.unread = self.unread + 1;
                }
            },
            NetEvent::Clipboard(_) => {},
            NetEvent::Link(stats) => {
                self.link = Some(stats);
            },
            NetEvent::Latency(us) => {
                self.latency_us = Some(us);
            },
            NetEvent::PeerLeft => {
                self.peer = None;
                self.info = None;
                self.pictured = false;
                self.latency_us = None;
                self.chat.system("đầu kia đã ngắt".to_owned());
            },
            NetEvent::Disconnected(reason) => {
                let mut s: String = "phiên kết thúc: ".to_owned();
                s.append(reason.as_str());
                self.chat.system(s);
                self.ended = Some(reason);
            },
        }
        assert(self.page() =~= old(self).page().after(event));
    }

    /// Keys of the program itself: F10, F8 and F9. None of them counts while the user types into
    /// a field. An open panel has nothing unread.
    pub fn hotkeys(&mut self, typing: bool, hud: bool, panel: bool, control: bool)
        ensures
            final(self).same_times(old(self)),
            ({
                let before = old(self).page();
                let panel_shown = before.show_panel != panel;
                final(self).page() == (if typing {
                    before
                } else {
                    Page {
                        show_hud: before.show_hud != hud,
                        show_panel: panel_shown,
                        control_on: before.control_on != (control && before.role is Viewer),
                        unread: if panel_shown {
                            0
                        } else {
                            before.unread
                        },
                        ..before
                    }
                })
            }),
    {
        if typing {
            return ;
        }
        if hud {
            self.show_hud = !self.show_hud;
        }
        if panel {
            self.show_panel = !self.show_panel;
        }
        if control && self.role == Role::Viewer {
            self.control_on = !self.control_on;
        }
        if self.show_panel {
            self.unread = 0;
        }
    }

    /// What the bar above the session shows.
    pub fn draw(&self) -> (r: TopBar)
        ensures
            r.role@ == (if self.page().role is Host {
                "Đang chia sẻ máy này"@
            } else {
                "Đang xem máy khác"@
            }),
            r.state@ == (if self.page().ended is Some {
                "đã dừng"@
            } else if self.page().peer is Some {
                "đã nối"@
            } else {
                "đang chờ"@
            }),
            r.tone == (if self.page().ended is Some {
                Tone::Bad
            } else if self.page().peer is Some {
                Tone::Good
            } else {
                Tone::Warn
            }),
            view_of(r.peer) == self.page().peer,
            r.panel@ == (if self.page().unread > 0 {
                "Chat/Tệp ("@ + crate::text::decimal(self.page().unread as nat) + ")"@
            } else {
                "Chat/Tệp"@
            }),
            match r.control {
                Some(text) => self.page().role is Viewer && text@ == (if self.page().control_on {
                    "Điều khiển: bật (F9)"@
                } else {
                    "Điều khiển: tắt (F9)"@
                }),
                None => self.page().role is Host,
            },
            r.kbps == (if self.page().role is Viewer {
                Some(
                    Gauge {
                        value: self.page().bitrate_kbps,
                        low: LOWEST_KBPS,
                        high: HIGHEST_KBPS,
                    },
                )
            } else {
                None
            }),
    {
        let role: &'static str = match self.role {
            Role::Host => "Đang chia sẻ máy này",
            Role::Viewer => "Đang xem máy khác",
        };
        let (state, tone): (&'static str, Tone) = if self.ended.is_some() {
            ("đã dừng", Tone::Bad)
        } else if self.peer.is_some() {
            ("đã nối", Tone::Good)
        } else {
            ("đang chờ", Tone::Warn)
        };
        let peer: Option<String> = match &self.peer {
            Some(name) => Some(name.as_str().to_owned()),
            None => None,
        };
        let mut panel: String = "Chat/Tệp".to_owned();
        if self.unread > 0 {
            panel = "Chat/Tệp (".to_owned();
            push_decimal(&mut panel, self.unread as u64);
            panel.append(")");
        }
        let control: Option<&'static str> = match self.role {
            Role::Host => None,
            Role::Viewer => Some(
                if self.control_on {
                    "Điều khiển: bật (F9)"
                } else {
                    "Điều khiển: tắt (F9)"
                },
            ),
        };
        let kbps: Option<Gauge> = match self.role {
            Role::Host => None,
            Role::Viewer => Some(
                Gauge { value: self.bitrate_kbps, low: LOWEST_KBPS, high: HIGHEST_KBPS },
            ),
        };
        TopBar { role, state, tone, peer, panel, control, kbps }
    }

    /// What a click does: whether the page is left, and what the network part is told.
    pub fn click(&mut self, click: Click) -> (r: (Outcome, Option<UiCommand>))
        ensures
            r.0 == (if click is Leave {
                Outcome::Leave
            } else {
                Outcome::Continue
            }),
            r.1 == (match click {
                Click::Keyframe => Some(UiCommand::RequestKeyframe),
                Click::Bitrate(kbps) => Some(UiCommand::SetBitrate(in_bar(kbps))),
                Click::Accept(id) => Some(UiCommand::AcceptFile(id)),
                Click::Reject(id) => Some(UiCommand::RejectFile(id)),
                _ => None,
            }),
            final(self).heard() == old(self).heard(),
            match click {
                Click::Accept(id) => restarted(
                    old(self).clocked(),
                    place_from(old(self).page().rows, id, 0),
                    final(self).clocked(),
                ),
                _ => final(self).clocked() == old(self).clocked(),
            },
            ({
                let before = old(self).page();
                final(self).page() == (match click {
                    Click::Panel => Page {
                        show_panel: !before.show_panel,
                        unread: if before.show_panel {
                            before.unread
                        } else {
                            0
                        },
                        ..before
                    },
                    Click::Control => Page { control_on: !before.control_on, ..before },
                    Click::Bitrate(kbps) => Page { bitrate_kbps: in_bar(kbps), ..before },
                    Click::Clipboard => Page {
                        sync_clipboard: !before.sync_clipboard,
                        ..before
                    },
                    Click::Accept(id) => Page {
                        rows: with_state(before.rows, id, TransferState::Active),
                        ..before
                    },
                    Click::Reject(id) => Page {
                        rows: with_state(before.rows, id, TransferState::Rejected),
                        ..before
                    },
                    _ => before,
                })
            }),
    {
        match click {
            Click::Leave => (Outcome::Leave, None),
            Click::Panel => {
                self.show_panel = !self.show_panel;
                if self.show_panel {
                    self.unread = 0;
                }
                (Outcome::Continue, None)
            },
            Click::Control => {
                self.control_on = !self.control_on;
                (Outcome::Continue, None)
            },
            Click::Clipboard => {
                self.sync_clipboard = !self.sync_clipboard;
                (Outcome::Continue, None)
            },
            Click::Keyframe => (Outcome::Continue, Some(UiCommand::RequestKeyframe)),
            Click::Bitrate(kbps) => {
                let kbps: u32 = held_in_bar(kbps);
                self.bitrate_kbps = kbps;
                (Outcome::Continue, Some(UiCommand::SetBitrate(kbps)))
            },
            Click::Accept(id) => {
                self.transfers.accept_local(id);
                (Outcome::Continue, Some(UiCommand::AcceptFile(id)))
            },
            Click::Reject(id) => {
                self.transfers.reject(id);
                (Outcome::Continue, Some(UiCommand::RejectFile(id)))
            },
        }
    }

    /// Sends the file whose path the user typed, and empties the field. A blank path sends nothing
    /// and stays.
    pub fn send_file(&self, draft: &mut String) -> (r: Option<UiCommand>)
        ensures
            ({
                let typed = crate::text::trimmed(old(draft)@);
                match r {
                    Some(UiCommand::SendFile(path)) => typed.len() > 0 && path@ == typed
                        && final(draft)@.len() == 0,
                    None => typed.len() == 0 && *final(draft) == *old(draft),
                    _ => false,
                }
            }),
    {
        let path: String = trim(draft.as_str());
        if path.as_str().is_empty() {
            return None;
        }
        *draft = String::new();
        Some(UiCommand::SendFile(path))
    }

    /// Files that were dropped on the window are sent.
    pub fn take_dropped_files(&self, paths: Vec<String>) -> (r: Vec<UiCommand>)
        ensures
            r@.len() == paths@.len(),
            forall|i: int| 0 <= i < paths@.len() ==> #[trigger] r@[i] == UiCommand::SendFile(paths@[i]),
    {
        let mut r: Vec<UiCommand> = Vec::new();
        for path in iter: paths
            invariant
                iter.seq() == paths@,
                r@.len() == iter.index(),
                forall|i: int|
                    0 <= i < r@.len() ==> #[trigger] r@[i] == UiCommand::SendFile(paths@[i]),
        {
            r.push(UiCommand::SendFile(path));
        }
        r
    }

    /// Says what the user typed, and empties the field. Both the line in the log and the message
    /// have the clock's time. A blank text says nothing and stays.
    pub fn send_chat(&mut self, draft: &mut String) -> (r: Option<UiCommand>)
        ensures
            ({
                let typed = crate::text::trimmed(old(draft)@);
                let before = old(self).page();
                match r {
                    Some(UiCommand::Chat(message)) => typed.len() > 0 && message.from@
                        == before.my_name && message.body@ == typed && final(draft)@.len() == 0
                        && final(self).page() == (Page {
                        said: before.said.push(
                            Said { who: Who::Me, name: before.my_name, body: typed },
                        ),
                        ..before
                    }),
                    None => typed.len() == 0 && *final(draft) == *old(draft) && final(self).page()
                        == before,
                    _ => false,
                }
            }),
            final(self).clocked() == old(self).clocked(),
            if r is Some {
                final(self).heard().len() == old(self).heard().len() + 1
                    && final(self).heard().drop_last() == old(self).heard()
            } else {
                final(self).heard() == old(self).heard()
            },
    {
        let body: String = trim(draft.as_str());
        if body.as_str().is_empty() {
            return None;
        }
        *draft = String::new();
        let from: String = self.my_name.as_str().to_owned();
        self.chat.mine(from.as_str(), body.as_str().to_owned());
        assert(self.heard().drop_last() =~= times(self.chat.list().drop_last()));
        Some(UiCommand::Chat(ChatMessage { from, body, sent_at_ms: now_ms() }))
    }

    /// Passes input on while control is on. When the window loses the focus everything is
    /// released, or a key would stay down for ever: no event for it would come any more.
    pub fn steer(&mut self, events: Vec<InputEvent>, release: InputEvent, focused: bool) -> (r: Vec<
        UiCommand,
    >)
        ensures
            final(self).same_times(old(self)),
            final(self).page() == (Page {
                control_on: old(self).page().control_on && focused,
                ..old(self).page()
            }),
            !old(self).page().control_on ==> r@.len() == 0,
            old(self).page().control_on ==> {
                let some = events@.len() > 0;
                &&& r@.len() == (if some {
                    1int
                } else {
                    0int
                }) + (if focused {
                    0int
                } else {
                    1int
                })
                &&& some ==> r@[0] == UiCommand::Input(events)
                &&& !focused ==> match r@.last() {
                    UiCommand::Input(list) => list@ == seq![release],
                    _ => false,
                }
            },
    {
        let mut r: Vec<UiCommand> = Vec::new();
        if !self.control_on {
            return r;
        }
        if events.len() > 0 {
            r.push(UiCommand::Input(events));
        }
        if !focused {
            let mut list: Vec<InputEvent> = Vec::new();
            list.push(release);
            assert(list@ =~= seq![release]);
            r.push(UiCommand::Input(list));
            self.control_on = false;
        }
        r
    }

    /// The page's own lines of the overlay. `rtt_ms` and `loss` are the link's figures as they are
    /// shown, where there are any.
    pub fn draw_video(&self, rtt_ms: &str, loss: &str) -> (r: Vec<Item>)
        ensures
            crate::app::ui::shown(r@) == overlay(self.page(), rtt_ms@, loss@),
    {
        let mut r: Vec<Item> = Vec::new();
        assert(crate::app::ui::shown(r@) =~= seq![]);
        let mut control: String = "điều khiển: ".to_owned();
        if self.control_on {
            control.append("bật");
        } else {
            control.append("tắt");
        }
        control.append(" (F9)");
        put(&mut r, control, if self.control_on { Tone::Good } else { Tone::Warn });
        match self.link {
            Some(stats) => {
                let mut s: String = "rtt ".to_owned();
                s.append(rtt_ms);
                s.append(" ms   mất gói ");
                s.append(loss);
                s.append("%   mtu ");
                push_decimal(&mut s, stats.current_mtu as u64);
                if self.relayed {
                    s.append("   qua relay");
                } else {
                    s.append("");
                }
                put(&mut r, s, Tone::Warn);
            },
            None => {},
        }
        put(&mut r, "F10 ẩn/hiện bảng này   F8 chat".to_owned(), Tone::Warn);
        assert(crate::app::ui::shown(r@) =~= overlay(self.page(), rtt_ms@, loss@));
        r
    }

    /// The lines on a host's page: code and password for the other end, then how things are.
    pub fn draw_host_card(&self, code: &str, rtt_ms: &str) -> (r: Vec<Item>)
        ensures
            crate::app::ui::shown(r@) == host_card(self.page(), code@, rtt_ms@),
    {
        let mut r: Vec<Item> = Vec::new();
        assert(crate::app::ui::shown(r@) =~= seq![]);
        put(&mut r, "Máy này đang cho điều khiển từ xa".to_owned(), Tone::Strong);
        match self.code {
            Some(_) => {
                put(&mut r, "Mã máy — đọc cho người kia gõ vào:".to_owned(), Tone::Plain);
                put(&mut r, code.to_owned(), Tone::Strong);
            },
            None => {
                put(
                    &mut r,
                    "Chưa có mã — chưa nối được rendezvous server.".to_owned(),
                    Tone::Plain,
                );
                put(&mut r, "Vẫn nối thẳng theo IP:cổng được.".to_owned(), Tone::Small);
            },
        }
        let ghost head = crate::app::ui::shown(r@);
        let mut i: usize = 0;
        assert(head + address_lines(texts(self.addresses@).take(0)) =~= head);
        while i < self.addresses.len()
            invariant
                i <= self.addresses@.len(),
                crate::app::ui::shown(r@) == head + address_lines(
                    texts(self.addresses@).take(i as int),
                ),
            decreases self.addresses@.len() - i,
        {
            put(&mut r, "Địa chỉ để máy kia gõ:".to_owned(), Tone::Plain);
            put(&mut r, self.addresses[i].as_str().to_owned(), Tone::Strong);
            proof {
                let next = texts(self.addresses@).take(i + 1);
                assert(next.drop_last() =~= texts(self.addresses@).take(i as int));
                assert(crate::app::ui::shown(r@) =~= head + address_lines(next));
            }
            i += 1;
        }
        assert(texts(self.addresses@).take(i as int) =~= texts(self.addresses@));
        put(&mut r, "Mật khẩu phiên:".to_owned(), Tone::Plain);
        put(&mut r, self.password.as_str().to_owned(), Tone::Strong);
        put(&mut r, self.status.as_str().to_owned(), Tone::Small);
        match self.link {
            Some(stats) => {
                let mut s: String = "rtt ".to_owned();
                s.append(rtt_ms);
                s.append(" ms   đã gửi ");
                s.append(crate::app::ui::bytes(stats.bytes_sent).as_str());
                s.append("   đã nhận ");
                s.append(crate::app::ui::bytes(stats.bytes_received).as_str());
                put(&mut r, s, Tone::Small);
            },
            None => {},
        }
        match &self.info {
            Some(info) => {
                let mut s: String = "đang mã hoá ".to_owned();
                push_decimal(&mut s, info.width as u64);
                s.append("x");
                push_decimal(&mut s, info.height as u64);
                s.append(" ");
                s.append(info.codec.name());
                s.append(" ");
                s.append(info.chroma.name());
                s.append(" @");
                push_decimal(&mut s, info.target_fps as u64);
                s.append(" fps");
                put(&mut r, s, Tone::Small);
            },
            None => {},
        }
        assert(crate::app::ui::shown(r@) =~= host_card(self.page(), code@, rtt_ms@));
        r
    }

    pub fn role(&self) -> (r: Role)
        ensures
            r == self.page().role,
    {
        self.role
    }

    pub fn bitrate_kbps(&self) -> (r: u32)
        ensures
            r == self.page().bitrate_kbps,
    {
        self.bitrate_kbps
    }

    pub fn control_on(&self) -> (r: bool)
        ensures
            r == self.page().control_on,
    {
        self.control_on
    }

    pub fn show_hud(&self) -> (r: bool)
        ensures
            r == self.page().show_hud,
    {
        self.show_hud
    }

    pub fn show_panel(&self) -> (r: bool)
        ensures
            r == self.page().show_panel,
    {
        self.show_panel
    }

    pub fn pictured(&self) -> (r: bool)
        ensures
            r == self.page().pictured,
    {
        self.pictured
    }

    pub fn unread(&self) -> (r: u32)
        ensures
            r == self.page().unread,
    {
        self.unread
    }

    pub fn link(&self) -> (r: Option<LinkStats>)
        ensures
            r == self.page().link,
    {
        self.link
    }

    pub fn latency_us(&self) -> (r: Option<u64>)
        ensures
            r == self.page().latency_us,
    {
        self.latency_us
    }

    pub fn code(&self) -> (r: Option<PeerId>)
        ensures
            r == self.page().code,
    {
        self.code
    }

    pub fn info(&self) -> (r: Option<&PipelineInfo>)
        ensures
            crate::app::ui::info_of(r) == self.page().info,
    {
        match &self.info {
            Some(info) => Some(info),
            None => None,
        }
    }

    /// The code without gaps, for the clipboard.
    pub fn copied_code(&self) -> (r: Option<String>)
        ensures
            match r {
                Some(text) => self.page().code matches Some(id) && text@ == crate::text::decimal(
                    id.number as nat,
                ),
                None => self.page().code is None,
            },
    {
        match self.code {
            Some(id) => {
                let mut s: String = String::new();
                push_decimal(&mut s, id.number as u64);
                Some(s)
            },
            None => None,
        }
    }

    /// The password, for the clipboard.
    pub fn copied_password(&self) -> (r: String)
        ensures
            r@ == self.page().password,
    {
        self.password.as_str().to_owned()
    }

    /// What stands in the middle while there is no picture: black alone would look broken.
    pub fn waiting(&self) -> (r: Option<String>)
        ensures
            match r {
                Some(text) => if self.page().info is None {
                    text@ == self.page().status
                } else {
                    !self.page().pictured && text@ == "Đã nối — đang chờ hình từ máy kia…"@
                },
                None => self.page().info is Some && self.page().pictured,
            },
    {
        match &self.info {
            None => Some(self.status.as_str().to_owned()),
            Some(_) => if self.pictured {
                None
            } else {
                Some("Đã nối — đang chờ hình từ máy kia…".to_owned())
            },
        }
    }

    /// Whether the clipboard is looked at: where it is not to be shared, not even that.
    pub fn sync_clipboard(&self) -> (r: bool)
        ensures
            r == self.page().sync_clipboard,
    {
        self.sync_clipboard
    }

    /// The chat.
    pub fn chat(&self) -> (r: &ChatLog)
        ensures
            said(r.list()) == self.page().said,
            times(r.list()) == self.heard(),
    {
        &self.chat
    }

    /// The files.
    pub fn transfers(&self) -> (r: &Transfers)
        ensures
            rows(r.all()) == self.page().rows,
            starts(r.all()) == self.clocked(),
    {
        &self.transfers
    }
}

pub open spec fn overlay(page: Page, rtt_ms: Seq<char>, loss: Seq<char>) -> Seq<
    crate::app::ui::Shown,
> {
    let control = crate::app::ui::Shown::Text(
        "điều khiển: "@ + (if page.control_on {
            "bật"@
        } else {
            "tắt"@
        }) + " (F9)"@,
        if page.control_on {
            Tone::Good
        } else {
            Tone::Warn
        },
    );
    let keys = crate::app::ui::Shown::Text("F10 ẩn/hiện bảng này   F8 chat"@, Tone::Warn);
    match page.link {
        Some(stats) => seq![
            control,
            crate::app::ui::Shown::Text(
                "rtt "@ + rtt_ms + " ms   mất gói "@ + loss + "%   mtu "@ + crate::text::decimal(
                    stats.current_mtu as nat,
                ) + (if page.relayed {
                    "   qua relay"@
                } else {
                    ""@
                }),
                Tone::Warn,
            ),
            keys,
        ],
        None => seq![control, keys],
    }
}

/// The code for the other end, or that there is none yet.
pub open spec fn code_lines(page: Page, code: Seq<char>) -> Seq<crate::app::ui::Shown> {
    match page.code {
        Some(_) => seq![
            crate::app::ui::Shown::Text("Mã máy — đọc cho người kia gõ vào:"@, Tone::Plain),
            crate::app::ui::Shown::Text(code, Tone::Strong),
        ],
        None => seq![
            crate::app::ui::Shown::Text(
                "Chưa có mã — chưa nối được rendezvous server."@,
                Tone::Plain,
            ),
            crate::app::ui::Shown::Text("Vẫn nối thẳng theo IP:cổng được."@, Tone::Small),
        ],
    }
}

/// Where this machine can be reached without a code.
pub open spec fn address_lines(addresses: Seq<Seq<char>>) -> Seq<crate::app::ui::Shown>
    decreases addresses.len(),
{
    if addresses.len() == 0 {
        seq![]
    } else {
        address_lines(addresses.drop_last()) + seq![
            crate::app::ui::Shown::Text("Địa chỉ để máy kia gõ:"@, Tone::Plain),
            crate::app::ui::Shown::Text(addresses.last(), Tone::Strong),
        ]
    }
}

pub open spec fn link_lines(page: Page, rtt_ms: Seq<char>) -> Seq<crate::app::ui::Shown> {
    match page.link {
        Some(stats) => seq![
            crate::app::ui::Shown::Text(
                "rtt "@ + rtt_ms + " ms   đã gửi "@ + crate::app::ui::size_text(
                    stats.bytes_sent as nat,
                ) + "   đã nhận "@ + crate::app::ui::size_text(stats.bytes_received as nat),
                Tone::Small,
            ),
        ],
        None => seq![],
    }
}

pub open spec fn encoder_lines(page: Page) -> Seq<crate::app::ui::Shown> {
    match page.info {
        Some(info) => seq![
            crate::app::ui::Shown::Text(
                "đang mã hoá "@ + crate::text::decimal(info.width as nat) + "x"@
                    + crate::text::decimal(info.height as nat) + " "@ + info.codec.label() + " "@
                    + info.chroma.label() + " @"@ + crate::text::decimal(info.target_fps as nat)
                    + " fps"@,
                Tone::Small,
            ),
        ],
        None => seq![],
    }
}

pub open spec fn host_card(page: Page, code: Seq<char>, rtt_ms: Seq<char>) -> Seq<
    crate::app::ui::Shown,
> {
    seq![crate::app::ui::Shown::Text("Máy này đang cho điều khiển từ xa"@, Tone::Strong)]
        + code_lines(page, code) + address_lines(page.addresses) + seq![
        crate::app::ui::Shown::Text("Mật khẩu phiên:"@, Tone::Plain),
        crate::app::ui::Shown::Text(page.password, Tone::Strong),
        crate::app::ui::Shown::Text(page.status, Tone::Small),
    ] + link_lines(page, rtt_ms) + encoder_lines(page)
}

/// What stands under the name of a file.
#[derive(Debug)]
pub enum Footer {
    /// Take it or not.
    Ask,
    /// `folder` is the file to show in its folder: one that came has a button for that.
    Text { text: String, tone: Tone, folder: Option<String> },
    /// A bar, with how much is done of how much, and the speed.
    Bar { part: u64, whole: u64 },
}

/// The name of a file as it is shown, with an arrow and its size.
pub open spec fn row_title(row: Row) -> Seq<char> {
    (if row.direction is Out {
        "↑"@
    } else {
        "↓"@
    }) + " "@ + row.name + "  ("@ + crate::app::ui::size_text(row.size as nat) + ")"@
}

/// One row of the files.
pub fn draw_transfers(item: &Transfer) -> (r: (String, Footer))
    ensures
        r.0@ == row_title(item.row()),
        match item.state {
            TransferState::Offered => if item.direction is In {
                r.1 is Ask
            } else {
                r.1 matches Footer::Text { text, tone, folder } && text@ == "chờ đầu kia đồng ý"@
                    && tone is Small && folder is None
            },
            TransferState::Active => r.1 matches Footer::Bar { part, whole } && (part, whole) == (
            if item.size == 0 {
                (1u64, 1u64)
            } else if item.done > item.size {
                (item.size, item.size)
            } else {
                (item.done, item.size)
            }),
            TransferState::Done(path) => r.1 matches Footer::Text { text, tone, folder } && tone is Good
                && text@ == (match path {
                Some(p) => "xong → "@ + p@,
                None => "xong"@,
            }) && view_of(folder) == (if item.direction is In {
                view_of(path)
            } else {
                None
            }),
            TransferState::Rejected => r.1 matches Footer::Text { text, tone, folder } && tone
                is Warn && text@ == "bị từ chối"@ && folder is None,
            TransferState::Failed(reason) => r.1 matches Footer::Text { text, tone, folder } && tone
                is Bad && text@ == reason@ && folder is None,
        },
{
    let mut title: String = String::new();
    match item.direction {
        Direction::Out => {
            title.append("↑");
        },
        Direction::In => {
            title.append("↓");
        },
    }
    title.append(" ");
    title.append(item.name.as_str());
    title.append("  (");
    title.append(crate::app::ui::bytes(item.size).as_str());
    title.append(")");
    assert(title@ =~= row_title(item.row()));
    let footer = match &item.state {
        TransferState::Offered => match item.direction {
            Direction::In => Footer::Ask,
            Direction::Out => Footer::Text {
                text: "chờ đầu kia đồng ý".to_owned(),
                tone: Tone::Small,
                folder: None,
            },
        },
        TransferState::Active => {
            let (part, whole) = item.ratio();
            Footer::Bar { part, whole }
        },
        TransferState::Done(path) => {
            let text: String = match path {
                Some(p) => {
                    let mut s: String = "xong → ".to_owned();
                    s.append(p.as_str());
                    s
                },
                None => "xong".to_owned(),
            };
            let folder: Option<String> = match (item.direction, path) {
                (Direction::In, Some(p)) => Some(p.as_str().to_owned()),
                _ => None,
            };
            Footer::Text { text, tone: Tone::Good, folder }
        },
        TransferState::Rejected => Footer::Text {
            text: "bị từ chối".to_owned(),
            tone: Tone::Warn,
            folder: None,
        },
        TransferState::Failed(reason) => Footer::Text {
            text: reason.as_str().to_owned(),
            tone: Tone::Bad,
            folder: None,
        },
    };
    (title, footer)
}

/// The speed beside a bar, from so many bytes per second.
pub fn speed_text(per_second: u64) -> (s: String)
    ensures
        s@ == crate::app::ui::size_text(per_second as nat) + "/s"@,
{
    let mut s: String = crate::app::ui::bytes(per_second);
    s.append("/s");
    s
}

/// One line of the chat: who, in which tone, what, and when.
pub fn draw_chat(entry: &ChatEntry, now_ms: u64) -> (r: (String, Tone, String, String))
    ensures
        r.0@ == (match entry.who {
            Who::Me => "bạn"@,
            Who::Peer => entry.name@,
            Who::System => "•"@,
        }),
        r.1 == (match entry.who {
            Who::Me => Tone::Good,
            Who::Peer => Tone::Warn,
            Who::System => Tone::Gray,
        }),
        r.2@ == entry.body@,
        r.3@ == ago_text(now_ms, entry.at_ms),
{
    let (prefix, tone): (String, Tone) = match entry.who {
        Who::Me => ("bạn".to_owned(), Tone::Good),
        Who::Peer => (entry.name.as_str().to_owned(), Tone::Warn),
        Who::System => ("•".to_owned(), Tone::Gray),
    };
    (prefix, tone, entry.body.as_str().to_owned(), ago(now_ms, entry.at_ms))
}

proof fn place_is_first(rows: Seq<Row>, id: u64, from: int)
    requires
        0 <= from,
    ensures
        match place_from(rows, id, from) {
            Some(i) => from <= i < rows.len() && rows[i].id == id && forall|j: int|
                from <= j < i ==> (#[trigger] rows[j]).id != id,
            None => forall|j: int| from <= j < rows.len() ==> (#[trigger] rows[j]).id != id,
        },
    decreases rows.len() - from,
{
    if from < rows.len() && rows[from].id != id {
        place_is_first(rows, id, from + 1);
    }
}

/// What is shown beside the chat and the files comes from one kind of event each. The last sentence
/// for the user, the code, who is at the other end and whether over a relay, the video, the link,
/// the latency and the end; when the other end leaves, all that was known of it goes.
pub proof fn each_part_of_the_page_has_its_event(page: Page, event: NetEvent)
    ensures
        ({
            let after = page.after(event);
            &&& event matches NetEvent::Status(text) ==> after.status == text@
            &&& !(event is Status) ==> after.status == page.status
            &&& event matches NetEvent::Code(id) ==> after.code == Some(id)
            &&& !(event is Code) ==> after.code == page.code
            &&& event matches NetEvent::Connected { name, relayed, .. } ==> after.peer == Some(
                name@,
            ) && after.relayed == relayed
            &&& event is PeerLeft ==> after.peer is None && after.info is None && !after.pictured
                && after.latency_us is None
            &&& !(event is Connected) ==> after.relayed == page.relayed
            &&& !(event is Connected) && !(event is PeerLeft) ==> after.peer == page.peer
            &&& event matches NetEvent::Info(info) ==> after.info == Some(info)
            &&& !(event is Info) && !(event is PeerLeft) ==> after.info == page.info
            &&& !(event is PeerLeft) ==> after.pictured == page.pictured
            &&& event matches NetEvent::Link(stats) ==> after.link == Some(stats)
            &&& !(event is Link) ==> after.link == page.link
            &&& event matches NetEvent::Latency(us) ==> after.latency_us == Some(us)
            &&& !(event is Latency) && !(event is PeerLeft) ==> after.latency_us == page.latency_us
            &&& event matches NetEvent::Disconnected(reason) ==> after.ended == Some(reason@)
            &&& !(event is Disconnected) ==> after.ended == page.ended
            &&& after.addresses == page.addresses
        }),
{
}

/// A message of the other end is the last line, under its name and to the letter. It is unread
/// where the chat is not shown. Offers of the other end are always unread; nothing else is.
pub proof fn messages_are_the_last_line(page: Page, event: NetEvent)
    requires
        page.unread < 0xffff_ffff,
    ensures
        ({
            let after = page.after(event);
            let counts = event is IncomingOffer || (event is Chat && !page.show_panel);
            &&& event matches NetEvent::Chat(message) ==> after.said.len() == page.said.len() + 1
                && after.said.drop_last() == page.said && after.said.last().who is Peer
                && after.said.last().name == message.from@ && after.said.last().body
                == message.body@
            &&& counts ==> after.unread == page.unread + 1
            &&& !counts ==> after.unread == page.unread
        }),
{
    let after = page.after(event);
    if event is Chat {
        assert(after.said.drop_last() =~= page.said);
    }
}

/// The program adds a line of its own when the other end comes or goes, when a file is offered,
/// when one is done or fails, and at the end of the session, and at no other time.
pub proof fn the_program_says_seven_things(page: Page, event: NetEvent)
    ensures
        ({
            let after = page.after(event);
            let speaks = event is Connected || event is PeerLeft || event is OutgoingOffer || event
                is IncomingOffer || event is TransferDone || event is TransferFailed || event
                is Disconnected;
            &&& speaks ==> after.said.len() == page.said.len() + 1 && after.said.drop_last()
                == page.said && after.said.last().who is System
            &&& !speaks && !(event is Chat) ==> after.said == page.said
            &&& event matches NetEvent::OutgoingOffer(offer) ==> after.said.last().body
                == "đang gửi "@ + offer.name@
            &&& event matches NetEvent::IncomingOffer(offer) ==> after.said.last().body
                == page.peer_name() + " muốn gửi "@ + offer.name@
            &&& event matches NetEvent::TransferDone { path, .. } ==> after.said.last().body
                == "xong: "@ + path@
            &&& event matches NetEvent::TransferFailed { reason, .. } ==> after.said.last().body
                == "tệp lỗi: "@ + reason@
            &&& event matches NetEvent::Disconnected(reason) ==> after.said.last().body
                == "phiên kết thúc: "@ + reason@
            &&& event is PeerLeft ==> after.said.last().body == "đầu kia đã ngắt"@
            &&& event matches NetEvent::Connected { peer, name, relayed: false } ==>
                after.said.last().body == name@ + " ("@ + peer@ + ") đã nối"@
            &&& event matches NetEvent::Connected { peer, name, relayed: true } ==>
                after.said.last().body == name@ + " ("@ + peer@ + ") đã nối"@ + " qua relay"@
            &&& page.peer matches Some(name) ==> page.peer_name() == name
        }),
{
    let after = page.after(event);
    reveal_strlit("");
    if let NetEvent::Connected { peer, name, relayed } = event {
        let words = name@ + " ("@ + peer@ + ") đã nối"@;
        assert(words + ""@ =~= words);
    }
    if after.said.len() > page.said.len() {
        assert(after.said.drop_last() =~= page.said);
    }
}

/// A file that is offered comes last in the list, with nothing done, the way it goes, and what the
/// offer says of it.
pub proof fn offered_files_come_last(page: Page, offer: FileOffer)
    ensures
        ({
            let out = page.after(NetEvent::OutgoingOffer(offer)).rows;
            let come = page.after(NetEvent::IncomingOffer(offer)).rows;
            &&& out.len() == page.rows.len() + 1
            &&& out.drop_last() == page.rows
            &&& out.last().direction is Out
            &&& out.last().id == offer.transfer_id
            &&& out.last().name == offer.name@
            &&& out.last().size == offer.size
            &&& out.last().done == 0
            &&& out.last().state is Offered
            &&& come == out.drop_last().push(Row { direction: Direction::In, ..out.last() })
        }),
{
    assert(page.after(NetEvent::OutgoingOffer(offer)).rows.drop_last() =~= page.rows);
}

/// What is reported of a file changes its row alone, the first one of that number, and only in what
/// is reported: that it was taken, turned down, has failed or is done, or how far it is. A report
/// on progress also makes one that was only offered run.
pub proof fn reports_change_one_row(page: Page, event: NetEvent, id: u64, i: int)
    requires
        0 <= i < page.rows.len(),
        page.rows[i].id == id,
        forall|j: int| 0 <= j < i ==> (#[trigger] page.rows[j]).id != id,
        event == NetEvent::TransferAccepted(id) || event == NetEvent::TransferRejected(id) || (
        event matches NetEvent::TransferProgress { id: n, .. } && n == id) || (
        event matches NetEvent::TransferDone { id: n, .. } && n == id) || (
        event matches NetEvent::TransferFailed { id: n, .. } && n == id),
    ensures
        ({
            let before = page.rows[i];
            let after = page.after(event).rows;
            let row = after[i];
            &&& after.len() == page.rows.len()
            &&& forall|j: int| 0 <= j < after.len() && j != i ==> #[trigger] after[j] == page.rows[j]
            &&& row.id == id
            &&& row.name == before.name
            &&& row.size == before.size
            &&& row.direction == before.direction
            &&& event is TransferAccepted ==> row.state is Active && row.done == before.done
            &&& event is TransferRejected ==> row.state is Rejected && row.done == before.done
            &&& event matches NetEvent::TransferProgress { done, .. } ==> row.done == done && (
            before.state is Offered ==> row.state is Active) && (!(before.state is Offered)
                ==> row.state == before.state)
            &&& event matches NetEvent::TransferDone { path, .. } ==> row.done == before.size && (
            row.state matches TransferState::Done(Some(at)) && at == path)
            &&& event matches NetEvent::TransferFailed { reason, .. } ==> row.done == before.done && (
            row.state matches TransferState::Failed(why) && why == reason)
        }),
{
    place_is_first(page.rows, id, 0);
}

/// The files stay as they are in every event that is about none, or about one that is not listed.
pub proof fn other_events_leave_the_files(page: Page, event: NetEvent)
    requires
        !(event is OutgoingOffer) && !(event is IncomingOffer),
        event matches NetEvent::TransferAccepted(id) ==> forall|j: int|
            0 <= j < page.rows.len() ==> (#[trigger] page.rows[j]).id != id,
        event matches NetEvent::TransferRejected(id) ==> forall|j: int|
            0 <= j < page.rows.len() ==> (#[trigger] page.rows[j]).id != id,
        event matches NetEvent::TransferProgress { id, .. } ==> forall|j: int|
            0 <= j < page.rows.len() ==> (#[trigger] page.rows[j]).id != id,
        event matches NetEvent::TransferDone { id, .. } ==> forall|j: int|
            0 <= j < page.rows.len() ==> (#[trigger] page.rows[j]).id != id,
        event matches NetEvent::TransferFailed { id, .. } ==> forall|j: int|
            0 <= j < page.rows.len() ==> (#[trigger] page.rows[j]).id != id,
    ensures
        page.after(event).rows == page.rows,
{
    match event {
        NetEvent::TransferAccepted(id) => place_is_first(page.rows, id, 0),
        NetEvent::TransferRejected(id) => place_is_first(page.rows, id, 0),
        NetEvent::TransferProgress { id, .. } => place_is_first(page.rows, id, 0),
        NetEvent::TransferDone { id, .. } => place_is_first(page.rows, id, 0),
        NetEvent::TransferFailed { id, .. } => place_is_first(page.rows, id, 0),
        _ => {},
    }
}

/// Events one after the other change what each of them changes, and what happened before counts no
/// more than the page that it left.
pub proof fn events_follow_each_other(page: Page, first: Seq<NetEvent>, then: Seq<NetEvent>)
    ensures
        page.after_all(first + then) == page.after_all(first).after_all(then),
        forall|event: NetEvent| page.after_all(seq![event]) == #[trigger] page.after(event),
    decreases then.len(),
{
    if then.len() == 0 {
        assert(first + then =~= first);
    } else {
        events_follow_each_other(page, first, then.drop_last());
        assert((first + then).drop_last() =~= first + then.drop_last());
        assert((first + then).last() == then.last());
    }
    assert forall|event: NetEvent| page.after_all(seq![event]) == #[trigger] page.after(event) by {
        reveal_with_fuel(Page::after_all, 2);
        assert(seq![event].drop_last() =~= seq![]);
    }
}

/// What the other machine copied is handed on in its order, and nothing else.
pub proof fn only_copied_texts_are_handed_on(events: Seq<NetEvent>, event: NetEvent)
    ensures
        copied(Seq::<NetEvent>::empty()).len() == 0,
        event matches NetEvent::Clipboard(text) ==> copied(events.push(event)) == copied(
            events,
        ).push(text@),
        !(event is Clipboard) ==> copied(events.push(event)) == copied(events),
{
    assert(events.push(event).drop_last() =~= events);
}

/// A line of the chat has the time that its message says; each line that is added has one.
pub proof fn each_line_has_one_time(page: Page, event: NetEvent)
    ensures
        stamp(event).len() == page.after(event).said.len() - page.said.len(),
        event matches NetEvent::Chat(message) ==> stamp(event)[0] == Some(message.sent_at_ms),
        !(event is Chat) ==> forall|i: int|
            0 <= i < stamp(event).len() ==> #[trigger] stamp(event)[i] is None,
{
}

/// The speed of a file is measured from when the other end took it.
pub proof fn speeds_are_measured_from_the_yes(page: Page, event: NetEvent, i: int)
    requires
        0 <= i < page.rows.len(),
    ensures
        page.restart(event) == Some(i) <==> (event matches NetEvent::TransferAccepted(id)
            && page.rows[i].id == id && forall|j: int|
            0 <= j < i ==> (#[trigger] page.rows[j]).id != id),
{
    if let NetEvent::TransferAccepted(id) = event {
        place_is_first(page.rows, id, 0);
    }
}

/// Under ten seconds it was just now; then it is told in seconds, in minutes from one on, and in
/// hours from one on, whole ones. A time that lies ahead is just now.
pub proof fn times_are_told_in_whole_units(now_ms: u64, at_ms: u64)
    ensures
        ({
            let past = now_ms - at_ms;
            let text = ago_text(now_ms, at_ms);
            &&& past < 10_000 ==> text == "vừa xong"@
            &&& 10_000 <= past < 60_000 ==> text == crate::text::decimal((past / 1000) as nat)
                + "s"@
            &&& 60_000 <= past < 3_600_000 ==> text == crate::text::decimal(
                (past / 60_000) as nat,
            ) + " phút"@
            &&& 3_600_000 <= past ==> text == crate::text::decimal((past / 3_600_000) as nat)
                + " giờ"@
        }),
{
    let past = now_ms - at_ms;
    if past >= 0 {
        assert(past / 1000 / 60 == past / 60_000);
        assert(past / 1000 / 3600 == past / 3_600_000);
    }
}

/// The bar goes from 1000 to 200000.
pub proof fn the_bar_has_two_ends(kbps: u32)
    ensures
        1_000 <= in_bar(kbps) <= 200_000,
        1_000 <= kbps <= 200_000 ==> in_bar(kbps) == kbps,
        kbps < 1_000 ==> in_bar(kbps) == 1_000,
        kbps > 200_000 ==> in_bar(kbps) == 200_000,
{
}

/// A session begins with nothing said, nothing sent and nobody there, with control off and the
/// clipboard shared, and with the addresses of this machine, first at home and then in the tailnet.
pub proof fn sessions_begin_quietly(
    config: NetConfig,
    lan_ip: Option<Seq<char>>,
    tailscale_ip: Option<Seq<char>>,
)
    ensures
        ({
            let page = opening(config, lan_ip, tailscale_ip);
            let port = ":"@ + crate::text::decimal(config.bind.port as nat);
            &&& page.role == config.role
            &&& page.my_name == config.name@
            &&& page.password == config.password@
            &&& page.bitrate_kbps == config.bitrate_kbps
            &&& page.said.len() == 0
            &&& page.rows.len() == 0
            &&& page.unread == 0
            &&& page.peer is None && page.info is None && page.link is None && page.code is None
            &&& page.latency_us is None && page.ended is None && !page.pictured && !page.relayed
            &&& !page.control_on
            &&& page.show_hud && page.show_panel && page.sync_clipboard
            &&& lan_ip is None && tailscale_ip is None ==> page.addresses.len() == 0
            &&& lan_ip matches Some(ip) ==> page.addresses.len() > 0 && page.addresses[0] == ip
                + port
            &&& tailscale_ip matches Some(ip) ==> page.addresses.len() > 0 && page.addresses.last()
                == ip + port
            &&& lan_ip is Some && tailscale_ip is Some ==> page.addresses.len() == 2
            &&& page.addresses.len() <= 2
        }),
{
    if let Some(ip) = lan_ip {
        assert(ip + ":"@ + crate::text::decimal(config.bind.port as nat) =~= ip + (":"@
            + crate::text::decimal(config.bind.port as nat)));
    }
    if let Some(ip) = tailscale_ip {
        assert(ip + ":"@ + crate::text::decimal(config.bind.port as nat) =~= ip + (":"@
            + crate::text::decimal(config.bind.port as nat)));
    }
}

/// The card of a host shows the code where there is one, then every address with its line, and the
/// password.
pub proof fn every_address_is_shown(addresses: Seq<Seq<char>>, i: int)
    requires
        0 <= i < addresses.len(),
    ensures
        address_lines(addresses).len() == 2 * addresses.len(),
        address_lines(addresses)[2 * i] == crate::app::ui::Shown::Text(
            "Địa chỉ để máy kia gõ:"@,
            Tone::Plain,
        ),
        address_lines(addresses)[2 * i + 1] == crate::app::ui::Shown::Text(
            addresses[i],
            Tone::Strong,
        ),
    decreases addresses.len(),
{
    let front = addresses.drop_last();
    if front.len() > 0 {
        every_address_is_shown(
            front,
            if i < front.len() {
                i
            } else {
                0
            },
        );
    } else {
        assert(address_lines(front).len() == 0);
    }
}

/// Each key switches its own part on and off, and none does while text is typed; control can be
/// switched only by who watches. A chat that is shown has nothing unread.
pub proof fn keys_switch_their_part(
    state: &mut SessionState,
    typing: bool,
    hud: bool,
    panel: bool,
    control: bool,
)
    requires
        call_ensures(SessionState::hotkeys, (state, typing, hud, panel, control), ()),
    ensures
        ({
            let before = old(state).page();
            let after = final(state).page();
            &&& typing ==> after == before
            &&& !typing ==> (after.show_hud != before.show_hud <==> hud)
            &&& !typing ==> (after.show_panel != before.show_panel <==> panel)
            &&& !typing ==> (after.control_on != before.control_on <==> control && before.role
                is Viewer)
            &&& !typing && after.show_panel ==> after.unread == 0
            &&& !typing && !after.show_panel ==> after.unread == before.unread
            &&& after.said == before.said && after.rows == before.rows
            &&& after.ended == before.ended && after.peer == before.peer
        }),
{
}

/// Each click does its own: leaving leaves, a keyframe and a rate are asked for, an offer is
/// answered, and the rest switches what is shown. A rate goes out as it is shown, within the bar.
pub proof fn clicks_do_their_own(
    state: &mut SessionState,
    click: Click,
    r: (Outcome, Option<UiCommand>),
)
    requires
        call_ensures(SessionState::click, (state, click), r),
    ensures
        ({
            let before = old(state).page();
            let after = final(state).page();
            &&& r.0 is Leave <==> click is Leave
            &&& click is Keyframe ==> r.1 == Some(UiCommand::RequestKeyframe) && after == before
            &&& click matches Click::Bitrate(kbps) ==> r.1 == Some(
                UiCommand::SetBitrate(after.bitrate_kbps),
            ) && 1_000 <= after.bitrate_kbps <= 200_000 && (1_000 <= kbps <= 200_000
                ==> after.bitrate_kbps == kbps)
            &&& click matches Click::Accept(id) ==> r.1 == Some(UiCommand::AcceptFile(id))
            &&& click matches Click::Reject(id) ==> r.1 == Some(UiCommand::RejectFile(id))
            &&& r.1 is Some <==> click is Keyframe || click is Bitrate || click is Accept || click
                is Reject
            &&& after.show_panel != before.show_panel <==> click is Panel
            &&& after.control_on != before.control_on <==> click is Control
            &&& after.sync_clipboard != before.sync_clipboard <==> click is Clipboard
            &&& !(click is Bitrate) ==> after.bitrate_kbps == before.bitrate_kbps
            &&& click is Panel && after.show_panel ==> after.unread == 0
            &&& !(click is Accept) && !(click is Reject) ==> after.rows == before.rows
            &&& after.said == before.said
        }),
{
}

/// Input goes to the other machine only while control is on. When the window loses the focus,
/// everything is released last and control is off.
pub proof fn control_ends_with_the_focus(
    state: &mut SessionState,
    events: Vec<InputEvent>,
    release: InputEvent,
    focused: bool,
    r: Vec<UiCommand>,
)
    requires
        call_ensures(SessionState::steer, (state, events, release, focused), r),
    ensures
        !old(state).page().control_on ==> r@.len() == 0 && !final(state).page().control_on,
        old(state).page().control_on ==> (final(state).page().control_on <==> focused),
        old(state).page().control_on && focused && events@.len() > 0 ==> r@.len() == 1 && r@[0]
            == UiCommand::Input(events),
        old(state).page().control_on && focused && events@.len() == 0 ==> r@.len() == 0,
        old(state).page().control_on && !focused ==> r@.len() > 0 && (
        r@.last() matches UiCommand::Input(list) && list@.len() == 1 && list@[0] == release),
        final(state).page().said == old(state).page().said,
{
}

/// What was typed goes out without the white space around it, under the user's name, and stands as
/// the last line; the draft is empty then. A blank draft sends nothing and stays.
pub proof fn drafts_go_out_trimmed(
    state: &mut SessionState,
    draft: &mut String,
    r: Option<UiCommand>,
)
    requires
        call_ensures(SessionState::send_chat, (state, draft), r),
    ensures
        ({
            let typed = crate::text::trimmed(old(draft)@);
            &&& r is Some <==> typed.len() > 0
            &&& r is Some ==> (r matches Some(UiCommand::Chat(message)) && message.body@ == typed
                && message.from@ == old(state).page().my_name)
            &&& r is Some ==> final(draft)@.len() == 0 && final(state).page().said.len() == old(state).page().said.len() + 1 && final(state).page().said.last().who is Me && final(state).page().said.last().body == typed
            &&& r is None ==> *final(draft) == *old(draft) && final(state).page() == old(state).page()
        }),
{
}

/// A file is sent from where it was typed to lie, without the white space around it; every file
/// that was dropped on the window is sent, in order.
pub proof fn files_are_sent_from_where_they_lie(
    state: &SessionState,
    draft: &mut String,
    typed: Option<UiCommand>,
    paths: Vec<String>,
    dropped: Vec<UiCommand>,
    i: int,
)
    requires
        call_ensures(SessionState::send_file, (state, draft), typed),
        call_ensures(SessionState::take_dropped_files, (state, paths), dropped),
        0 <= i < paths@.len(),
    ensures
        typed is Some <==> crate::text::trimmed(old(draft)@).len() > 0,
        typed is Some ==> (typed matches Some(UiCommand::SendFile(path)) && path@
            == crate::text::trimmed(old(draft)@)) && final(draft)@.len() == 0,
        dropped@.len() == paths@.len(),
        dropped@[i] == UiCommand::SendFile(paths@[i]),
{
}

/// What the other machine copied is handed on only while the clipboard is shared, and the page is
/// what the events leave.
pub proof fn pumping_takes_the_events(
    state: &mut SessionState,
    events: Vec<NetEvent>,
    pictured: bool,
    r: Vec<String>,
)
    requires
        old(state).page().unread + events@.len() <= u32::MAX,
        call_ensures(SessionState::pump, (state, events, pictured), r),
    ensures
        !old(state).page().sync_clipboard ==> r@.len() == 0,
        old(state).page().sync_clipboard ==> texts(r@) == copied(events@),
        final(state).page().said == old(state).page().after_all(events@).said,
        final(state).page().rows == old(state).page().after_all(events@).rows,
        final(state).page().ended == old(state).page().after_all(events@).ended,
        final(state).page().control_on == old(state).page().control_on,
        pictured ==> final(state).page().pictured,
{
    events_leave_choices(old(state).page(), events@);
    if !old(state).page().sync_clipboard {
        assert(texts(r@).len() == r@.len());
    }
}

/// The part of a file that is there: of an empty one all, else what is done of its size, and never
/// more than all.
pub proof fn files_are_never_more_than_whole(item: &Transfer, r: (u64, u64))
    requires
        call_ensures(Transfer::ratio, (item,), r),
    ensures
        r.1 > 0 && r.0 <= r.1,
        item.size == 0 ==> r.0 == r.1,
        item.size > 0 && item.done <= item.size ==> r == (item.done, item.size),
        item.size > 0 && item.done > item.size ==> r.0 == r.1,
{
}

/// Under a millisecond counts as one when the speed is told.
pub proof fn speeds_count_a_millisecond(done: u64, passed_ns: u64, r: (u64, u64))
    requires
        call_ensures(pace, (done, passed_ns), r),
    ensures
        r.0 == done,
        passed_ns >= 1_000_000 ==> r.1 == passed_ns,
        passed_ns < 1_000_000 ==> r.1 == 1_000_000,
{
}

/// What stands under a file goes by its state: an offer of the other end asks, one that runs shows
/// how far it is, and the rest says what became of it; a file that came has its folder.
pub proof fn files_show_their_state(item: &Transfer, r: (String, Footer))
    requires
        call_ensures(draw_transfers, (item,), r),
    ensures
        r.1 is Ask <==> item.state is Offered && item.direction is In,
        r.1 is Bar <==> item.state is Active,
        r.1 matches Footer::Bar { part, whole } ==> part <= whole && (item.size > 0 && item.done
            <= item.size ==> part == item.done && whole == item.size),
        item.state matches TransferState::Failed(reason) ==> (r.1 matches Footer::Text {
            text,
            tone,
            ..
        } && text@ == reason@ && tone is Bad),
        item.state matches TransferState::Done(path) ==> (r.1 matches Footer::Text {
            tone,
            folder,
            ..
        } && tone is Good && (item.direction is In ==> view_of(folder) == view_of(path)) && (
        item.direction is Out ==> folder is None)),
{
}

/// A line of ours and one of the program come behind the others, each under its own sign.
pub proof fn new_lines_come_last(
    mine: &mut ChatLog,
    program: &mut ChatLog,
    name: &str,
    body: String,
)
    requires
        call_ensures(ChatLog::mine, (mine, name, body), ()),
        call_ensures(ChatLog::system, (program, body), ()),
    ensures
        final(mine).list().drop_last() == old(mine).list(),
        final(mine).list().last().who is Me && final(mine).list().last().name@ == name@ && final(mine).list().last().body@ == body@,
        final(program).list().drop_last() == old(program).list(),
        final(program).list().last().who is System && final(program).list().last().body@ == body@,
{
    assert(said(final(mine).list()).last() == said(final(mine).list())[final(mine).list().len()
        - 1]);
    assert(said(final(program).list()).last() == said(final(program).list())[final(program).list().len() - 1]);
}

/// The bar says what this machine does and how it goes: an end comes before a connection, a
/// connection before the waiting. Only who watches can control and set the rate.
pub proof fn the_bar_tells_how_it_goes(state: &SessionState, r: TopBar)
    requires
        call_ensures(SessionState::draw, (state,), r),
    ensures
        ({
            let page = state.page();
            &&& r.tone is Bad <==> page.ended is Some
            &&& r.tone is Good <==> page.ended is None && page.peer is Some
            &&& r.tone is Warn <==> page.ended is None && page.peer is None
            &&& view_of(r.peer) == page.peer
            &&& r.control is Some <==> page.role is Viewer
            &&& r.kbps is Some <==> page.role is Viewer
            &&& r.kbps matches Some(g) ==> g.value == page.bitrate_kbps && g.low == 1_000 && g.high
                == 200_000
            &&& page.unread > 0 ==> crate::text::says(
                r.panel@,
                crate::text::decimal(page.unread as nat),
            )
        }),
{
    let none = Seq::<char>::empty();
    crate::text::parts_are_said(
        "Chat/Tệp ("@,
        crate::text::decimal(state.page().unread as nat),
        none,
        none,
        ")"@,
    );
}

/// Something is waited for until there is a picture: first the status is shown, then that the
/// picture is to come.
pub proof fn waiting_ends_with_the_picture(state: &SessionState, r: Option<String>)
    requires
        call_ensures(SessionState::waiting, (state,), r),
    ensures
        r is None <==> state.page().info is Some && state.page().pictured,
        state.page().info is None ==> (r matches Some(text) && text@ == state.page().status),
{
}

/// A line of the chat is drawn with who said it, what was said and how long ago.
pub proof fn lines_are_drawn_as_said(
    entry: &ChatEntry,
    now_ms: u64,
    r: (String, Tone, String, String),
)
    requires
        call_ensures(draw_chat, (entry, now_ms), r),
    ensures
        entry.who is Peer ==> r.0@ == entry.name@,
        r.1 is Good <==> entry.who is Me,
        r.1 is Warn <==> entry.who is Peer,
        r.1 is Gray <==> entry.who is System,
        r.2@ == entry.body@,
        r.3@ == ago_text(now_ms, entry.at_ms),
{
}

/// What a page is asked for is what it holds.
pub proof fn pages_tell_what_they_hold(
    state: &SessionState,
    role: Role,
    kbps: u32,
    control: bool,
    hud: bool,
    panel: bool,
    pictured: bool,
    unread: u32,
    shared: bool,
)
    requires
        call_ensures(SessionState::role, (state,), role),
        call_ensures(SessionState::bitrate_kbps, (state,), kbps),
        call_ensures(SessionState::control_on, (state,), control),
        call_ensures(SessionState::show_hud, (state,), hud),
        call_ensures(SessionState::show_panel, (state,), panel),
        call_ensures(SessionState::pictured, (state,), pictured),
        call_ensures(SessionState::unread, (state,), unread),
        call_ensures(SessionState::sync_clipboard, (state,), shared),
    ensures
        role == state.page().role,
        kbps == state.page().bitrate_kbps,
        control == state.page().control_on,
        hud == state.page().show_hud,
        panel == state.page().show_panel,
        pictured == state.page().pictured,
        unread == state.page().unread,
        shared == state.page().sync_clipboard,
{
}

/// What is copied is the code in plain digits and the password as it is, and a page knows its link,
/// its delay and its code.
pub proof fn copies_are_plain(
    state: &SessionState,
    code: Option<String>,
    password: String,
    link: Option<LinkStats>,
    delay: Option<u64>,
    id: Option<PeerId>,
)
    requires
        call_ensures(SessionState::copied_code, (state,), code),
        call_ensures(SessionState::copied_password, (state,), password),
        call_ensures(SessionState::link, (state,), link),
        call_ensures(SessionState::latency_us, (state,), delay),
        call_ensures(SessionState::code, (state,), id),
    ensures
        code is Some <==> state.page().code is Some,
        code matches Some(text) ==> text@ == crate::text::decimal(
            state.page().code->0.number as nat,
        ),
        password@ == state.page().password,
        link == state.page().link && delay == state.page().latency_us && id == state.page().code,
{
}

} // verus!
