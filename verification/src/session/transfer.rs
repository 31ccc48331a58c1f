//! The book of file transfers of a session.
//!
//! A transfer goes through steps that lie seconds apart, each a message of its own: offered,
//! taken or turned down, running, done or failed. The book knows where each one stands and turns
//! away steps out of order: the other end may accept twice, accept what was never offered, or
//! report progress after the end.

use std::time::Instant;

use vstd::prelude::*;

use crate::clock::{elapsed_ns, instant_now};
use crate::protocol::control::FileOffer;

verus! {

/// Rows kept in the list. Where there are more, finished ones fall out.
pub const MAX_ITEMS: usize = 64;

/// Offers of the other end that may wait for an answer: all that stands between its eagerness and
/// our memory.
pub const MAX_PENDING_INCOMING: usize = 8;

#[derive(Debug, Clone, Copy, PartialEq, Eq, Structural)]
pub enum Direction {
    /// We send.
    Outgoing,
    /// We receive.
    Incoming,
}

#[derive(Debug, Clone, PartialEq, Eq)]
pub enum TransferState {
    /// Offered; one end has yet to answer.
    Offered,
    Active { done: u64 },
    Done {
        /// Where the file was put; only for one that we received.
        path: Option<String>,
    },
    Rejected,
    Failed { reason: String },
}

#[derive(Debug, Clone)]
pub struct Transfer {
    pub id: u64,
    pub name: String,
    pub size: u64,
    pub direction: Direction,
    pub state: TransferState,
    /// When it began to run.
    pub started: Option<Instant>,
    /// How long it ran, in nanoseconds.
    pub finished_in: Option<u64>,
}

impl Transfer {
    pub open spec fn finished(self) -> bool {
        self.state is Done || self.state is Rejected || self.state is Failed
    }

    pub open spec fn running(self) -> bool {
        self.state is Active
    }

    /// An offer of the other end that waits for our answer.
    pub open spec fn waiting(self) -> bool {
        self.direction is Incoming && self.state is Offered
    }

    pub open spec fn bytes(self) -> u64 {
        match self.state {
            TransferState::Active { done } => done,
            TransferState::Done { path } => self.size,
            _ => 0,
        }
    }

    /// The row with another state; all the rest is as before.
    pub open spec fn with_state(self, state: TransferState) -> Transfer {
        Transfer { state, ..self }
    }

    pub fn done_bytes(&self) -> (r: u64)
        ensures
            r == self.bytes(),
    {
        match &self.state {
            TransferState::Active { done } => *done,
            TransferState::Done { .. } => self.size,
            _ => 0,
        }
    }

    /// How much is done, as a fraction: its numerator and denominator. An empty file is a file: it
    /// is whole as soon as it runs.
    pub open spec fn ratio(self) -> (u64, u64) {
        if self.size == 0 {
            (
                if self.running() || self.state is Done {
                    1
                } else {
                    0
                },
                1,
            )
        } else if self.bytes() < self.size {
            (self.bytes(), self.size)
        } else {
            (self.size, self.size)
        }
    }

    pub fn fraction(&self) -> (r: (u64, u64))
        ensures
            r == self.ratio(),
            r.0 <= r.1,
            0 < r.1,
    {
        if self.size == 0 {
            return match &self.state {
                TransferState::Done { .. } | TransferState::Active { .. } => (1, 1),
                _ => (0, 1),
            };
        }
        let done: u64 = self.done_bytes();
        if done < self.size {
            (done, self.size)
        } else {
            (self.size, self.size)
        }
    }

    /// Average speed since it began: bytes, and the nanoseconds that they took. `None` before it
    /// runs, and where no time has passed.
    pub fn bytes_per_sec(&self) -> (r: Option<(u64, u64)>)
        ensures
            self.finished_in matches Some(ns) ==> r == speed(self.bytes(), ns),
            self.finished_in is None && self.started is None ==> r is None,
            r matches Some((bytes, ns)) ==> bytes == self.bytes() && ns > 0,
    {
        let ns: u64 = match self.finished_in {
            Some(ns) => ns,
            None => match &self.started {
                Some(at) => elapsed_ns(at),
                None => return None,
            },
        };
        speed_of(self.done_bytes(), ns)
    }

    pub fn is_finished(&self) -> (r: bool)
        ensures
            r == self.finished(),
    {
        match &self.state {
            TransferState::Done { .. } | TransferState::Rejected | TransferState::Failed { .. } => {
                true
            },
            _ => false,
        }
    }

    pub fn is_running(&self) -> (r: bool)
        ensures
            r == self.running(),
    {
        match &self.state {
            TransferState::Active { .. } => true,
            _ => false,
        }
    }

    fn is_waiting(&self) -> (r: bool)
        ensures
            r == self.waiting(),
    {
        match (&self.direction, &self.state) {
            (Direction::Incoming, TransferState::Offered) => true,
            _ => false,
        }
    }
}

pub open spec fn speed(bytes: u64, ns: u64) -> Option<(u64, u64)> {
    if ns == 0 {
        None
    } else {
        Some((bytes, ns))
    }
}

/// Bytes against the time that they took, where any time has passed.
pub fn speed_of(bytes: u64, ns: u64) -> (r: Option<(u64, u64)>)
    ensures
        r == speed(bytes, ns),
{
    if ns == 0 {
        None
    } else {
        Some((bytes, ns))
    }
}

/// The half of the numbers that this end may give out.
///
/// Both ends send files and number them without a referee. They share the numbers by the highest
/// bit, so nothing need be agreed on and a number shows who made it.
#[derive(Debug, Clone, Copy, PartialEq, Eq, Structural)]
pub enum IdSpace {
    Host,
    Viewer,
}

/// The highest bit.
pub const TAG: u64 = 0x8000_0000_0000_0000;

impl IdSpace {
    pub open spec fn mark(self) -> u64 {
        match self {
            IdSpace::Host => 0,
            IdSpace::Viewer => TAG,
        }
    }

    pub open spec fn other(self) -> IdSpace {
        match self {
            IdSpace::Host => IdSpace::Viewer,
            IdSpace::Viewer => IdSpace::Host,
        }
    }

    /// The number of this end for a count: the count without its highest bit, and the mark.
    pub open spec fn id(self, counter: nat) -> u64 {
        (counter % 0x8000_0000_0000_0000 + self.mark()) as u64
    }

    pub open spec fn has(self, id: u64) -> bool {
        (id >= TAG) == (self is Viewer)
    }

    pub fn tag(self) -> (r: u64)
        ensures
            r == self.mark(),
    {
        match self {
            IdSpace::Host => 0,
            IdSpace::Viewer => TAG,
        }
    }

    pub fn peer(self) -> (r: Self)
        ensures
            r == self.other(),
    {
        match self {
            IdSpace::Host => IdSpace::Viewer,
            IdSpace::Viewer => IdSpace::Host,
        }
    }

    pub fn make_id(self, counter: u64) -> (r: u64)
        ensures
            r == self.id(counter as nat),
            self.has(r),
    {
        counter % TAG + self.tag()
    }

    pub fn owns(self, id: u64) -> (r: bool)
        ensures
            r == self.has(id),
    {
        match self {
            IdSpace::Host => id < TAG,
            IdSpace::Viewer => id >= TAG,
        }
    }
}

/// The two ends never give out the same number, and every number belongs to exactly one of them.
pub proof fn ids_never_collide(a: nat, b: nat, id: u64)
    ensures
        IdSpace::Host.id(a) != IdSpace::Viewer.id(b),
        IdSpace::Host.has(IdSpace::Host.id(a)),
        IdSpace::Viewer.has(IdSpace::Viewer.id(b)),
        IdSpace::Host.has(id) != IdSpace::Viewer.has(id),
{
}

/// One end gives out the same number twice only after 2^63 others.
pub proof fn ids_do_not_repeat(space: IdSpace, a: nat, b: nat)
    requires
        a < b < a + 0x8000_0000_0000_0000,
    ensures
        space.id(a) != space.id(b),
{
    if a % 0x8000_0000_0000_0000 == b % 0x8000_0000_0000_0000 {
        assert((b - a) % 0x8000_0000_0000_0000 == 0) by (nonlinear_arith)
            requires
                a % 0x8000_0000_0000_0000 == b % 0x8000_0000_0000_0000,
        ;
    }
}

#[derive(Debug)]
pub struct Transfers {
    items: Vec<Transfer>,
    space: IdSpace,
    counter: u64,
}

/// Where the first row numbered `id` stands.
pub open spec fn first(rows: Seq<Transfer>, id: u64) -> Option<int>
    decreases rows.len(),
{
    if rows.len() == 0 {
        None
    } else if rows[0].id == id {
        Some(0)
    } else {
        match first(rows.drop_first(), id) {
            Some(i) => Some(i + 1),
            None => None,
        }
    }
}

/// Where the first finished row stands.
pub open spec fn first_finished(rows: Seq<Transfer>) -> Option<int>
    decreases rows.len(),
{
    if rows.len() == 0 {
        None
    } else if rows[0].finished() {
        Some(0)
    } else {
        match first_finished(rows.drop_first()) {
            Some(i) => Some(i + 1),
            None => None,
        }
    }
}

/// How many rows wait for our answer.
pub open spec fn waiting(rows: Seq<Transfer>) -> nat
    decreases rows.len(),
{
    if rows.len() == 0 {
        0
    } else {
        waiting(rows.drop_last()) + if rows.last().waiting() {
            1nat
        } else {
            0
        }
    }
}

/// How many rows are running.
pub open spec fn running_in(rows: Seq<Transfer>) -> nat
    decreases rows.len(),
{
    if rows.len() == 0 {
        0
    } else {
        running_in(rows.drop_last()) + if rows.last().running() {
            1nat
        } else {
            0
        }
    }
}

/// One more row at the end. Where the list is full, the first finished row makes room; a list full
/// of live rows grows rather than lose one.
pub open spec fn inserted(rows: Seq<Transfer>, row: Transfer) -> Seq<Transfer> {
    match first_finished(rows) {
        Some(i) if rows.len() >= MAX_ITEMS => rows.remove(i).push(row),
        _ => rows.push(row),
    }
}

/// A row for an offer.
pub open spec fn offered(offer: FileOffer, direction: Direction) -> Transfer {
    Transfer {
        id: offer.transfer_id,
        name: offer.name,
        size: offer.size,
        direction,
        state: TransferState::Offered,
        started: None,
        finished_in: None,
    }
}

/// The rows that stay when the finished ones numbered `id` are taken out.
pub open spec fn dismissed(rows: Seq<Transfer>, id: u64) -> Seq<Transfer>
    decreases rows.len(),
{
    if rows.len() == 0 {
        rows
    } else {
        let front = dismissed(rows.drop_last(), id);
        if rows.last().id == id && rows.last().finished() {
            front
        } else {
            front.push(rows.last())
        }
    }
}

/// A row that has just begun to run.
pub open spec fn begun(before: Transfer, after: Transfer) -> bool {
    &&& after.started is Some
    &&& after == Transfer {
        state: TransferState::Active { done: 0 },
        started: after.started,
        ..before
    }
}

/// A row that has just ended in `state`; the time it ran is known if it ran.
pub open spec fn ended(before: Transfer, after: Transfer, state: TransferState) -> bool {
    &&& (after.finished_in is Some) == (before.started is Some)
    &&& after == Transfer { state, finished_in: after.finished_in, ..before }
}

pub open spec fn larger(a: u64, b: u64) -> u64 {
    if a < b {
        b
    } else {
        a
    }
}

pub open spec fn smaller(a: u64, b: u64) -> u64 {
    if a < b {
        a
    } else {
        b
    }
}

proof fn first_meaning(rows: Seq<Transfer>, id: u64)
    ensures
        match first(rows, id) {
            Some(i) => 0 <= i < rows.len() && rows[i].id == id && forall|j: int|
                0 <= j < i ==> (#[trigger] rows[j]).id != id,
            None => forall|j: int| 0 <= j < rows.len() ==> (#[trigger] rows[j]).id != id,
        },
    decreases rows.len(),
{
    if rows.len() > 0 && rows[0].id != id {
        let rest = rows.drop_first();
        first_meaning(rest, id);
        assert forall|j: int| 1 <= j < rows.len() implies #[trigger] rows[j] == rest[j - 1] by {}
    }
}

proof fn first_is(rows: Seq<Transfer>, id: u64, i: int)
    requires
        0 <= i < rows.len(),
        rows[i].id == id,
        forall|j: int| 0 <= j < i ==> (#[trigger] rows[j]).id != id,
    ensures
        first(rows, id) == Some(i),
{
    first_meaning(rows, id);
}

proof fn first_finished_meaning(rows: Seq<Transfer>)
    ensures
        match first_finished(rows) {
            Some(i) => 0 <= i < rows.len() && rows[i].finished() && forall|j: int|
                0 <= j < i ==> !(#[trigger] rows[j]).finished(),
            None => forall|j: int| 0 <= j < rows.len() ==> !(#[trigger] rows[j]).finished(),
        },
    decreases rows.len(),
{
    if rows.len() > 0 && !rows[0].finished() {
        let rest = rows.drop_first();
        first_finished_meaning(rest);
        assert forall|j: int| 1 <= j < rows.len() implies #[trigger] rows[j] == rest[j - 1] by {}
    }
}

proof fn waiting_after_update(rows: Seq<Transfer>, i: int, row: Transfer)
    requires
        0 <= i < rows.len(),
    ensures
        waiting(rows.update(i, row)) == waiting(rows) - (if rows[i].waiting() {
            1int
        } else {
            0
        }) + (if row.waiting() {
            1int
        } else {
            0
        }),
    decreases rows.len(),
{
    let after = rows.update(i, row);
    if i == rows.len() - 1 {
        assert(after.drop_last() =~= rows.drop_last());
    } else {
        assert(after.drop_last() =~= rows.drop_last().update(i, row));
        waiting_after_update(rows.drop_last(), i, row);
    }
}

proof fn waiting_after_remove(rows: Seq<Transfer>, i: int)
    requires
        0 <= i < rows.len(),
    ensures
        waiting(rows.remove(i)) <= waiting(rows),
    decreases rows.len(),
{
    let after = rows.remove(i);
    if i == rows.len() - 1 {
        assert(after =~= rows.drop_last());
    } else {
        assert(after.drop_last() =~= rows.drop_last().remove(i));
        assert(after.last() == rows.last());
        waiting_after_remove(rows.drop_last(), i);
    }
}

proof fn waiting_after_insert(rows: Seq<Transfer>, row: Transfer)
    ensures
        waiting(inserted(rows, row)) <= waiting(rows) + (if row.waiting() {
            1nat
        } else {
            0
        }),
{
    first_finished_meaning(rows);
    let kept = match first_finished(rows) {
        Some(i) if rows.len() >= MAX_ITEMS => rows.remove(i),
        _ => rows,
    };
    if let Some(i) = first_finished(rows) {
        waiting_after_remove(rows, i);
    }
    assert(kept.push(row).drop_last() =~= kept);
}

impl Transfers {
    pub closed spec fn rows(&self) -> Seq<Transfer> {
        self.items@
    }

    pub closed spec fn end(&self) -> IdSpace {
        self.space
    }

    /// How many numbers were given out.
    pub closed spec fn count(&self) -> nat {
        self.counter as nat
    }

    /// What always holds: at most [`MAX_PENDING_INCOMING`] offers wait for our answer, and no row
    /// has more done than there is.
    pub open spec fn wf(&self) -> bool {
        &&& waiting(self.rows()) <= MAX_PENDING_INCOMING
        &&& forall|i: int|
            0 <= i < self.rows().len() ==> (#[trigger] self.rows()[i]).bytes()
                <= self.rows()[i].size
    }

    /// Whether only the rows differ from before.
    pub open spec fn same_end(&self, before: &Transfers) -> bool {
        self.end() == before.end() && self.count() == before.count()
    }

    pub fn new(space: IdSpace) -> (r: Self)
        ensures
            r.wf(),
            r.rows() == Seq::<Transfer>::empty(),
            r.end() == space,
            r.count() == 0,
    {
        Transfers { items: Vec::new(), space, counter: 0 }
    }

    /// All rows, the oldest first.
    pub fn iter(&self) -> (r: &[Transfer])
        ensures
            r@ == self.rows(),
    {
        self.items.as_slice()
    }

    /// The first row numbered `id`.
    pub fn get(&self, id: u64) -> (r: Option<&Transfer>)
        ensures
            match first(self.rows(), id) {
                Some(i) => r == Some(&self.rows()[i]),
                None => r is None,
            },
    {
        match self.find(id) {
            Some(i) => {
                proof {
                    first_meaning(self.items@, id);
                }
                Some(&self.items[i])
            },
            None => None,
        }
    }

    pub fn len(&self) -> (r: usize)
        ensures
            r == self.rows().len(),
    {
        self.items.len()
    }

    pub fn is_empty(&self) -> (r: bool)
        ensures
            r == (self.rows().len() == 0),
    {
        self.items.len() == 0
    }

    /// How many transfers are running.
    pub fn running(&self) -> (r: usize)
        ensures
            r == running_in(self.rows()),
    {
        let mut n: usize = 0;
        let mut i: usize = 0;
        while i < self.items.len()
            invariant
                i <= self.items@.len(),
                n <= i,
                n == running_in(self.items@.take(i as int)),
            decreases self.items@.len() - i,
        {
            assert(self.items@.take(i as int + 1).drop_last() =~= self.items@.take(i as int));
            if self.items[i].is_running() {
                n += 1;
            }
            i += 1;
        }
        assert(self.items@.take(i as int) =~= self.items@);
        n
    }

    /// Gives out the number of a file that we are about to offer.
    pub fn next_id(&mut self) -> (r: u64)
        requires
            old(self).wf(),
            old(self).count() < u64::MAX,
        ensures
            final(self).wf(),
            final(self).rows() == old(self).rows(),
            final(self).end() == old(self).end(),
            final(self).count() == old(self).count() + 1,
            r == final(self).end().id(final(self).count()),
    {
        self.counter = self.counter + 1;
        self.space.make_id(self.counter)
    }

    /// Notes an offer that we sent.
    pub fn offer_outgoing(&mut self, offer: &FileOffer)
        requires
            old(self).wf(),
        ensures
            final(self).wf(),
            final(self).same_end(old(self)),
            final(self).rows() == inserted(old(self).rows(), offered(*offer, Direction::Outgoing)),
    {
        self.insert(
            Transfer {
                id: offer.transfer_id,
                name: offer.name.clone(),
                size: offer.size,
                direction: Direction::Outgoing,
                state: TransferState::Offered,
                started: None,
                finished_in: None,
            },
        );
        proof {
            waiting_after_insert(old(self).rows(), offered(*offer, Direction::Outgoing));
        }
    }

    /// Whether an offer of the other end is taken into the book: its number is one of the other
    /// end's, is not in the book yet, and not too many offers wait already.
    pub open spec fn takes(&self, offer: FileOffer) -> bool {
        &&& self.end().other().has(offer.transfer_id)
        &&& first(self.rows(), offer.transfer_id) is None
        &&& waiting(self.rows()) < MAX_PENDING_INCOMING
    }

    /// Notes an offer of the other end; `false` where it is turned away.
    pub fn offer_incoming(&mut self, offer: &FileOffer) -> (r: bool)
        requires
            old(self).wf(),
        ensures
            final(self).wf(),
            final(self).same_end(old(self)),
            r == old(self).takes(*offer),
            final(self).rows() == (if r {
                inserted(old(self).rows(), offered(*offer, Direction::Incoming))
            } else {
                old(self).rows()
            }),
    {
        if !self.space.peer().owns(offer.transfer_id) {
            return false;
        }
        if self.find(offer.transfer_id).is_some() {
            return false;
        }
        if self.waiting_now() >= MAX_PENDING_INCOMING {
            return false;
        }
        self.insert(
            Transfer {
                id: offer.transfer_id,
                name: offer.name.clone(),
                size: offer.size,
                direction: Direction::Incoming,
                state: TransferState::Offered,
                started: None,
                finished_in: None,
            },
        );
        proof {
            waiting_after_insert(old(self).rows(), offered(*offer, Direction::Incoming));
        }
        true
    }

    /// Whether the first row numbered `id` is an offer in this direction that waits.
    pub open spec fn can_start(&self, id: u64, direction: Direction) -> bool {
        first(self.rows(), id) matches Some(i) && self.rows()[i].direction == direction
            && self.rows()[i].state is Offered
    }

    /// We take the file. `true` where the offer waited for us.
    pub fn accept_incoming(&mut self, id: u64) -> (r: bool)
        requires
            old(self).wf(),
        ensures
            final(self).wf(),
            final(self).same_end(old(self)),
            r == old(self).can_start(id, Direction::Incoming),
            r ==> started_at(old(self).rows(), final(self).rows(), id),
            !r ==> final(self).rows() == old(self).rows(),
    {
        self.start_if(id, Direction::Incoming)
    }

    /// The other end takes our file. `true` where that was asked of it.
    pub fn peer_accepted(&mut self, id: u64) -> (r: bool)
        requires
            old(self).wf(),
        ensures
            final(self).wf(),
            final(self).same_end(old(self)),
            r == old(self).can_start(id, Direction::Outgoing),
            r ==> started_at(old(self).rows(), final(self).rows(), id),
            !r ==> final(self).rows() == old(self).rows(),
    {
        self.start_if(id, Direction::Outgoing)
    }

    fn start_if(&mut self, id: u64, direction: Direction) -> (r: bool)
        requires
            old(self).wf(),
        ensures
            final(self).wf(),
            final(self).same_end(old(self)),
            r == old(self).can_start(id, direction),
            r ==> started_at(old(self).rows(), final(self).rows(), id),
            !r ==> final(self).rows() == old(self).rows(),
    {
        let i: usize = match self.find(id) {
            Some(i) => i,
            None => return false,
        };
        proof {
            first_meaning(self.items@, id);
        }
        if self.items[i].direction != direction || !matches!(self.items[i].state, TransferState::Offered) {
            return false;
        }
        let now: Instant = instant_now();
        self.items[i].state = TransferState::Active { done: 0 };
        self.items[i].started = Some(now);
        proof {
            let after = self.items@[i as int];
            waiting_after_update(old(self).items@, i as int, after);
            assert(self.items@ =~= old(self).items@.update(i as int, after));
            assert(begun(old(self).items@[i as int], after));
        }
        true
    }

    /// One end turned the offer down. `true` where there was one.
    pub fn reject(&mut self, id: u64) -> (r: bool)
        requires
            old(self).wf(),
        ensures
            final(self).wf(),
            final(self).same_end(old(self)),
            r == (first(old(self).rows(), id) matches Some(i) && old(self).rows()[i].state is Offered),
            final(self).rows() == (match first(old(self).rows(), id) {
                Some(i) if r => old(self).rows().update(
                    i,
                    old(self).rows()[i].with_state(TransferState::Rejected),
                ),
                _ => old(self).rows(),
            }),
    {
        let i: usize = match self.find(id) {
            Some(i) => i,
            None => return false,
        };
        proof {
            first_meaning(self.items@, id);
        }
        if !matches!(self.items[i].state, TransferState::Offered) {
            return false;
        }
        self.items[i].state = TransferState::Rejected;
        proof {
            let after = old(self).items@[i as int].with_state(TransferState::Rejected);
            waiting_after_update(old(self).items@, i as int, after);
            assert(self.items@ =~= old(self).items@.update(i as int, after));
        }
        true
    }

    /// The rows after a report that `done` bytes are there: a running transfer goes forward, never
    /// back, and never past its size.
    pub open spec fn advanced(rows: Seq<Transfer>, id: u64, done: u64) -> Seq<Transfer> {
        match first(rows, id) {
            Some(i) => match rows[i].state {
                TransferState::Active { done: current } => rows.update(
                    i,
                    rows[i].with_state(
                        TransferState::Active { done: larger(smaller(done, rows[i].size), current) },
                    ),
                ),
                _ => rows,
            },
            None => rows,
        }
    }

    pub fn progress(&mut self, id: u64, done: u64)
        requires
            old(self).wf(),
        ensures
            final(self).wf(),
            final(self).same_end(old(self)),
            final(self).rows() == Self::advanced(old(self).rows(), id, done),
    {
        let i: usize = match self.find(id) {
            Some(i) => i,
            None => return,
        };
        proof {
            first_meaning(self.items@, id);
        }
        let size: u64 = self.items[i].size;
        let current: u64 = match self.items[i].state {
            TransferState::Active { done } => done,
            _ => return,
        };
        let capped: u64 = if done < size {
            done
        } else {
            size
        };
        let done: u64 = if capped < current {
            current
        } else {
            capped
        };
        self.items[i].state = TransferState::Active { done };
        proof {
            let before = old(self).items@[i as int];
            assert(before.bytes() <= before.size);
            let after = before.with_state(TransferState::Active { done });
            waiting_after_update(old(self).items@, i as int, after);
            assert(self.items@ =~= old(self).items@.update(i as int, after));
        }
    }

    /// The transfer ended well. `true` where it was running.
    pub fn finish(&mut self, id: u64, path: Option<String>) -> (r: bool)
        requires
            old(self).wf(),
        ensures
            final(self).wf(),
            final(self).same_end(old(self)),
            r == (first(old(self).rows(), id) matches Some(i) && old(self).rows()[i].running()),
            r ==> ended_at(
                old(self).rows(),
                final(self).rows(),
                id,
                TransferState::Done { path },
            ),
            !r ==> final(self).rows() == old(self).rows(),
    {
        let i: usize = match self.find(id) {
            Some(i) => i,
            None => return false,
        };
        proof {
            first_meaning(self.items@, id);
        }
        if !self.items[i].is_running() {
            return false;
        }
        self.end_row(i, TransferState::Done { path });
        true
    }

    /// The transfer failed, at whatever step: a link can break at any time. `true` unless it had
    /// ended already.
    pub fn fail(&mut self, id: u64, reason: &str) -> (r: bool)
        requires
            old(self).wf(),
        ensures
            final(self).wf(),
            final(self).same_end(old(self)),
            r == (first(old(self).rows(), id) matches Some(i) && !old(self).rows()[i].finished()),
            r ==> failed_at(old(self).rows(), final(self).rows(), id, reason@),
            !r ==> final(self).rows() == old(self).rows(),
    {
        let i: usize = match self.find(id) {
            Some(i) => i,
            None => return false,
        };
        proof {
            first_meaning(self.items@, id);
        }
        if self.items[i].is_finished() {
            return false;
        }
        let reason: String = reason.to_owned();
        let ghost state = TransferState::Failed { reason };
        self.end_row(i, TransferState::Failed { reason });
        assert(ended(old(self).rows()[i as int], self.rows()[i as int], state));
        true
    }

    /// Every transfer that has not ended fails: the streams go with the connection.
    pub fn fail_all(&mut self, reason: &str)
        requires
            old(self).wf(),
        ensures
            final(self).wf(),
            final(self).same_end(old(self)),
            final(self).rows().len() == old(self).rows().len(),
            forall|i: int|
                0 <= i < old(self).rows().len() ==> {
                    let before = old(self).rows()[i];
                    let after = #[trigger] final(self).rows()[i];
                    if before.finished() {
                        after == before
                    } else {
                        failed(before, after, reason@)
                    }
                },
    {
        let mut i: usize = 0;
        while i < self.items.len()
            invariant
                i <= self.items@.len(),
                self.wf(),
                self.same_end(old(self)),
                self.items@.len() == old(self).items@.len(),
                forall|j: int|
                    i <= j < self.items@.len() ==> #[trigger] self.items@[j] == old(self).items@[j],
                forall|j: int|
                    0 <= j < i ==> {
                        let before = old(self).items@[j];
                        let after = #[trigger] self.items@[j];
                        if before.finished() {
                            after == before
                        } else {
                            failed(before, after, reason@)
                        }
                    },
            decreases self.items@.len() - i,
        {
            if !self.items[i].is_finished() {
                let ghost was = self.items@;
                let text: String = reason.to_owned();
                let ghost state = TransferState::Failed { reason: text };
                self.end_row(i, TransferState::Failed { reason: text });
                assert(ended(was[i as int], self.items@[i as int], state));
                assert(failed(was[i as int], self.items@[i as int], reason@));
                assert forall|j: int| 0 <= j < was.len() && j != i implies #[trigger] self.items@[j]
                    == was[j] by {}
            }
            i += 1;
        }
    }

    /// Puts the end of a transfer into its row.
    fn end_row(&mut self, i: usize, state: TransferState)
        requires
            old(self).wf(),
            i < old(self).rows().len(),
            state is Done || state is Failed,
        ensures
            final(self).wf(),
            final(self).same_end(old(self)),
            final(self).rows() == old(self).rows().update(i as int, final(self).rows()[i as int]),
            ended(old(self).rows()[i as int], final(self).rows()[i as int], state),
    {
        let ran: Option<u64> = match &self.items[i].started {
            Some(at) => Some(elapsed_ns(at)),
            None => None,
        };
        self.items[i].finished_in = ran;
        self.items[i].state = state;
        proof {
            let after = self.items@[i as int];
            waiting_after_update(old(self).items@, i as int, after);
            assert(self.items@ =~= old(self).items@.update(i as int, after));
        }
    }

    /// Takes a finished row off the list (the user pressed its x).
    pub fn dismiss(&mut self, id: u64)
        requires
            old(self).wf(),
        ensures
            final(self).wf(),
            final(self).same_end(old(self)),
            final(self).rows() == dismissed(old(self).rows(), id),
    {
        let ghost rows = self.items@;
        let mut i: usize = 0;
        assert(rows.skip(0) =~= rows);
        assert(dismissed(rows.take(0), id) + rows =~= rows);
        assert(rows.take(0) =~= Seq::empty());
        while i < self.items.len()
            invariant
                rows == old(self).items@,
                self.same_end(old(self)),
                self.wf(),
                i <= self.items@.len() <= rows.len(),
                ({
                    let seen = rows.len() - self.items@.len() + i;
                    &&& dismissed(rows.take(seen), id).len() == i
                    &&& self.items@ == dismissed(rows.take(seen), id) + rows.skip(seen)
                }),
            decreases self.items@.len() - i,
        {
            let ghost seen = rows.len() - self.items@.len() + i;
            let ghost done = dismissed(rows.take(seen), id);
            proof {
                assert(self.items@[i as int] == rows[seen]);
                assert(rows.take(seen + 1).drop_last() =~= rows.take(seen));
                assert(rows.take(seen + 1).last() == rows[seen]);
                waiting_after_remove(self.items@, i as int);
            }
            if self.items[i].id == id && self.items[i].is_finished() {
                let ghost before = self.items@;
                let _ = self.items.remove(i);
                assert(self.items@ =~= before.remove(i as int));
                assert(self.items@ =~= done + rows.skip(seen + 1));
                assert forall|j: int| 0 <= j < self.items@.len() implies (
                #[trigger] self.rows()[j]).bytes() <= self.rows()[j].size by {
                    if j < i {
                        assert(self.items@[j] == before[j]);
                    } else {
                        assert(self.items@[j] == before[j + 1]);
                    }
                }
            } else {
                assert(self.items@ =~= done.push(rows[seen]) + rows.skip(seen + 1));
                i += 1;
            }
        }
        assert(rows.take(rows.len() as int) =~= rows);
        assert(self.items@ =~= dismissed(rows, id));
    }

    /// Where the first row numbered `id` stands.
    fn find(&self, id: u64) -> (r: Option<usize>)
        ensures
            match r {
                Some(i) => first(self.rows(), id) == Some(i as int),
                None => first(self.rows(), id) is None,
            },
    {
        let mut i: usize = 0;
        while i < self.items.len()
            invariant
                i <= self.items@.len(),
                forall|j: int| 0 <= j < i ==> (#[trigger] self.items@[j]).id != id,
            decreases self.items@.len() - i,
        {
            if self.items[i].id == id {
                proof {
                    first_is(self.items@, id, i as int);
                }
                return Some(i);
            }
            i += 1;
        }
        proof {
            first_meaning(self.items@, id);
        }
        None
    }

    fn waiting_now(&self) -> (r: usize)
        ensures
            r == waiting(self.rows()),
    {
        let mut n: usize = 0;
        let mut i: usize = 0;
        while i < self.items.len()
            invariant
                i <= self.items@.len(),
                n <= i,
                n == waiting(self.items@.take(i as int)),
            decreases self.items@.len() - i,
        {
            assert(self.items@.take(i as int + 1).drop_last() =~= self.items@.take(i as int));
            if self.items[i].is_waiting() {
                n += 1;
            }
            i += 1;
        }
        assert(self.items@.take(i as int) =~= self.items@);
        n
    }

    /// Appends a row; a finished one makes room where the list is full.
    fn insert(&mut self, transfer: Transfer)
        requires
            forall|i: int|
                0 <= i < old(self).rows().len() ==> (#[trigger] old(self).rows()[i]).bytes()
                    <= old(self).rows()[i].size,
            transfer.bytes() <= transfer.size,
        ensures
            final(self).same_end(old(self)),
            final(self).rows() == inserted(old(self).rows(), transfer),
            forall|i: int|
                0 <= i < final(self).rows().len() ==> (#[trigger] final(self).rows()[i]).bytes()
                    <= final(self).rows()[i].size,
    {
        let ghost rows = self.items@;
        proof {
            first_finished_meaning(rows);
        }
        if self.items.len() >= MAX_ITEMS {
            let mut i: usize = 0;
            while i < self.items.len() && !self.items[i].is_finished()
                invariant
                    i <= self.items@.len(),
                    forall|j: int| 0 <= j < i ==> !(#[trigger] self.items@[j]).finished(),
                decreases self.items@.len() - i,
            {
                i += 1;
            }
            if i < self.items.len() {
                let _ = self.items.remove(i);
                assert(self.items@ =~= rows.remove(i as int));
            }
        }
        let ghost kept = self.items@;
        assert forall|j: int| 0 <= j < kept.len() implies (#[trigger] kept[j]).bytes()
            <= kept[j].size by {
            let at = if kept.len() < rows.len() && j >= first_finished(rows)->0 {
                j + 1
            } else {
                j
            };
            assert(kept[j] == old(self).rows()[at]);
        }
        self.items.push(transfer);
    }
}

pub open spec fn started_at(before: Seq<Transfer>, after: Seq<Transfer>, id: u64) -> bool {
    first(before, id) matches Some(i) && after == before.update(i, after[i]) && begun(
        before[i],
        after[i],
    )
}

pub open spec fn ended_at(
    before: Seq<Transfer>,
    after: Seq<Transfer>,
    id: u64,
    state: TransferState,
) -> bool {
    first(before, id) matches Some(i) && after == before.update(i, after[i]) && ended(
        before[i],
        after[i],
        state,
    )
}

/// A row that has just failed for this reason.
pub open spec fn failed(before: Transfer, after: Transfer, reason: Seq<char>) -> bool {
    &&& after.state matches TransferState::Failed { reason: text }
    &&& text@ == reason
    &&& ended(before, after, after.state)
}

pub open spec fn failed_at(
    before: Seq<Transfer>,
    after: Seq<Transfer>,
    id: u64,
    reason: Seq<char>,
) -> bool {
    first(before, id) matches Some(i) && after == before.update(i, after[i]) && failed(
        before[i],
        after[i],
        reason,
    )
}

/// A row that has not ended never falls out of the list to make room.
pub proof fn live_rows_stay(rows: Seq<Transfer>, row: Transfer, i: int)
    requires
        0 <= i < rows.len(),
        !rows[i].finished(),
    ensures
        inserted(rows, row).contains(rows[i]),
        inserted(rows, row).last() == row,
{
    first_finished_meaning(rows);
    let after = inserted(rows, row);
    match first_finished(rows) {
        Some(k) if rows.len() >= MAX_ITEMS => {
            assert(after[if i < k { i } else { i - 1 }] == rows[i]);
        },
        _ => {
            assert(after[i] == rows[i]);
        },
    }
}

/// The list is longer than its limit only where every row that it had was live.
pub proof fn list_stays_bounded(rows: Seq<Transfer>, row: Transfer)
    requires
        rows.len() <= MAX_ITEMS,
    ensures
        inserted(rows, row).len() <= MAX_ITEMS || forall|i: int|
            0 <= i < rows.len() ==> !(#[trigger] rows[i]).finished(),
{
    first_finished_meaning(rows);
}

/// What has ended stays as it ended: no step applies to it any more.
pub proof fn ended_rows_stay(book: Transfers, id: u64, done: u64)
    requires
        first(book.rows(), id) matches Some(i) && book.rows()[i].finished(),
    ensures
        !book.can_start(id, Direction::Incoming),
        !book.can_start(id, Direction::Outgoing),
        Transfers::advanced(book.rows(), id, done) == book.rows(),
{
}

/// Progress never goes back and never over the size.
pub proof fn progress_only_grows(rows: Seq<Transfer>, id: u64, done: u64, i: int)
    requires
        0 <= i < rows.len(),
        rows[i].bytes() <= rows[i].size,
    ensures
        rows[i].bytes() <= Transfers::advanced(rows, id, done)[i].bytes() <= rows[i].size,
{
    first_meaning(rows, id);
}

/// Only finished rows of that number leave the list when it is dismissed.
pub proof fn dismiss_keeps_the_rest(rows: Seq<Transfer>, id: u64, row: Transfer)
    ensures
        dismissed(rows, id).contains(row) <==> rows.contains(row) && !(row.id == id
            && row.finished()),
    decreases rows.len(),
{
    if rows.len() > 0 {
        let front = rows.drop_last();
        let kept = dismissed(front, id);
        let all = dismissed(rows, id);
        dismiss_keeps_the_rest(front, id, row);
        if rows.contains(row) {
            let k = choose|k: int| 0 <= k < rows.len() && rows[k] == row;
            if k < front.len() {
                assert(front[k] == row);
            }
        }
        if front.contains(row) {
            let k = choose|k: int| 0 <= k < front.len() && front[k] == row;
            assert(rows[k] == row);
        }
        assert(rows[rows.len() - 1] == rows.last());
        if kept.contains(row) {
            let k = choose|k: int| 0 <= k < kept.len() && kept[k] == row;
            assert(all[k] == row);
        }
        if all.contains(row) {
            let k = choose|k: int| 0 <= k < all.len() && all[k] == row;
            if k < kept.len() {
                assert(kept[k] == row);
            }
        }
        if all.len() > kept.len() {
            assert(all[kept.len() as int] == rows.last());
        }
    }
}

/// A row is in one of three: it waits for an answer, it runs, or it has ended.
pub proof fn rows_wait_run_or_have_ended(row: Transfer)
    ensures
        row.finished() <==> !(row.state is Offered) && !(row.state is Active),
        row.running() <==> row.state is Active,
        row.waiting() <==> row.state is Offered && row.direction == Direction::Incoming,
{
}

proof fn waiting_counts(rows: Seq<Transfer>)
    ensures
        waiting(rows) == rows.filter(
            |row: Transfer| row.direction == Direction::Incoming && row.state is Offered,
        ).len(),
    decreases rows.len(),
{
    reveal(Seq::filter);
    if rows.len() > 0 {
        waiting_counts(rows.drop_last());
    }
}

/// How many rows are said to run is how many have begun and not ended.
pub proof fn running_rows_are_counted(rows: Seq<Transfer>)
    ensures
        running_in(rows) == rows.filter(|row: Transfer| row.state is Active).len(),
    decreases rows.len(),
{
    reveal(Seq::filter);
    if rows.len() > 0 {
        running_rows_are_counted(rows.drop_last());
    }
}

/// An offer of the other end is taken on three grounds and no other: its number is of the other
/// end's half, no row has it yet, and fewer than 8 offers wait for our answer. The viewer's half is
/// the upper one, so it is the host that takes numbers from there. What runs or has ended, and how
/// large the file is, makes no difference.
pub proof fn offers_are_taken_on_three_grounds(book: Transfers, offer: FileOffer)
    ensures
        book.takes(offer) <==> {
            &&& (offer.transfer_id >= 0x8000_0000_0000_0000) == (book.end() == IdSpace::Host)
            &&& forall|i: int|
                0 <= i < book.rows().len() ==> (#[trigger] book.rows()[i]).id != offer.transfer_id
            &&& book.rows().filter(
                |row: Transfer| row.direction == Direction::Incoming && row.state is Offered,
            ).len() < 8
        },
{
    first_meaning(book.rows(), offer.transfer_id);
    waiting_counts(book.rows());
}

/// A transfer begins where the first row of its number is an offer in that direction, and nowhere
/// else.
pub proof fn only_offers_begin(book: Transfers, id: u64, direction: Direction, i: int)
    requires
        0 <= i < book.rows().len(),
        book.rows()[i].id == id,
        forall|j: int| 0 <= j < i ==> (#[trigger] book.rows()[j]).id != id,
    ensures
        book.can_start(id, direction) <==> book.rows()[i].direction == direction
            && book.rows()[i].state is Offered,
{
    first_is(book.rows(), id, i);
}

/// What is not in the book cannot begin, and no report changes anything.
pub proof fn unknown_numbers_do_nothing(book: Transfers, id: u64, direction: Direction, done: u64)
    requires
        forall|i: int| 0 <= i < book.rows().len() ==> (#[trigger] book.rows()[i]).id != id,
    ensures
        !book.can_start(id, direction),
        Transfers::advanced(book.rows(), id, done) == book.rows(),
        dismissed(book.rows(), id) == book.rows(),
{
    first_meaning(book.rows(), id);
    dismissing_filters(book.rows(), id);
    all_pass(
        book.rows(),
        |row: Transfer| !(row.id == id && !(row.state is Offered) && !(row.state is Active)),
    );
}

proof fn all_pass(rows: Seq<Transfer>, keep: spec_fn(Transfer) -> bool)
    requires
        forall|i: int| 0 <= i < rows.len() ==> keep(#[trigger] rows[i]),
    ensures
        rows.filter(keep) == rows,
    decreases rows.len(),
{
    reveal(Seq::filter);
    if rows.len() > 0 {
        assert(keep(rows[rows.len() - 1]));
        assert forall|i: int| 0 <= i < rows.drop_last().len() implies keep(
            #[trigger] rows.drop_last()[i],
        ) by {
            assert(keep(rows[i]));
        }
        all_pass(rows.drop_last(), keep);
        assert(rows.drop_last().push(rows.last()) =~= rows);
    }
}

/// Dismissing takes out the ended rows of that number and keeps all others, in their order.
pub proof fn dismissing_filters(rows: Seq<Transfer>, id: u64)
    ensures
        dismissed(rows, id) == rows.filter(
            |row: Transfer| !(row.id == id && !(row.state is Offered) && !(row.state is Active)),
        ),
    decreases rows.len(),
{
    reveal(Seq::filter);
    if rows.len() > 0 {
        dismissing_filters(rows.drop_last(), id);
    }
}

/// When a transfer begins, its row alone changes: nothing is done yet, and the time is noted.
pub proof fn beginning_changes_one_row(
    before: Seq<Transfer>,
    after: Seq<Transfer>,
    id: u64,
    i: int,
)
    requires
        started_at(before, after, id),
        0 <= i < before.len(),
        before[i].id == id,
        forall|j: int| 0 <= j < i ==> (#[trigger] before[j]).id != id,
    ensures
        after.len() == before.len(),
        forall|j: int| 0 <= j < before.len() && j != i ==> #[trigger] after[j] == before[j],
        after[i].state == (TransferState::Active { done: 0 }),
        after[i].started is Some,
        after[i].id == id,
        after[i].name == before[i].name,
        after[i].size == before[i].size,
        after[i].direction == before[i].direction,
        after[i].finished_in == before[i].finished_in,
{
    first_is(before, id, i);
}

/// When a transfer ends, its row alone changes: it has the end that was told, and how long it ran
/// is known where it ran.
pub proof fn ending_changes_one_row(
    before: Seq<Transfer>,
    after: Seq<Transfer>,
    id: u64,
    state: TransferState,
    i: int,
)
    requires
        ended_at(before, after, id, state),
        0 <= i < before.len(),
        before[i].id == id,
        forall|j: int| 0 <= j < i ==> (#[trigger] before[j]).id != id,
    ensures
        after.len() == before.len(),
        forall|j: int| 0 <= j < before.len() && j != i ==> #[trigger] after[j] == before[j],
        after[i].state == state,
        after[i].finished_in is Some <==> before[i].started is Some,
        after[i].started == before[i].started,
        after[i].id == id,
        after[i].name == before[i].name,
        after[i].size == before[i].size,
        after[i].direction == before[i].direction,
{
    first_is(before, id, i);
}

/// When a transfer fails, its row alone changes: it has failed for the reason that was told.
pub proof fn failing_changes_one_row(
    before: Seq<Transfer>,
    after: Seq<Transfer>,
    id: u64,
    reason: Seq<char>,
    i: int,
)
    requires
        failed_at(before, after, id, reason),
        0 <= i < before.len(),
        before[i].id == id,
        forall|j: int| 0 <= j < i ==> (#[trigger] before[j]).id != id,
    ensures
        after.len() == before.len(),
        forall|j: int| 0 <= j < before.len() && j != i ==> #[trigger] after[j] == before[j],
        after[i].state matches TransferState::Failed { reason: told } && told@ == reason,
        after[i].finished_in is Some <==> before[i].started is Some,
        after[i].started == before[i].started,
        after[i].id == id,
        after[i].name == before[i].name,
        after[i].size == before[i].size,
        after[i].direction == before[i].direction,
{
    first_is(before, id, i);
}

/// One row that has failed: all but its end is as before.
pub proof fn failing_keeps_the_row(before: Transfer, after: Transfer, reason: Seq<char>)
    requires
        failed(before, after, reason),
    ensures
        after.state matches TransferState::Failed { reason: told } && told@ == reason,
        after.finished_in is Some <==> before.started is Some,
        after.started == before.started,
        after.id == before.id,
        after.name == before.name,
        after.size == before.size,
        after.direction == before.direction,
{
}

/// A new row comes last. The rows before it are those that were there, in their order; only from 64
/// rows on one of them leaves, the first that has ended, and none where none has.
pub proof fn new_rows_come_last(rows: Seq<Transfer>, row: Transfer)
    ensures
        rows.len() < 64 ==> inserted(rows, row) == rows.push(row),
        (forall|i: int|
            0 <= i < rows.len() ==> (#[trigger] rows[i]).state is Offered || rows[i].state is Active)
            ==> inserted(rows, row) == rows.push(row),
        forall|i: int|
            rows.len() >= 64 && 0 <= i < rows.len() && !(rows[i].state is Offered) && !(
            rows[i].state is Active) && (forall|j: int|
                0 <= j < i ==> (#[trigger] rows[j]).state is Offered || rows[j].state is Active)
                ==> inserted(rows, row) == #[trigger] rows.remove(i).push(row),
{
    first_finished_meaning(rows);
    assert forall|i: int|
        rows.len() >= 64 && 0 <= i < rows.len() && !(rows[i].state is Offered) && !(
        rows[i].state is Active) && (forall|j: int|
            0 <= j < i ==> (#[trigger] rows[j]).state is Offered || rows[j].state is Active) implies
        inserted(rows, row) == #[trigger] rows.remove(i).push(row) by {
        let k = first_finished(rows)->0;
        assert(rows[i].finished());
        assert(first_finished(rows) is Some);
        assert(rows[k].finished());
        assert(k == i);
    }
    if forall|i: int|
        0 <= i < rows.len() ==> (#[trigger] rows[i]).state is Offered || rows[i].state is Active {
        if first_finished(rows) is Some {
            assert(rows[first_finished(rows)->0].finished());
        }
    }
}

/// A row for an offer says what the offer says and waits.
pub proof fn offers_are_noted_as_they_are(offer: FileOffer, direction: Direction)
    ensures
        ({
            let row = offered(offer, direction);
            &&& row.id == offer.transfer_id
            &&& row.name == offer.name
            &&& row.size == offer.size
            &&& row.direction == direction
            &&& row.state is Offered
            &&& row.started is None
            &&& row.finished_in is None
        }),
{
}

/// A report on a running transfer moves its row to what is reported, where that is more than
/// before, and to no more than the size; no other row changes and nothing else in the row. A report
/// on what does not run changes nothing.
pub proof fn reports_move_one_row(rows: Seq<Transfer>, id: u64, done: u64, i: int)
    requires
        0 <= i < rows.len(),
        rows[i].id == id,
        forall|j: int| 0 <= j < i ==> (#[trigger] rows[j]).id != id,
    ensures
        ({
            let after = Transfers::advanced(rows, id, done);
            &&& after.len() == rows.len()
            &&& forall|j: int| 0 <= j < rows.len() && j != i ==> #[trigger] after[j] == rows[j]
            &&& after[i] == rows[i].with_state(after[i].state)
            &&& !(rows[i].state is Active) ==> after[i] == rows[i]
            &&& rows[i].state matches TransferState::Active { done: had } ==> {
                &&& after[i].state is Active
                &&& had <= done <= rows[i].size ==> after[i].state == TransferState::Active { done }
                &&& done < had ==> after[i].state == rows[i].state
                &&& done > rows[i].size && had <= rows[i].size ==> after[i].state
                    == TransferState::Active { done: rows[i].size }
            }
        }),
{
    first_is(rows, id, i);
}

/// A row with another state is the same row otherwise.
pub proof fn only_the_state_changes(row: Transfer, state: TransferState)
    ensures
        row.with_state(state).state == state,
        row.with_state(state).id == row.id,
        row.with_state(state).name == row.name,
        row.with_state(state).size == row.size,
        row.with_state(state).direction == row.direction,
        row.with_state(state).started == row.started,
        row.with_state(state).finished_in == row.finished_in,
{
}

/// What is done of a transfer: nothing before it runs, what was reported while it runs, all of it
/// once it is done, and nothing where it was turned down or failed. As a fraction it is that of the
/// size, at most the whole; an empty file is whole as soon as it runs.
pub proof fn what_is_done(row: Transfer)
    ensures
        row.state is Offered || row.state is Rejected || row.state is Failed ==> row.bytes() == 0,
        row.state matches TransferState::Active { done } ==> row.bytes() == done,
        row.state is Done ==> row.bytes() == row.size,
        row.ratio().0 <= row.ratio().1,
        row.ratio().1 > 0,
        row.size > 0 && row.bytes() <= row.size ==> row.ratio() == (row.bytes(), row.size),
        row.size > 0 && row.bytes() > row.size ==> row.ratio().0 == row.ratio().1,
        row.size == 0 ==> (row.ratio().0 == row.ratio().1 <==> row.state is Active
            || row.state is Done),
        row.size == 0 && !(row.state is Active || row.state is Done) ==> row.ratio().0 == 0,
{
}

/// The host numbers from the lower half and the viewer from the upper one, both counting up, and
/// each end's peer is the other.
pub proof fn numbers_count_up(counter: nat)
    requires
        counter < 0x8000_0000_0000_0000,
    ensures
        IdSpace::Host.id(counter) == counter,
        IdSpace::Viewer.id(counter) == counter + 0x8000_0000_0000_0000,
        IdSpace::Host.other() == IdSpace::Viewer,
        IdSpace::Viewer.other() == IdSpace::Host,
        IdSpace::Host.mark() == 0,
        IdSpace::Viewer.mark() == 0x8000_0000_0000_0000,
{
    vstd::arithmetic::div_mod::lemma_small_mod(counter, 0x8000_0000_0000_0000);
}

/// A number belongs to the host exactly where its highest bit is clear.
pub proof fn the_highest_bit_tells_the_end(id: u64)
    ensures
        IdSpace::Host.has(id) <==> id < 0x8000_0000_0000_0000,
        IdSpace::Viewer.has(id) <==> id >= 0x8000_0000_0000_0000,
{
}

/// A speed is the bytes over the time, where any time has passed.
pub proof fn speeds_need_time(bytes: u64, ns: u64)
    ensures
        speed(bytes, ns) is None <==> ns == 0,
        speed(bytes, ns) matches Some(of) ==> of.0 == bytes && of.1 == ns,
{
}

/// However the other end offers: its offer is taken exactly where its number is of the other end's
/// half, not in the list, and fewer than 8 offers wait. Then it is the last row, waiting; else
/// nothing changes. The rows that run or have ended make no difference.
pub proof fn offering_adds_a_waiting_row(book: &mut Transfers, offer: &FileOffer, taken: bool)
    requires
        old(book).wf(),
        call_ensures(Transfers::offer_incoming, (book, offer), taken),
    ensures
        taken <==> {
            &&& (offer.transfer_id >= 0x8000_0000_0000_0000) == (old(book).end() == IdSpace::Host)
            &&& forall|i: int|
                0 <= i < old(book).rows().len() ==> (#[trigger] old(book).rows()[i]).id
                    != offer.transfer_id
            &&& old(book).rows().filter(
                |row: Transfer| row.direction == Direction::Incoming && row.state is Offered,
            ).len() < 8
        },
        !taken ==> final(book).rows() == old(book).rows(),
        taken ==> ({
            let row = final(book).rows().last();
            &&& row.id == offer.transfer_id
            &&& row.name == offer.name
            &&& row.size == offer.size
            &&& row.direction is Incoming
            &&& row.state is Offered
            &&& old(book).rows().len() < 64 ==> final(book).rows().drop_last() == old(book).rows()
        }),
        final(book).end() == old(book).end(),
        final(book).count() == old(book).count(),
{
    let id = offer.transfer_id;
    first_meaning(old(book).rows(), id);
    waiting_counts(old(book).rows());
    let row = offered(*offer, Direction::Incoming);
    new_rows_come_last(old(book).rows(), row);
    if taken {
        let all = inserted(old(book).rows(), row);
        assert(all.last() == row);
        if old(book).rows().len() < 64 {
            assert(all.drop_last() =~= old(book).rows());
        }
    }
}

/// What we send is the last row, whatever stands in the list.
pub proof fn offering_our_own_adds_a_row(book: &mut Transfers, offer: &FileOffer)
    requires
        old(book).wf(),
        call_ensures(Transfers::offer_outgoing, (book, offer), ()),
    ensures
        ({
            let row = final(book).rows().last();
            &&& row.id == offer.transfer_id
            &&& row.name == offer.name
            &&& row.size == offer.size
            &&& row.direction is Outgoing
            &&& row.state is Offered
            &&& old(book).rows().len() < 64 ==> final(book).rows().drop_last() == old(book).rows()
        }),
{
    let row = offered(*offer, Direction::Outgoing);
    new_rows_come_last(old(book).rows(), row);
    let all = inserted(old(book).rows(), row);
    if old(book).rows().len() < 64 {
        assert(all.drop_last() =~= old(book).rows());
    }
}

/// A file that we take begins exactly where its first row is an offer of the other end, and one
/// that the other end takes where it is an offer of ours.
pub proof fn taking_begins_an_offer(
    ours: &mut Transfers,
    theirs: &mut Transfers,
    id: u64,
    begun_in: bool,
    begun_out: bool,
    i: int,
)
    requires
        old(ours).wf(),
        old(theirs).wf(),
        call_ensures(Transfers::accept_incoming, (ours, id), begun_in),
        call_ensures(Transfers::peer_accepted, (theirs, id), begun_out),
        old(ours).rows() == old(theirs).rows(),
        0 <= i < old(ours).rows().len(),
        old(ours).rows()[i].id == id,
        forall|j: int| 0 <= j < i ==> (#[trigger] old(ours).rows()[j]).id != id,
    ensures
        begun_in <==> old(ours).rows()[i].direction is Incoming && old(ours).rows()[i].state
            is Offered,
        begun_out <==> old(ours).rows()[i].direction is Outgoing && old(ours).rows()[i].state
            is Offered,
        begun_in ==> final(ours).rows()[i].state == (TransferState::Active { done: 0 }),
        begun_out ==> final(theirs).rows()[i].state == (TransferState::Active { done: 0 }),
        !begun_in ==> final(ours).rows() == old(ours).rows(),
        !begun_out ==> final(theirs).rows() == old(theirs).rows(),
        forall|j: int|
            0 <= j < old(ours).rows().len() && j != i ==> #[trigger] final(ours).rows()[j] == old(ours).rows()[j],
        forall|j: int|
            0 <= j < old(ours).rows().len() && j != i ==> #[trigger] final(theirs).rows()[j]
                == old(theirs).rows()[j],
{
    first_is(old(ours).rows(), id, i);
}

/// Only what waits can be turned down, only what runs can be done, and anything that has not ended
/// can fail. The row then says so, and no other row changes.
pub proof fn endings_need_their_state(
    a: &mut Transfers,
    b: &mut Transfers,
    c: &mut Transfers,
    id: u64,
    path: Option<String>,
    reason: &str,
    rejected: bool,
    done: bool,
    failing: bool,
    i: int,
)
    requires
        old(a).wf() && old(b).wf() && old(c).wf(),
        call_ensures(Transfers::reject, (a, id), rejected),
        call_ensures(Transfers::finish, (b, id, path), done),
        call_ensures(Transfers::fail, (c, id, reason), failing),
        old(a).rows() == old(b).rows() && old(b).rows() == old(c).rows(),
        0 <= i < old(a).rows().len(),
        old(a).rows()[i].id == id,
        forall|j: int| 0 <= j < i ==> (#[trigger] old(a).rows()[j]).id != id,
    ensures
        ({
            let row = old(a).rows()[i];
            &&& rejected <==> row.state is Offered
            &&& done <==> row.state is Active
            &&& failing <==> row.state is Offered || row.state is Active
            &&& rejected ==> final(a).rows()[i].state is Rejected
            &&& done ==> final(b).rows()[i].state == (TransferState::Done { path })
            &&& failing ==> (final(c).rows()[i].state matches TransferState::Failed { reason: why }
                && why@ == reason@)
            &&& !rejected ==> final(a).rows() == old(a).rows()
            &&& !done ==> final(b).rows() == old(b).rows()
            &&& !failing ==> final(c).rows() == old(c).rows()
        }),
        forall|j: int|
            0 <= j < old(a).rows().len() && j != i ==> #[trigger] final(a).rows()[j] == old(a).rows()[j],
        forall|j: int|
            0 <= j < old(a).rows().len() && j != i ==> #[trigger] final(b).rows()[j] == old(b).rows()[j],
        forall|j: int|
            0 <= j < old(a).rows().len() && j != i ==> #[trigger] final(c).rows()[j] == old(c).rows()[j],
{
    first_is(old(a).rows(), id, i);
}

/// When the link breaks, all that has not ended fails for that reason, and what has ended stays.
pub proof fn a_broken_link_fails_the_rest(book: &mut Transfers, reason: &str, i: int)
    requires
        old(book).wf(),
        call_ensures(Transfers::fail_all, (book, reason), ()),
        0 <= i < old(book).rows().len(),
    ensures
        final(book).rows().len() == old(book).rows().len(),
        old(book).rows()[i].state is Offered || old(book).rows()[i].state is Active ==> (final(book).rows()[i].state matches TransferState::Failed { reason: why } && why@ == reason@),
        !(old(book).rows()[i].state is Offered) && !(old(book).rows()[i].state is Active) ==> final(book).rows()[i] == old(book).rows()[i],
        final(book).rows()[i].id == old(book).rows()[i].id,
        final(book).rows()[i].size == old(book).rows()[i].size,
{
}

/// Numbers are given out from this end's half, one after the other.
pub proof fn numbers_are_given_out_in_order(book: &mut Transfers, id: u64)
    requires
        old(book).wf(),
        old(book).count() < 0x7fff_ffff_ffff_ffff,
        call_ensures(Transfers::next_id, (book,), id),
    ensures
        old(book).end() is Host ==> id == old(book).count() + 1,
        old(book).end() is Viewer ==> id == old(book).count() + 1 + 0x8000_0000_0000_0000,
        final(book).count() == old(book).count() + 1,
        final(book).rows() == old(book).rows(),
        final(book).end() == old(book).end(),
{
    numbers_count_up(old(book).count() + 1);
}

/// A row is found under its number, the first of several, and none under a number that no row has.
pub proof fn rows_are_found_by_number(book: &Transfers, id: u64, found: Option<&Transfer>)
    requires
        call_ensures(Transfers::get, (book, id), found),
    ensures
        found is None <==> forall|j: int|
            0 <= j < book.rows().len() ==> (#[trigger] book.rows()[j]).id != id,
        found matches Some(row) ==> row.id == id && exists|i: int|
            0 <= i < book.rows().len() && #[trigger] book.rows()[i] == *row && forall|j: int|
                0 <= j < i ==> (#[trigger] book.rows()[j]).id != id,
{
    first_meaning(book.rows(), id);
    if let Some(i) = first(book.rows(), id) {
        assert(book.rows()[i].id == id);
    }
}

/// A list begins empty; it is empty exactly while it has no row, and what it hands out are its rows.
pub proof fn lists_begin_empty(
    space: IdSpace,
    fresh: Transfers,
    list: &Transfers,
    n: usize,
    empty: bool,
    all: &[Transfer],
    running: usize,
)
    requires
        call_ensures(Transfers::new, (space,), fresh),
        call_ensures(Transfers::len, (list,), n),
        call_ensures(Transfers::is_empty, (list,), empty),
        call_ensures(Transfers::iter, (list,), all),
        call_ensures(Transfers::running, (list,), running),
    ensures
        fresh.rows().len() == 0 && fresh.count() == 0 && fresh.end() == space,
        all@ == list.rows(),
        n == all@.len(),
        empty <==> all@.len() == 0,
        running == running_in(list.rows()),
{
}

/// The two ends number their files apart: what one end makes it owns, and the other does not.
pub proof fn ends_number_apart(
    end: IdSpace,
    other: IdSpace,
    counter: u64,
    id: u64,
    ours: bool,
    theirs: bool,
    back: IdSpace,
)
    requires
        call_ensures(IdSpace::peer, (end,), other),
        call_ensures(IdSpace::peer, (other,), back),
        call_ensures(IdSpace::make_id, (end, counter), id),
        call_ensures(IdSpace::owns, (end, id), ours),
        call_ensures(IdSpace::owns, (other, id), theirs),
    ensures
        other != end,
        back == end,
        ours,
        !theirs,
{
}

/// A row has ended or runs as its state says, and is as far as its bytes, never more than whole.
pub proof fn rows_tell_how_far_they_are(
    row: &Transfer,
    bytes: u64,
    part: (u64, u64),
    ended: bool,
    runs: bool,
)
    requires
        call_ensures(Transfer::done_bytes, (row,), bytes),
        call_ensures(Transfer::fraction, (row,), part),
        call_ensures(Transfer::is_finished, (row,), ended),
        call_ensures(Transfer::is_running, (row,), runs),
    ensures
        ended <==> row.finished(),
        runs <==> row.running(),
        bytes == row.bytes(),
        part == row.ratio(),
        part.1 > 0 && part.0 <= part.1,
{
}

} // verus!
