//! Datagrams back into frames.
//!
//! A frame is dropped rather than waited for: a datagram is never sent again, so a frame that
//! misses one will never be whole, and keeping it only adds delay. When a frame is lost the viewer
//! asks for a new keyframe.

use std::collections::BTreeMap;

use vstd::prelude::*;

use crate::protocol::control::Codec;
use crate::protocol::video::{
    chunk, chunks, chunks_cover_frame, fragment_header, fragments, joined, VideoHeader, VIDEO_HEADER_LEN,
};
use crate::protocol::{ProtocolError, MAX_VIDEO_PAYLOAD};

verus! {

broadcast use {
    vstd::std_specs::btree::group_btree_axioms,
    vstd::laws_cmp::group_laws_cmp,
};

#[derive(Debug, Clone)]
pub struct AssembledFrame {
    pub frame_id: u32,
    pub monitor: u8,
    pub codec: Codec,
    pub keyframe: bool,
    pub capture_us: u64,
    pub data: Vec<u8>,
}

#[derive(Debug, Default, Clone, Copy, PartialEq, Eq, Structural)]
pub struct AssemblerStats {
    pub frames_completed: u64,
    /// Frames given up because fragments were missing or came too late.
    pub frames_dropped: u64,
    pub packets_received: u64,
    /// Fragments that the dropped frames still missed: about the number of lost packets.
    pub packets_lost: u64,
}

struct Partial {
    fragments: Vec<Option<Vec<u8>>>,
    received: u16,
    monitor: u8,
    codec: Codec,
    keyframe: bool,
    capture_us: u64,
}

pub struct FrameAssembler {
    partial: BTreeMap<u32, Partial>,
    newest_completed: Option<u32>,
    max_pending: usize,
    stats: AssemblerStats,
}

/// A frame that still misses fragments.
#[verifier::ext_equal]
pub struct Pending {
    pub fragments: Seq<Option<Seq<u8>>>,
    pub monitor: u8,
    pub codec: Codec,
    pub keyframe: bool,
    pub capture_us: u64,
}

/// A whole frame.
#[verifier::ext_equal]
pub struct Frame {
    pub frame_id: u32,
    pub monitor: u8,
    pub codec: Codec,
    pub keyframe: bool,
    pub capture_us: u64,
    pub data: Seq<u8>,
}

impl View for AssembledFrame {
    type V = Frame;

    open spec fn view(&self) -> Frame {
        Frame {
            frame_id: self.frame_id,
            monitor: self.monitor,
            codec: self.codec,
            keyframe: self.keyframe,
            capture_us: self.capture_us,
            data: self.data@,
        }
    }
}

/// How far `a` lies behind `b` on the circle of frame numbers.
pub open spec fn distance(a: u32, b: u32) -> int {
    if a >= b {
        a - b
    } else {
        a - b + 0x1_0000_0000
    }
}

/// Whether frame `a` is newer than `b`, numbers wrapping around.
pub open spec fn newer(a: u32, b: u32) -> bool {
    0 < distance(a, b) < 0x8000_0000
}

fn is_newer(candidate: u32, reference: u32) -> (r: bool)
    ensures
        r == newer(candidate, reference),
{
    let d: u32 = candidate.wrapping_sub(reference);
    d != 0 && d < 0x8000_0000
}

/// How many fragments have come.
pub open spec fn present(fragments: Seq<Option<Seq<u8>>>) -> nat
    decreases fragments.len(),
{
    if fragments.len() == 0 {
        0
    } else {
        present(fragments.drop_last()) + if fragments.last() is Some {
            1nat
        } else {
            0
        }
    }
}

proof fn present_bounds(fragments: Seq<Option<Seq<u8>>>)
    ensures
        present(fragments) <= fragments.len(),
        present(fragments) == fragments.len() <==> forall|i: int|
            0 <= i < fragments.len() ==> fragments[i] is Some,
    decreases fragments.len(),
{
    if fragments.len() > 0 {
        let front = fragments.drop_last();
        present_bounds(front);
        if present(fragments) == fragments.len() {
            assert forall|i: int| 0 <= i < fragments.len() implies fragments[i] is Some by {
                if i < front.len() {
                    assert(front[i] is Some);
                }
            }
        }
        if forall|i: int| 0 <= i < fragments.len() ==> fragments[i] is Some {
            assert forall|i: int| 0 <= i < front.len() implies front[i] is Some by {
                assert(fragments[i] is Some);
            }
        }
    }
}

proof fn present_after_store(fragments: Seq<Option<Seq<u8>>>, i: int, body: Seq<u8>)
    requires
        0 <= i < fragments.len(),
        fragments[i] is None,
    ensures
        present(fragments.update(i, Some(body))) == present(fragments) + 1,
    decreases fragments.len(),
{
    let after = fragments.update(i, Some(body));
    if i == fragments.len() - 1 {
        assert(after.drop_last() =~= fragments.drop_last());
    } else {
        assert(after.drop_last() =~= fragments.drop_last().update(i, Some(body)));
        present_after_store(fragments.drop_last(), i, body);
    }
}

proof fn nothing_present(n: nat)
    ensures
        present(Seq::new(n, |i: int| None)) == 0,
    decreases n,
{
    if n > 0 {
        let s = Seq::new(n, |i: int| None::<Seq<u8>>);
        assert(s.drop_last() =~= Seq::new((n - 1) as nat, |i: int| None));
        nothing_present((n - 1) as nat);
    }
}

impl Pending {
    /// A frame of which the first packet has just come, before that packet is stored.
    pub open spec fn started(header: VideoHeader) -> Pending {
        Pending {
            fragments: Seq::new(header.fragment_count as nat, |i: int| None),
            monitor: header.monitor,
            codec: header.codec,
            keyframe: header.flags.keyframe(),
            capture_us: header.capture_us,
        }
    }

    pub open spec fn stored(self, header: VideoHeader, body: Seq<u8>) -> Pending {
        Pending {
            fragments: self.fragments.update(header.fragment_idx as int, Some(body)),
            keyframe: self.keyframe || header.flags.keyframe(),
            ..self
        }
    }

    pub open spec fn missing(self) -> nat {
        (self.fragments.len() - present(self.fragments)) as nat
    }

    pub open spec fn whole(self) -> bool {
        self.missing() == 0
    }

    pub open spec fn data(self) -> Seq<u8> {
        joined(Seq::new(self.fragments.len(), |i: int| self.fragments[i]->0))
    }

    pub open spec fn frame(self, frame_id: u32) -> Frame {
        Frame {
            frame_id,
            monitor: self.monitor,
            codec: self.codec,
            keyframe: self.keyframe,
            capture_us: self.capture_us,
            data: self.data(),
        }
    }
}

spec fn others_newer(ids: Seq<u32>, e: u32) -> bool {
    forall|j: int| 0 <= j < ids.len() && ids[j] != e ==> newer(#[trigger] ids[j], e)
}

spec fn fragment_views(fragments: Seq<Option<Vec<u8>>>) -> Seq<Option<Seq<u8>>> {
    Seq::new(
        fragments.len(),
        |i: int|
            match fragments[i] {
                Some(v) => Some(v@),
                None => None,
            },
    )
}

impl Partial {
    spec fn model(self) -> Pending {
        Pending {
            fragments: fragment_views(self.fragments@),
            monitor: self.monitor,
            codec: self.codec,
            keyframe: self.keyframe,
            capture_us: self.capture_us,
        }
    }

    spec fn wf(self) -> bool {
        &&& self.received == present(self.model().fragments)
        &&& self.fragments@.len() <= 0xffff
    }
}

/// Fragments missing in the frames numbered below `n`.
pub open spec fn missing_below(pending: Map<u32, Pending>, n: nat) -> nat
    decreases n,
{
    if n == 0 {
        0
    } else {
        let id = (n - 1) as u32;
        missing_below(pending, (n - 1) as nat) + if pending.contains_key(id) {
            pending[id].missing()
        } else {
            0
        }
    }
}

/// Fragments missing in all the frames.
pub open spec fn total_missing(pending: Map<u32, Pending>) -> nat {
    missing_below(pending, 0x1_0000_0000)
}

proof fn missing_below_removed(pending: Map<u32, Pending>, id: u32, n: nat)
    requires
        pending.contains_key(id),
        n <= 0x1_0000_0000,
    ensures
        missing_below(pending, n) == missing_below(pending.remove(id), n) + if id < n {
            pending[id].missing()
        } else {
            0
        },
    decreases n,
{
    if n > 0 {
        missing_below_removed(pending, id, (n - 1) as nat);
    }
}

/// Whether every other frame among `ids` is newer than `e`.
pub open spec fn is_oldest(ids: Set<u32>, e: u32) -> bool {
    ids.contains(e) && forall|o: u32| #[trigger] ids.contains(o) && o != e ==> newer(o, e)
}

pub open spec fn is_smallest(ids: Set<u32>, e: u32) -> bool {
    ids.contains(e) && forall|o: u32| #[trigger] ids.contains(o) ==> e <= o
}

/// The frame to give up first: the oldest one. Where the numbers are spread so far over the circle
/// that none of them is older than all the others, the smallest number.
pub open spec fn oldest(ids: Set<u32>) -> u32 {
    if exists|e: u32| is_oldest(ids, e) {
        choose|e: u32| is_oldest(ids, e)
    } else {
        choose|e: u32| is_smallest(ids, e)
    }
}

/// State of an assembler.
#[verifier::ext_equal]
pub struct Assembly {
    pub pending: Map<u32, Pending>,
    pub newest: Option<u32>,
    pub max_pending: nat,
    pub frames_completed: nat,
    pub frames_dropped: nat,
    pub packets_received: nat,
    pub packets_lost: nat,
}

impl Assembly {
    /// The state with one more packet counted.
    pub open spec fn counted(self) -> Assembly {
        Assembly { packets_received: self.packets_received + 1, ..self }
    }

    /// The state after frame `id` was given up.
    pub open spec fn given_up(self, id: u32) -> Assembly {
        Assembly {
            pending: self.pending.remove(id),
            frames_dropped: self.frames_dropped + 1,
            packets_lost: self.packets_lost + self.pending[id].missing(),
            ..self
        }
    }

    /// Frame `id` is now `entry`; where that is one frame too many, the oldest is given up.
    pub open spec fn kept(self, id: u32, entry: Pending) -> Assembly {
        let with = Assembly { pending: self.pending.insert(id, entry), ..self };
        if with.pending.dom().len() <= with.max_pending {
            with
        } else {
            with.given_up(oldest(with.pending.dom()))
        }
    }

    /// Frame `id` is whole: it leaves, and so does every frame that is not newer, unfinished.
    pub open spec fn finished(self, id: u32) -> Assembly {
        let rest = self.pending.remove(id);
        let left = Map::new(|k: u32| rest.contains_key(k) && newer(k, id), |k: u32| rest[k]);
        Assembly {
            pending: left,
            newest: Some(id),
            frames_completed: self.frames_completed + 1,
            frames_dropped: (self.frames_dropped + rest.dom().len() - left.dom().len()) as nat,
            packets_lost: (self.packets_lost + total_missing(rest) - total_missing(left)) as nat,
            ..self
        }
    }

    pub open spec fn entry(self, header: VideoHeader) -> Pending {
        if self.pending.contains_key(header.frame_id) {
            self.pending[header.frame_id]
        } else {
            Pending::started(header)
        }
    }

    /// Whether a packet is used: not one of a frame that is already behind.
    pub open spec fn in_time(self, header: VideoHeader) -> bool {
        self.newest is Some ==> newer(header.frame_id, self.newest->0)
    }

    /// What a packet does, and the frame that it completes.
    pub open spec fn pushed(self, header: VideoHeader, body: Seq<u8>) -> (Assembly, Option<Frame>) {
        let id = header.frame_id;
        let entry = self.entry(header);
        let i = header.fragment_idx as int;
        if !self.in_time(header) {
            (self.counted(), None)
        } else if i >= entry.fragments.len() || entry.fragments[i] is Some {
            // A damaged packet, or one that has come before.
            (self.counted().kept(id, entry), None)
        } else {
            let entry = entry.stored(header, body);
            if entry.whole() {
                (self.counted().finished(id), Some(entry.frame(id)))
            } else {
                (self.counted().kept(id, entry), None)
            }
        }
    }
}

impl View for FrameAssembler {
    type V = Assembly;

    closed spec fn view(&self) -> Assembly {
        Assembly {
            pending: self.partial@.map_values(|p: Partial| p.model()),
            newest: self.newest_completed,
            max_pending: self.max_pending as nat,
            frames_completed: self.stats.frames_completed as nat,
            frames_dropped: self.stats.frames_dropped as nat,
            packets_received: self.stats.packets_received as nat,
            packets_lost: self.stats.packets_lost as nat,
        }
    }
}

impl Default for FrameAssembler {
    fn default() -> (r: Self)
        ensures
            r.wf(),
            r@ == FrameAssembler::empty(4),
    {
        Self::new(4)
    }
}

impl FrameAssembler {
    pub open spec fn empty(max_pending: nat) -> Assembly {
        Assembly {
            pending: Map::empty(),
            newest: None,
            max_pending,
            frames_completed: 0,
            frames_dropped: 0,
            packets_received: 0,
            packets_lost: 0,
        }
    }

    pub closed spec fn inner_wf(&self) -> bool {
        forall|id: u32| #[trigger] self.partial@.contains_key(id) ==> self.partial@[id].wf()
    }

    /// What always holds: at most `max_pending` unfinished frames, all newer than the newest
    /// finished one, and every frame counted was begun by a packet.
    pub open spec fn wf(&self) -> bool {
        &&& self.inner_wf()
        &&& self@.pending.dom().finite()
        &&& 1 <= self@.max_pending
        &&& self@.pending.dom().len() <= self@.max_pending
        &&& self@.newest is Some ==> forall|id: u32| #[trigger]
            self@.pending.contains_key(id) ==> newer(id, self@.newest->0)
        &&& self@.frames_completed + self@.frames_dropped + self@.pending.dom().len()
            <= self@.packets_received
    }

    /// Whether the counters can take one more packet, whatever it does.
    pub open spec fn can_count(&self) -> bool {
        &&& self@.packets_received < u64::MAX
        &&& self@.packets_lost + 0xffff * (self@.pending.dom().len() + 1) <= u64::MAX
    }

    /// `max_pending` is the number of unfinished frames kept at the same time, at least one. Small
    /// (2 to 4) for low latency, larger where the link reorders packets.
    pub fn new(max_pending: usize) -> (r: Self)
        ensures
            r.wf(),
            r@ == Self::empty(if max_pending == 0 { 1 } else { max_pending as nat }),
    {
        let r: FrameAssembler = FrameAssembler {
            partial: BTreeMap::new(),
            newest_completed: None,
            max_pending: if max_pending == 0 {
                1
            } else {
                max_pending
            },
            stats: AssemblerStats {
                frames_completed: 0,
                frames_dropped: 0,
                packets_received: 0,
                packets_lost: 0,
            },
        };
        assert(r@.pending =~= Map::empty());
        r
    }

    pub fn stats(&self) -> (r: AssemblerStats)
        ensures
            r.frames_completed == self@.frames_completed,
            r.frames_dropped == self@.frames_dropped,
            r.packets_received == self@.packets_received,
            r.packets_lost == self@.packets_lost,
    {
        self.stats
    }

    /// The numbers of the unfinished frames.
    fn ids(&self) -> (v: Vec<u32>)
        ensures
            v@.no_duplicates(),
            v@.to_set() == self@.pending.dom(),
            v@.len() == self@.pending.dom().len(),
    {
        let mut v: Vec<u32> = Vec::new();
        for k in it: self.partial.keys()
            invariant
                v@ == it.seq().unref().take(it.index() as int),
                it.index() == it.seq().len() ==> v@ == it.seq().unref(),
                it.seq().unref().to_set() == self.partial@.dom(),
                it.seq().no_duplicates(),
                it.seq().len() == self.partial@.dom().len(),
        {
            v.push(*k);
            assert(it.seq().unref().take(it.index() as int + 1) =~= it.seq().unref().take(
                it.index() as int,
            ).push(*k));
        }
        assert(self@.pending.dom() =~= self.partial@.dom());
        v
    }

    /// Gives up frame `id`: it counts as dropped, and what it misses as lost.
    fn discard(&mut self, id: u32)
        requires
            old(self).inner_wf(),
            old(self)@.pending.contains_key(id),
            old(self)@.frames_dropped < u64::MAX,
            old(self)@.packets_lost + 0xffff <= u64::MAX,
        ensures
            final(self).inner_wf(),
            final(self)@ == old(self)@.given_up(id),
    {
        if let Some(partial) = self.partial.remove(&id) {
            assert(partial == old(self).partial@[id]);
            proof {
                present_bounds(partial.model().fragments);
            }
            self.stats.frames_dropped = self.stats.frames_dropped + 1;
            self.stats.packets_lost = self.stats.packets_lost + (partial.fragments.len()
                - partial.received as usize) as u64;
            assert(self@.pending =~= old(self)@.pending.remove(id));
        }
    }

    /// The frame to give up first.
    #[verifier::spinoff_prover]
    fn find_oldest(&self) -> (r: u32)
        requires
            self@.pending.dom().finite(),
            self@.pending.dom().len() > 0,
        ensures
            r == oldest(self@.pending.dom()),
            self@.pending.contains_key(r),
    {
        let ids: Vec<u32> = self.ids();
        let ghost dom = self@.pending.dom();
        assert(forall|o: u32| dom.contains(o) <==> ids@.contains(o)) by {
            assert(forall|o: u32| ids@.to_set().contains(o) <==> ids@.contains(o));
        }
        assert(ids@.take(1)[0] == ids@[0]);
        let mut first: u32 = ids[0];
        let mut smallest: u32 = ids[0];
        let mut i: usize = 1;
        while i < ids.len()
            invariant
                1 <= i <= ids@.len(),
                ids@.take(i as int).contains(first),
                ids@.take(i as int).contains(smallest),
                forall|j: int| 0 <= j < i ==> smallest <= ids@[j],
                forall|e: u32|
                    #[trigger] ids@.take(i as int).contains(e) && others_newer(ids@, e) ==> e
                        == first,
            decreases ids@.len() - i,
        {
            let ghost before = ids@.take(i as int);
            let ghost after = ids@.take(i as int + 1);
            assert(after =~= before.push(ids@[i as int]));
            assert(after[i as int] == ids@[i as int]);
            proof {
                let f = choose|j: int| 0 <= j < before.len() && before[j] == first;
                assert(after[f] == first);
                assert(ids@[f] == first);
                let s = choose|j: int| 0 <= j < before.len() && before[j] == smallest;
                assert(after[s] == smallest);
                assert forall|e: u32| #[trigger]
                    after.contains(e) && others_newer(ids@, e) implies e == (if newer(
                    first,
                    ids@[i as int],
                ) {
                    ids@[i as int]
                } else {
                    first
                }) by {
                    let at = choose|j: int| 0 <= j < after.len() && after[j] == e;
                    if at < i {
                        assert(before[at] == e);
                        assert(before.contains(e));
                    }
                    if e != first {
                        assert(newer(ids@[f], e));
                    }
                    if e != ids@[i as int] {
                        assert(newer(ids@[i as int], e));
                    }
                }
            }
            if is_newer(first, ids[i]) {
                first = ids[i];
            }
            if ids[i] < smallest {
                smallest = ids[i];
            }
            i += 1;
        }
        assert(ids@.take(ids@.len() as int) =~= ids@);
        let mut j: usize = 0;
        let mut alone: bool = true;
        while j < ids.len()
            invariant
                j <= ids@.len(),
                alone == others_newer(ids@.take(j as int), first),
            decreases ids@.len() - j,
        {
            assert(ids@.take(j as int + 1) =~= ids@.take(j as int).push(ids@[j as int]));
            assert(forall|k: int| 0 <= k < j ==> ids@.take(j as int + 1)[k] == ids@.take(j as int)[k]);
            assert(ids@.take(j as int + 1)[j as int] == ids@[j as int]);
            if ids[j] != first && !is_newer(ids[j], first) {
                alone = false;
            }
            j += 1;
        }
        proof {
            assert forall|e: u32| is_oldest(dom, e) implies e == first by {
                assert(ids@.contains(e));
                assert forall|k: int| 0 <= k < ids@.len() && ids@[k] != e implies newer(
                    #[trigger] ids@[k],
                    e,
                ) by {
                    assert(ids@.contains(ids@[k]));
                    assert(dom.contains(ids@[k]));
                }
                assert(others_newer(ids@, e));
                assert(ids@.take(ids@.len() as int).contains(e));
            }
            if alone {
                assert(dom.contains(first));
                assert forall|o: u32| #[trigger] dom.contains(o) && o != first implies newer(
                    o,
                    first,
                ) by {
                    assert(ids@.contains(o));
                    let k = choose|k: int| 0 <= k < ids@.len() && ids@[k] == o;
                    assert(newer(ids@[k], first));
                }
                assert(is_oldest(dom, first));
            } else {
                let k = choose|k: int|
                    0 <= k < ids@.len() && ids@[k] != first && !newer(#[trigger] ids@[k], first);
                assert(ids@.contains(ids@[k]));
                assert(dom.contains(ids@[k]));
                assert(!is_oldest(dom, first));
                assert(forall|e: u32| !is_oldest(dom, e));
                assert(dom.contains(smallest));
                assert forall|o: u32| #[trigger] dom.contains(o) implies smallest <= o by {
                    assert(ids@.contains(o));
                    let m = choose|m: int| 0 <= m < ids@.len() && ids@[m] == o;
                    assert(smallest <= ids@[m]);
                }
                assert(is_smallest(dom, smallest));
            }
        }
        if alone {
            first
        } else {
            smallest
        }
    }

    /// Keeps to the number of unfinished frames; the oldest is given up first.
    fn enforce_window(&mut self)
        requires
            old(self).inner_wf(),
            old(self)@.pending.dom().finite(),
            1 <= old(self)@.max_pending,
            old(self)@.pending.dom().len() <= old(self)@.max_pending + 1,
            old(self)@.frames_dropped < u64::MAX,
            old(self)@.packets_lost + 0xffff <= u64::MAX,
        ensures
            final(self).inner_wf(),
            final(self)@ == (if old(self)@.pending.dom().len() <= old(self)@.max_pending {
                old(self)@
            } else {
                old(self)@.given_up(oldest(old(self)@.pending.dom()))
            }),
            final(self)@.pending.dom().len() <= final(self)@.max_pending,
            final(self)@.pending.dom().len() < old(self)@.pending.dom().len() ==>
                old(self)@.pending.contains_key(oldest(old(self)@.pending.dom())),
    {
        assert(self@.pending.dom() =~= self.partial@.dom());
        if self.partial.len() > self.max_pending {
            let id: u32 = self.find_oldest();
            self.discard(id);
            assert(self@.pending.dom() =~= old(self)@.pending.dom().remove(id));
        }
    }

    /// Unfinished frames that are not newer than the one just finished have lost their worth.
    fn drop_older_than(&mut self, frame_id: u32)
        requires
            old(self).inner_wf(),
            old(self)@.frames_dropped + old(self)@.pending.dom().len() <= u64::MAX,
            old(self)@.packets_lost + 0xffff * old(self)@.pending.dom().len() <= u64::MAX,
        ensures
            final(self).inner_wf(),
            ({
                let before = old(self)@.pending;
                let left = Map::new(
                    |k: u32| before.contains_key(k) && newer(k, frame_id),
                    |k: u32| before[k],
                );
                final(self)@ == Assembly {
                    pending: left,
                    frames_dropped: (old(self)@.frames_dropped + before.dom().len()
                        - left.dom().len()) as nat,
                    packets_lost: (old(self)@.packets_lost + total_missing(before)
                        - total_missing(left)) as nat,
                    ..old(self)@
                }
            }),
            final(self)@.pending.dom().len() <= old(self)@.pending.dom().len(),
            final(self)@.frames_dropped + final(self)@.pending.dom().len() == old(self)@.frames_dropped + old(self)@.pending.dom().len(),
    {
        let ids: Vec<u32> = self.ids();
        let ghost before = old(self)@.pending;
        let mut i: usize = 0;
        assert(self@.pending.dom() =~= self.partial@.dom());
        while i < ids.len()
            invariant
                i <= ids@.len(),
                ids@.no_duplicates(),
                ids@.to_set() == before.dom(),
                before == old(self)@.pending,
                self.inner_wf(),
                self@ == (Assembly {
                    pending: self@.pending,
                    frames_dropped: self@.frames_dropped,
                    packets_lost: self@.packets_lost,
                    ..old(self)@
                }),
                self@.pending.dom().finite(),
                forall|k: u32| #[trigger]
                    self@.pending.contains_key(k) <==> before.contains_key(k) && (newer(k, frame_id)
                        || !ids@.take(i as int).contains(k)),
                forall|k: u32| #[trigger]
                    self@.pending.contains_key(k) ==> self@.pending[k] == before[k],
                self@.frames_dropped + self@.pending.dom().len() == old(self)@.frames_dropped
                    + before.dom().len(),
                self@.pending.dom().len() <= before.dom().len(),
                self@.frames_dropped + self@.pending.dom().len() <= u64::MAX,
                self@.packets_lost + total_missing(self@.pending) == old(self)@.packets_lost
                    + total_missing(before),
                self@.packets_lost + 0xffff * self@.pending.dom().len() <= u64::MAX,
            decreases ids@.len() - i,
        {
            let id: u32 = ids[i];
            let ghost was = self@;
            proof {
                assert(ids@.to_set().contains(id));
                assert(!ids@.take(i as int).contains(id)) by {
                    if ids@.take(i as int).contains(id) {
                        let j = choose|j: int|
                            0 <= j < ids@.take(i as int).len() && ids@.take(i as int)[j] == id;
                        assert(ids@[j] == ids@[i as int]);
                    }
                }
                assert(self@.pending.contains_key(id));
                assert(ids@.take(i as int + 1) =~= ids@.take(i as int).push(id));
                assert forall|k: u32|
                    ids@.take(i as int + 1).contains(k) <==> ids@.take(i as int).contains(k) || k
                        == id by {
                    if ids@.take(i as int).contains(k) {
                        let j = choose|j: int|
                            0 <= j < ids@.take(i as int).len() && ids@.take(i as int)[j] == k;
                        assert(ids@.take(i as int + 1)[j] == k);
                    }
                    assert(ids@.take(i as int + 1)[i as int] == id);
                }
                assert(self.partial@.contains_key(id));
                present_bounds(self.partial@[id].model().fragments);
                missing_below_removed(self@.pending, id, 0x1_0000_0000);
                assert(was.pending.dom().len() > 0) by {
                    assert(was.pending.dom().contains(id));
                }
            }
            if !is_newer(id, frame_id) {
                self.discard(id);
                assert(self@.pending.dom() =~= was.pending.dom().remove(id));
            }
            i += 1;
        }
        proof {
            assert(ids@.take(ids@.len() as int) =~= ids@);
            let left = Map::new(
                |k: u32| before.contains_key(k) && newer(k, frame_id),
                |k: u32| before[k],
            );
            assert forall|k: u32| self@.pending.contains_key(k) == left.contains_key(k) by {
                if before.contains_key(k) {
                    assert(ids@.to_set().contains(k));
                    assert(ids@.contains(k));
                }
            }
            assert(self@.pending =~= left);
        }
    }

    /// Takes in one datagram. The frame comes back as soon as its last fragment is there.
    pub fn push(&mut self, packet: &[u8]) -> (r: Result<Option<AssembledFrame>, ProtocolError>)
        requires
            old(self).wf(),
            old(self).can_count(),
        ensures
            final(self).wf(),
            match VideoHeader::read(packet@) {
                Err(e) => r == Err::<Option<AssembledFrame>, ProtocolError>(e) && final(self)@
                    == old(self)@,
                Ok(header) => {
                    let (state, frame) = old(self)@.pushed(
                        header,
                        packet@.skip(VIDEO_HEADER_LEN as int),
                    );
                    &&& r is Ok
                    &&& final(self)@ == state
                    &&& match r->Ok_0 {
                        Some(f) => frame == Some(f@),
                        None => frame is None,
                    }
                },
            },
    {
        let (header, body) = match VideoHeader::parse(packet) {
            Ok(parts) => parts,
            Err(e) => return Err(e),
        };
        self.stats.packets_received = self.stats.packets_received + 1;
        let ghost counted = self@;
        assert(counted =~= old(self)@.counted());
        let id: u32 = header.frame_id;

        // The decoder has passed that point already.
        if let Some(newest) = self.newest_completed {
            if !is_newer(id, newest) {
                return Ok(None);
            }
        }
        let ghost began = old(self)@.entry(header);
        let mut entry: Partial = match self.partial.remove(&id) {
            Some(partial) => partial,
            None => Partial {
                fragments: slots(header.fragment_count as usize),
                received: 0,
                monitor: header.monitor,
                codec: header.codec,
                keyframe: header.flags.is_keyframe(),
                capture_us: header.capture_us,
            },
        };
        proof {
            nothing_present(header.fragment_count as nat);
            assert(entry.model() =~= began);
            assert(entry.wf());
            assert(self@.pending =~= counted.pending.remove(id));
        }
        let idx: usize = header.fragment_idx as usize;
        if idx >= entry.fragments.len() || entry.fragments[idx].is_some() {
            assert(self@.pending.insert(id, began) =~= counted.pending.insert(id, began));
            self.keep(id, entry);
            return Ok(None);
        }
        let mut copy: Vec<u8> = Vec::with_capacity(body.len());
        copy.extend_from_slice(body);
        assert(copy@ =~= body@);
        proof {
            present_bounds(began.fragments);
            present_after_store(began.fragments, idx as int, body@);
            present_bounds(began.stored(header, body@).fragments);
        }
        entry.fragments.set(idx, Some(copy));
        entry.received = entry.received + 1;
        if header.flags.is_keyframe() {
            entry.keyframe = true;
        }
        assert(entry.model() =~= began.stored(header, body@));
        assert(entry.wf());
        if entry.received as usize == entry.fragments.len() {
            let data: Vec<u8> = entry.join();
            self.newest_completed = Some(id);
            self.stats.frames_completed = self.stats.frames_completed + 1;
            let ghost rest = self@;
            assert(rest.pending =~= old(self)@.pending.remove(id));
            assert(rest.pending.dom() =~= self.partial@.dom());
            assert(rest.pending.dom() =~= old(self)@.pending.dom().remove(id));
            self.drop_older_than(id);
            assert(self@ =~= old(self)@.counted().finished(id));
            assert(self@.pending.dom() =~= self.partial@.dom());
            return Ok(
                Some(
                    AssembledFrame {
                        frame_id: id,
                        monitor: entry.monitor,
                        codec: entry.codec,
                        keyframe: entry.keyframe,
                        capture_us: entry.capture_us,
                        data,
                    },
                ),
            );
        }
        assert(self@.pending.insert(id, entry.model()) =~= counted.pending.insert(
            id,
            entry.model(),
        ));
        self.keep(id, entry);
        Ok(None)
    }

    /// Puts an unfinished frame in its place and keeps to the window.
    fn keep(&mut self, id: u32, entry: Partial)
        requires
            old(self).inner_wf(),
            entry.wf(),
            1 <= old(self)@.max_pending,
            old(self)@.pending.dom().finite(),
            old(self)@.pending.dom().len() <= old(self)@.max_pending,
            old(self)@.newest is Some ==> newer(id, old(self)@.newest->0) && forall|k: u32|
                #[trigger]
                old(self)@.pending.contains_key(k) ==> newer(k, old(self)@.newest->0),
            old(self)@.frames_completed + old(self)@.frames_dropped + old(self)@.pending.dom().len() < old(self)@.packets_received,
            old(self)@.packets_lost + 0xffff <= u64::MAX,
        ensures
            final(self).wf(),
            final(self)@ == old(self)@.kept(id, entry.model()),
    {
        self.partial.insert(id, entry);
        assert(self@.pending =~= old(self)@.pending.insert(id, entry.model()));
        assert(self@.pending.dom() =~= self.partial@.dom());
        assert(self@.pending.dom() =~= old(self)@.pending.dom().insert(id));
        let ghost with = self@;
        assert forall|k: u32| #[trigger] self.partial@.contains_key(k) implies self.partial@[k].wf() by {
            if k != id {
                assert(old(self).partial@.contains_key(k));
            }
        }
        self.enforce_window();
        assert(self@.pending.dom() =~= self.partial@.dom());
        proof {
            if with.pending.dom().len() > with.max_pending {
                assert(self@.pending.dom() =~= with.pending.dom().remove(
                    oldest(with.pending.dom()),
                ));
            }
        }
    }
}

/// Room for `n` fragments, none of which has come.
fn slots(n: usize) -> (v: Vec<Option<Vec<u8>>>)
    ensures
        v@.len() == n,
        forall|i: int| 0 <= i < n ==> v@[i] is None,
{
    let mut v: Vec<Option<Vec<u8>>> = Vec::with_capacity(n);
    let mut i: usize = 0;
    while i < n
        invariant
            i <= n,
            v@.len() == i,
            forall|j: int| 0 <= j < i ==> v@[j] is None,
        decreases n - i,
    {
        v.push(None);
        i += 1;
    }
    v
}

impl Partial {
    /// All fragments one behind the other.
    fn join(&self) -> (data: Vec<u8>)
        requires
            self.wf(),
            self.received == self.fragments@.len(),
        ensures
            data@ == self.model().data(),
    {
        let ghost parts = Seq::new(
            self.model().fragments.len(),
            |i: int| self.model().fragments[i]->0,
        );
        proof {
            present_bounds(self.model().fragments);
        }
        let mut data: Vec<u8> = Vec::new();
        let mut i: usize = 0;
        assert(parts.take(0) =~= Seq::empty());
        while i < self.fragments.len()
            invariant
                i <= self.fragments@.len() == parts.len(),
                parts == Seq::new(
                    self.model().fragments.len(),
                    |i: int| self.model().fragments[i]->0,
                ),
                forall|j: int|
                    0 <= j < self.model().fragments.len() ==> self.model().fragments[j] is Some,
                data@ == joined(parts.take(i as int)),
            decreases self.fragments@.len() - i,
        {
            assert(self.model().fragments[i as int] is Some);
            if let Some(fragment) = &self.fragments[i] {
                assert(parts.take(i as int + 1).drop_last() =~= parts.take(i as int));
                assert(parts.take(i as int + 1).last() == fragment@);
                let ghost before = data@;
                data.extend_from_slice(fragment.as_slice());
                assert(data@ =~= before + fragment@);
            }
            i += 1;
        }
        assert(parts.take(parts.len() as int) =~= parts);
        data
    }
}

/// A frame as it is cut and sent.
#[verifier::ext_equal]
pub struct Sent {
    pub encoded: Seq<u8>,
    pub frame_id: u32,
    pub monitor: u8,
    pub codec: Codec,
    pub keyframe: bool,
    pub capture_us: u64,
}

impl Sent {
    pub open spec fn count(self) -> nat {
        fragments(self.encoded.len())
    }

    pub open spec fn header(self, i: int) -> VideoHeader {
        fragment_header(
            self.encoded.len(),
            i,
            self.frame_id,
            self.monitor,
            self.codec,
            self.keyframe,
            self.capture_us,
        )
    }

    /// The frame as it should come out at the other end.
    pub open spec fn frame(self) -> Frame {
        Frame {
            frame_id: self.frame_id,
            monitor: self.monitor,
            codec: self.codec,
            keyframe: self.keyframe,
            capture_us: self.capture_us,
            data: self.encoded,
        }
    }

    /// The frame with the packets in `order` there.
    spec fn partly(self, order: Seq<int>) -> Pending {
        Pending {
            fragments: Seq::new(
                self.count(),
                |i: int|
                    if order.contains(i) {
                        Some(chunk(self.encoded, i))
                    } else {
                        None
                    },
            ),
            monitor: self.monitor,
            codec: self.codec,
            keyframe: self.keyframe,
            capture_us: self.capture_us,
        }
    }
}

/// The state after the packets of a frame came in the given order.
pub open spec fn fed(state: Assembly, sent: Sent, order: Seq<int>) -> Assembly
    decreases order.len(),
{
    if order.len() == 0 {
        state
    } else {
        fed(state, sent, order.drop_last()).pushed(
            sent.header(order.last()),
            chunk(sent.encoded, order.last()),
        ).0
    }
}

/// Some packets of a frame, each once.
pub open spec fn packets_of(sent: Sent, order: Seq<int>) -> bool {
    &&& order.no_duplicates()
    &&& forall|k: int| 0 <= k < order.len() ==> 0 <= #[trigger] order[k] < sent.count()
}

/// A state that a new frame can come into without pushing another one out.
pub open spec fn has_room(state: Assembly, sent: Sent) -> bool {
    &&& state.pending.dom().finite()
    &&& state.pending.dom().len() < state.max_pending
    &&& !state.pending.contains_key(sent.frame_id)
    &&& state.newest is Some ==> newer(sent.frame_id, state.newest->0)
}

proof fn order_grows(order: Seq<int>)
    requires
        order.len() > 0,
        order.no_duplicates(),
    ensures
        !order.drop_last().contains(order.last()),
        forall|i: int|
            order.contains(i) <==> order.drop_last().contains(i) || i == order.last(),
{
    let front = order.drop_last();
    assert forall|i: int| order.contains(i) <==> front.contains(i) || i == order.last() by {
        if front.contains(i) {
            let k = choose|k: int| 0 <= k < front.len() && front[k] == i;
            assert(order[k] == i);
        }
        if order.contains(i) {
            let k = choose|k: int| 0 <= k < order.len() && order[k] == i;
            if k < front.len() {
                assert(front[k] == i);
            }
        }
        assert(order[order.len() - 1] == order.last());
    }
    if front.contains(order.last()) {
        let k = choose|k: int| 0 <= k < front.len() && front[k] == order.last();
        assert(order[k] == order[order.len() - 1]);
    }
}

proof fn partly_present(sent: Sent, order: Seq<int>)
    requires
        packets_of(sent, order),
    ensures
        present(sent.partly(order).fragments) == order.len(),
    decreases order.len(),
{
    if order.len() == 0 {
        assert(sent.partly(order).fragments =~= Seq::new(sent.count(), |i: int| None));
        nothing_present(sent.count());
    } else {
        let front = order.drop_last();
        let last = order.last();
        assert(0 <= order[order.len() - 1] < sent.count());
        assert forall|k: int| 0 <= k < front.len() implies 0 <= #[trigger] front[k] < sent.count() by {
            assert(front[k] == order[k]);
        }
        order_grows(order);
        partly_present(sent, front);
        present_after_store(sent.partly(front).fragments, last, chunk(sent.encoded, last));
        assert(sent.partly(order).fragments =~= sent.partly(front).fragments.update(
            last,
            Some(chunk(sent.encoded, last)),
        ));
    }
}

/// What one more packet of the frame does to a state that holds the frame partly.
proof fn next_packet(state: Assembly, sent: Sent, order: Seq<int>)
    requires
        has_room(state, sent),
        sent.encoded.len() <= 65535 * MAX_VIDEO_PAYLOAD,
        packets_of(sent, order),
        order.len() > 0,
        fed(state, sent, order.drop_last()) == if order.len() == 1 {
            state
        } else {
            Assembly {
                pending: state.pending.insert(sent.frame_id, sent.partly(order.drop_last())),
                packets_received: (state.packets_received + order.len() - 1) as nat,
                ..state
            }
        },
    ensures
        order.len() < sent.count() ==> fed(state, sent, order) == (Assembly {
            pending: state.pending.insert(sent.frame_id, sent.partly(order)),
            packets_received: state.packets_received + order.len(),
            ..state
        }),
        fed(state, sent, order.drop_last()).pushed(
            sent.header(order.last()),
            chunk(sent.encoded, order.last()),
        ).1 == if order.len() < sent.count() {
            None
        } else {
            Some(sent.partly(order).frame(sent.frame_id))
        },
{
    let before = fed(state, sent, order.drop_last());
    let front = order.drop_last();
    let i = order.last();
    assert(0 <= order[order.len() - 1] < sent.count());
    assert(sent.count() <= 65535);
    let header = sent.header(i);
    order_grows(order);
    partly_present(sent, order);
    assert(0u8 & 1 == 0 && 1u8 & 1 == 1 && 2u8 & 1 == 0 && 3u8 & 1 == 1) by (bit_vector);
    assert(header.flags.keyframe() == sent.keyframe);
    if order.len() == 1 {
        assert(sent.partly(front) =~= Pending::started(header));
    }
    assert(before.entry(header) == sent.partly(front));
    assert(header.fragment_idx == i);
    assert(before.in_time(header));
    assert(sent.partly(front).fragments[i] is None);
    present_bounds(sent.partly(order).fragments);
    assert(sent.partly(order).missing() == sent.count() - order.len());
    assert(sent.partly(front).stored(header, chunk(sent.encoded, i)) =~= sent.partly(order));
    let kept = before.counted().pending.insert(sent.frame_id, sent.partly(order));
    assert(kept =~= state.pending.insert(sent.frame_id, sent.partly(order)));
    assert(kept.dom() =~= state.pending.dom().insert(sent.frame_id));
    assert(before.counted().kept(sent.frame_id, sent.partly(order)).pending == kept);
}

proof fn fed_partly(state: Assembly, sent: Sent, order: Seq<int>)
    requires
        has_room(state, sent),
        sent.encoded.len() <= 65535 * MAX_VIDEO_PAYLOAD,
        packets_of(sent, order),
        0 < order.len() < sent.count(),
    ensures
        fed(state, sent, order) == (Assembly {
            pending: state.pending.insert(sent.frame_id, sent.partly(order)),
            packets_received: state.packets_received + order.len(),
            ..state
        }),
    decreases order.len(),
{
    let front = order.drop_last();
    assert forall|k: int| 0 <= k < front.len() implies 0 <= #[trigger] front[k] < sent.count() by {
        assert(front[k] == order[k]);
    }
    if order.len() > 1 {
        fed_partly(state, sent, front);
    }
    next_packet(state, sent, order);
}

/// A frame that is cut into packets is put together again, whatever order they come in: the last
/// of them brings the frame, the others nothing.
pub proof fn frame_comes_back(state: Assembly, sent: Sent, order: Seq<int>)
    requires
        has_room(state, sent),
        sent.encoded.len() <= 65535 * MAX_VIDEO_PAYLOAD,
        packets_of(sent, order),
        order.len() > 0,
    ensures
        fed(state, sent, order.drop_last()).pushed(
            sent.header(order.last()),
            chunk(sent.encoded, order.last()),
        ).1 == if order.len() < sent.count() {
            None
        } else {
            Some(sent.frame())
        },
{
    let front = order.drop_last();
    assert forall|k: int| 0 <= k < front.len() implies 0 <= #[trigger] front[k] < sent.count() by {
        assert(front[k] == order[k]);
    }
    partly_present(sent, order);
    present_bounds(sent.partly(order).fragments);
    partly_present(sent, front);
    present_bounds(sent.partly(front).fragments);
    order_grows(order);
    if order.len() > 1 {
        fed_partly(state, sent, front);
    }
    next_packet(state, sent, order);
    if order.len() == sent.count() {
        let whole = sent.partly(order);
        assert(Seq::new(whole.fragments.len(), |i: int| whole.fragments[i]->0) =~= chunks(
            sent.encoded,
        )) by {
            assert forall|i: int| 0 <= i < whole.fragments.len() implies whole.fragments[i]
                == Some(chunk(sent.encoded, i)) by {
                assert(whole.fragments[i] is Some);
            }
        }
        chunks_cover_frame(sent.encoded);
    }
}

/// Frames come out in order: each is newer than the one before it.
pub proof fn frames_come_in_order(state: Assembly, header: VideoHeader, body: Seq<u8>)
    ensures
        state.pushed(header, body).1 matches Some(frame) ==> {
            &&& state.pushed(header, body).0.newest == Some(frame.frame_id)
            &&& state.newest matches Some(last) ==> newer(frame.frame_id, last)
        },
        state.pushed(header, body).1 is None ==> state.pushed(header, body).0.newest
            == state.newest,
{
}

/// A packet of a frame that is not newer than the newest whole one changes nothing but the count.
pub proof fn late_packets_are_ignored(state: Assembly, header: VideoHeader, body: Seq<u8>)
    requires
        state.newest matches Some(last) && !newer(header.frame_id, last),
    ensures
        state.pushed(header, body) == (state.counted(), None::<Frame>),
{
}

/// Frame numbers lie on a circle of 2^32: one is newer than another where it is reached from it by
/// counting up, in fewer than 2^31 steps.
pub proof fn newer_means_counting_up(a: u32, b: u32, steps: nat)
    requires
        (b + steps) % 0x1_0000_0000 == a,
        steps < 0x1_0000_0000,
    ensures
        newer(a, b) <==> 0 < steps < 0x8000_0000,
        newer(a, b) ==> !newer(b, a),
{
}

/// A frame is newer than all those that it is counted up from, around the circle too.
pub proof fn next_frames_are_newer(id: u32)
    ensures
        newer(id.wrapping_add(1), id),
        !newer(id, id),
        !newer(id, id.wrapping_add(1)),
{
}

/// No packet changes what has come of other frames: each of them stays as it is or is given up as a
/// whole.
pub proof fn other_frames_are_not_touched(
    state: Assembly,
    header: VideoHeader,
    body: Seq<u8>,
    other: u32,
)
    requires
        other != header.frame_id,
        state.pushed(header, body).0.pending.contains_key(other),
    ensures
        state.pending.contains_key(other),
        state.pushed(header, body).0.pending[other] == state.pending[other],
{
}

/// When a frame is whole, it leaves, and with it exactly those unfinished frames that are not newer;
/// the newer ones stay with every fragment that they had.
pub proof fn newer_frames_outlive_a_whole_one(
    state: Assembly,
    header: VideoHeader,
    body: Seq<u8>,
    other: u32,
)
    requires
        state.pushed(header, body).1 is Some,
        other != header.frame_id,
    ensures
        ({
            let after = state.pushed(header, body).0;
            let ahead = (other - header.frame_id) % 0x1_0000_0000;
            &&& !after.pending.contains_key(header.frame_id)
            &&& after.pending.contains_key(other) <==> state.pending.contains_key(other) && 0
                < ahead < 0x8000_0000
            &&& after.pending.contains_key(other) ==> after.pending[other] == state.pending[other]
        }),
{
    assert((other - header.frame_id) % 0x1_0000_0000 == distance(other, header.frame_id));
}

/// Whether a packet is the first of its frame.
pub open spec fn begins_a_frame(state: Assembly, header: VideoHeader) -> bool {
    !state.pending.contains_key(header.frame_id)
}

/// A packet that completes nothing gives up no frame as long as there is room, and where there is
/// none, one frame at most: never one that has an older one beside it.
pub proof fn the_oldest_makes_room(
    state: Assembly,
    header: VideoHeader,
    body: Seq<u8>,
    gone: u32,
    other: u32,
)
    requires
        state.pending.dom().finite(),
        state.pending.dom().len() <= state.max_pending,
        state.pushed(header, body).1 is None,
        state.pending.contains_key(gone),
        !state.pushed(header, body).0.pending.contains_key(gone),
    ensures
        begins_a_frame(state, header),
        state.pending.dom().len() == state.max_pending,
        ({
            let all = state.pending.dom().insert(header.frame_id);
            // Where one of all the frames is older than all the others, that one goes.
            is_oldest(all, other) ==> gone == other
        }),
        state.pending.contains_key(other) && other != gone ==> state.pushed(
            header,
            body,
        ).0.pending.contains_key(other),
{
    let id = header.frame_id;
    let entry = state.entry(header);
    let all = state.pending.dom().insert(id);
    assert(state.in_time(header));
    let kept = if header.fragment_idx as int >= entry.fragments.len()
        || entry.fragments[header.fragment_idx as int] is Some {
        entry
    } else {
        entry.stored(header, body)
    };
    assert(state.counted().pending.insert(id, kept).dom() =~= all);
    assert(state.pushed(header, body).0 == state.counted().kept(id, kept));
    if state.pending.contains_key(id) {
        assert(all =~= state.pending.dom());
    }
    if is_oldest(all, other) {
        let e = oldest(all);
        assert(exists|x: u32| is_oldest(all, x));
        assert(is_oldest(all, e));
        if e != other {
            assert(newer(e, other) && newer(other, e));
        }
    }
}

/// A packet's bytes are put where its header says, and nowhere else; what the frame is known by does
/// not change with later packets, but that one keyframe packet makes it a keyframe.
pub proof fn bytes_go_where_the_header_says(
    state: Assembly,
    header: VideoHeader,
    body: Seq<u8>,
    i: int,
)
    requires
        state.newest matches Some(last) ==> newer(header.frame_id, last),
        header.fragment_idx < header.fragment_count,
        state.pending.contains_key(header.frame_id) ==> header.fragment_idx
            < state.pending[header.frame_id].fragments.len()
            && state.pending[header.frame_id].fragments[header.fragment_idx as int] is None,
        state.pushed(header, body).1 is None,
        state.pushed(header, body).0.pending.contains_key(header.frame_id),
    ensures
        ({
            let id = header.frame_id;
            let after = state.pushed(header, body).0.pending[id];
            let bit = header.flags.0 % 2 == 1;
            &&& after.fragments[header.fragment_idx as int] == Some(body)
            &&& state.pending.contains_key(id) ==> {
                let before = state.pending[id];
                &&& after.fragments.len() == before.fragments.len()
                &&& 0 <= i < before.fragments.len() && i != header.fragment_idx
                    ==> after.fragments[i] == before.fragments[i]
                &&& after.monitor == before.monitor
                &&& after.codec == before.codec
                &&& after.capture_us == before.capture_us
                &&& after.keyframe == (before.keyframe || bit)
            }
            &&& !state.pending.contains_key(id) ==> {
                &&& after.fragments.len() == header.fragment_count
                &&& 0 <= i < after.fragments.len() && i != header.fragment_idx
                    ==> after.fragments[i] is None
                &&& after.monitor == header.monitor
                &&& after.codec == header.codec
                &&& after.capture_us == header.capture_us
                &&& after.keyframe == bit
            }
        }),
{
    let f = header.flags.0;
    assert((f & 1 != 0) == (f % 2 == 1)) by (bit_vector);
}

/// What has come of a packet's frame before it.
pub open spec fn there_already(state: Assembly, header: VideoHeader) -> Seq<Option<Seq<u8>>> {
    if state.pending.contains_key(header.frame_id) {
        state.pending[header.frame_id].fragments
    } else {
        Seq::new(header.fragment_count as nat, |i: int| None)
    }
}

/// A frame is whole exactly when its last missing fragment comes, and then its bytes are those of
/// its fragments in their order.
pub proof fn whole_when_nothing_is_missing(state: Assembly, header: VideoHeader, body: Seq<u8>)
    requires
        state.newest matches Some(last) ==> newer(header.frame_id, last),
        header.fragment_idx < header.fragment_count,
        state.pending.contains_key(header.frame_id) ==> header.fragment_idx
            < state.pending[header.frame_id].fragments.len()
            && state.pending[header.frame_id].fragments[header.fragment_idx as int] is None,
    ensures
        ({
            let others = there_already(state, header);
            let all = others.update(header.fragment_idx as int, Some(body));
            let last = forall|i: int|
                0 <= i < others.len() && i != header.fragment_idx ==> others[i] is Some;
            &&& state.pushed(header, body).1 is Some <==> last
            &&& state.pushed(header, body).1 matches Some(frame) ==> frame.frame_id
                == header.frame_id && frame.data == joined(
                Seq::new(all.len(), |i: int| all[i]->0),
            )
        }),
{
    let entry = state.entry(header);
    let i = header.fragment_idx as int;
    let full = entry.stored(header, body).fragments;
    present_bounds(full);
    let others = there_already(state, header);
    assert(others =~= entry.fragments);
    assert(full =~= others.update(i, Some(body)));
    if forall|k: int|
        0 <= k < entry.fragments.len() && k != i ==> entry.fragments[k] is Some {
        assert forall|k: int| 0 <= k < full.len() implies full[k] is Some by {
            if k != i {
                assert(entry.fragments[k] is Some);
            }
        }
    }
    if forall|k: int| 0 <= k < full.len() ==> full[k] is Some {
        assert forall|k: int| 0 <= k < entry.fragments.len() && k != i implies entry.fragments[k]
            is Some by {
            assert(full[k] is Some);
        }
    }
}

/// A packet that comes again changes nothing but the count of packets.
pub proof fn repeats_are_ignored(state: Assembly, header: VideoHeader, body: Seq<u8>)
    requires
        state.pending.dom().finite(),
        state.pending.dom().len() <= state.max_pending,
        state.pending.contains_key(header.frame_id),
        header.fragment_idx < state.pending[header.frame_id].fragments.len(),
        state.pending[header.frame_id].fragments[header.fragment_idx as int] is Some,
    ensures
        state.pushed(header, body).1 is None,
        state.pushed(header, body).0 == (Assembly {
            packets_received: state.packets_received + 1,
            ..state
        }),
{
    let id = header.frame_id;
    assert(state.pending.insert(id, state.pending[id]) =~= state.pending);
}

/// Every packet counts once. Every frame that comes out counts as completed, every one that leaves
/// unfinished as dropped, and the limit on unfinished frames stays.
pub proof fn counters_tell_what_happened(state: Assembly, header: VideoHeader, body: Seq<u8>)
    requires
        state.pending.dom().finite(),
        state.pending.dom().len() <= state.max_pending,
    ensures
        ({
            let (after, frame) = state.pushed(header, body);
            let came = if state.in_time(header) && begins_a_frame(state, header) {
                1int
            } else {
                0
            };
            let done = if frame is Some {
                1int
            } else {
                0
            };
            &&& after.packets_received == state.packets_received + 1
            &&& after.frames_completed == state.frames_completed + done
            &&& after.max_pending == state.max_pending
            // What was there and what came is either still there, done or dropped.
            &&& state.pending.dom().len() + came == after.pending.dom().len() + done + (
            after.frames_dropped - state.frames_dropped)
        }),
{
    let id = header.frame_id;
    let entry = state.entry(header);
    let i = header.fragment_idx as int;
    if state.in_time(header) {
        let all = state.pending.dom().insert(id);
        if state.pending.contains_key(id) {
            assert(all =~= state.pending.dom());
        }
        let put = if i >= entry.fragments.len() || entry.fragments[i] is Some {
            entry
        } else {
            entry.stored(header, body)
        };
        let with = state.counted().pending.insert(id, put);
        assert(with.dom() =~= all);
        if state.pushed(header, body).1 is None {
            if all.len() > state.max_pending {
                oldest_is_there(all);
                assert(with.remove(oldest(all)).dom() =~= all.remove(oldest(all)));
            }
        } else {
            let rest = state.counted().pending.remove(id);
            assert(rest.dom() =~= state.pending.dom().remove(id));
            let left = Map::new(|k: u32| rest.contains_key(k) && newer(k, id), |k: u32| rest[k]);
            assert(left.dom().subset_of(rest.dom()));
            vstd::set_lib::lemma_len_subset(left.dom(), rest.dom());
            assert(state.pushed(header, body).0.pending == left);
        }
    }
}

proof fn oldest_is_there(ids: Set<u32>)
    requires
        ids.finite(),
        ids.len() > 0,
    ensures
        ids.contains(oldest(ids)),
{
    smallest_exists(ids);
    if exists|e: u32| is_oldest(ids, e) {
        assert(is_oldest(ids, oldest(ids)));
    } else {
        assert(is_smallest(ids, oldest(ids)));
    }
}

proof fn smallest_exists(ids: Set<u32>)
    requires
        ids.finite(),
        ids.len() > 0,
    ensures
        exists|e: u32| is_smallest(ids, e),
    decreases ids.len(),
{
    let x = ids.choose();
    let rest = ids.remove(x);
    if rest.len() == 0 {
        assert forall|o: u32| #[trigger] ids.contains(o) implies x <= o by {
            if o != x {
                assert(rest.contains(o));
            }
        }
        assert(is_smallest(ids, x));
    } else {
        smallest_exists(rest);
        let e = choose|e: u32| is_smallest(rest, e);
        let m = if x < e {
            x
        } else {
            e
        };
        assert forall|o: u32| #[trigger] ids.contains(o) implies m <= o by {
            if o != x {
                assert(rest.contains(o));
            }
        }
        assert(is_smallest(ids, m));
    }
}

/// What a frame misses are the fragments that have not come.
pub proof fn missing_are_the_absent(pending: Pending)
    ensures
        pending.missing() == pending.fragments.filter(|f: Option<Seq<u8>>| f is None).len(),
        pending.missing() + pending.fragments.filter(|f: Option<Seq<u8>>| f is Some).len()
            == pending.fragments.len(),
{
    absent_and_present(pending.fragments);
}

proof fn absent_and_present(fragments: Seq<Option<Seq<u8>>>)
    ensures
        fragments.filter(|f: Option<Seq<u8>>| f is Some).len() == present(fragments),
        fragments.filter(|f: Option<Seq<u8>>| f is None).len() == fragments.len() - present(
            fragments,
        ),
    decreases fragments.len(),
{
    reveal(Seq::filter);
    if fragments.len() > 0 {
        absent_and_present(fragments.drop_last());
    }
}

/// The packets counted as lost are those that the given-up frames still missed. Shown where one
/// frame is given up at a time, which is every time but when a frame overtakes several.
pub proof fn losses_are_what_was_missing(
    state: Assembly,
    header: VideoHeader,
    body: Seq<u8>,
    gone: u32,
)
    requires
        state.pending.dom().finite(),
        state.pending.dom().len() <= state.max_pending,
        gone != header.frame_id,
        forall|k: u32|
            k != gone && k != header.frame_id && #[trigger] state.pending.contains_key(k)
                ==> state.pushed(header, body).0.pending.contains_key(k),
        state.pushed(header, body).1 is None ==> state.pushed(header, body).0.pending.contains_key(
            header.frame_id,
        ) || !state.in_time(header),
    ensures
        ({
            let after = state.pushed(header, body).0;
            let dropped = state.pending.contains_key(gone) && !after.pending.contains_key(gone);
            &&& after.packets_lost == state.packets_lost + if dropped {
                state.pending[gone].fragments.filter(|f: Option<Seq<u8>>| f is None).len()
            } else {
                0
            }
            &&& after.frames_dropped == state.frames_dropped + if dropped {
                1int
            } else {
                0
            }
        }),
{
    let id = header.frame_id;
    let after = state.pushed(header, body).0;
    if state.pending.contains_key(gone) {
        missing_are_the_absent(state.pending[gone]);
    }
    counters_tell_what_happened(state, header, body);
    if state.in_time(header) {
        let entry = state.entry(header);
        let i = header.fragment_idx as int;
        if state.pushed(header, body).1 is Some {
            let rest = state.counted().pending.remove(id);
            assert(rest.dom() =~= state.pending.dom().remove(id));
            let left = Map::new(|k: u32| rest.contains_key(k) && newer(k, id), |k: u32| rest[k]);
            assert(after.pending == left);
            if rest.contains_key(gone) && !left.contains_key(gone) {
                assert(left =~= rest.remove(gone));
                missing_below_removed(rest, gone, 0x1_0000_0000);
            } else {
                assert(left =~= rest);
            }
        } else {
            let put = if i >= entry.fragments.len() || entry.fragments[i] is Some {
                entry
            } else {
                entry.stored(header, body)
            };
            let with = state.counted().pending.insert(id, put);
            if with.dom().len() > state.max_pending {
                oldest_is_there(with.dom());
                let out = oldest(with.dom());
                assert(out == gone);
            } else {
                assert(after.pending == with);
            }
        }
    }
}

/// The packets of one of two frames among the packets of both: `true` stands for the older one.
pub open spec fn part(feed: Seq<(bool, int)>, older: bool) -> Seq<int>
    decreases feed.len(),
{
    if feed.len() == 0 {
        seq![]
    } else if feed.last().0 == older {
        part(feed.drop_last(), older).push(feed.last().1)
    } else {
        part(feed.drop_last(), older)
    }
}

/// The state after packets of two frames came in the given order.
pub open spec fn fed_both(
    state: Assembly,
    older: Sent,
    newer_one: Sent,
    feed: Seq<(bool, int)>,
) -> Assembly
    decreases feed.len(),
{
    if feed.len() == 0 {
        state
    } else {
        fed_both(state, older, newer_one, feed.drop_last()).pushed(
            if feed.last().0 {
                older.header(feed.last().1)
            } else {
                newer_one.header(feed.last().1)
            },
            if feed.last().0 {
                chunk(older.encoded, feed.last().1)
            } else {
                chunk(newer_one.encoded, feed.last().1)
            },
        ).0
    }
}

/// What has come of a frame is these packets.
spec fn holds(state: Assembly, sent: Sent, order: Seq<int>) -> bool {
    &&& order.len() == 0 ==> !state.pending.contains_key(sent.frame_id)
    &&& order.len() > 0 ==> state.pending.contains_key(sent.frame_id)
        && state.pending[sent.frame_id] == sent.partly(order)
}

proof fn one_more(state: Assembly, sent: Sent, order: Seq<int>)
    requires
        state.pending.dom().finite(),
        order.len() > 0,
        packets_of(sent, order),
        sent.encoded.len() <= 65535 * MAX_VIDEO_PAYLOAD,
        holds(state, sent, order.drop_last()),
        order.len() == 1 ==> state.pending.dom().len() < state.max_pending,
        state.pending.dom().len() <= state.max_pending,
        state.newest is Some ==> newer(sent.frame_id, state.newest->0),
    ensures
        ({
            let (after, frame) = state.pushed(
                sent.header(order.last()),
                chunk(sent.encoded, order.last()),
            );
            &&& order.len() < sent.count() ==> frame is None && after == (Assembly {
                pending: state.pending.insert(sent.frame_id, sent.partly(order)),
                packets_received: state.packets_received + 1,
                ..state
            })
            &&& order.len() == sent.count() ==> frame == Some(sent.frame()) && after
                == state.counted().finished(sent.frame_id)
        }),
{
    let front = order.drop_last();
    let i = order.last();
    let header = sent.header(i);
    assert(0 <= order[order.len() - 1] < sent.count());
    assert(sent.count() <= 65535);
    assert forall|k: int| 0 <= k < front.len() implies 0 <= #[trigger] front[k] < sent.count() by {
        assert(front[k] == order[k]);
    }
    order_grows(order);
    partly_present(sent, order);
    assert(0u8 & 1 == 0 && 1u8 & 1 == 1 && 2u8 & 1 == 0 && 3u8 & 1 == 1) by (bit_vector);
    assert(header.flags.keyframe() == sent.keyframe);
    if order.len() == 1 {
        assert(sent.partly(front) =~= Pending::started(header));
    }
    assert(state.entry(header) == sent.partly(front));
    assert(header.fragment_idx == i);
    assert(state.in_time(header));
    assert(sent.partly(front).fragments[i] is None);
    present_bounds(sent.partly(order).fragments);
    assert(sent.partly(front).stored(header, chunk(sent.encoded, i)) =~= sent.partly(order));
    let with = state.counted().pending.insert(sent.frame_id, sent.partly(order));
    assert(with.dom() =~= state.pending.dom().insert(sent.frame_id));
    if order.len() > 1 {
        assert(with.dom() =~= state.pending.dom());
    }
    if order.len() == sent.count() {
        let whole = sent.partly(order);
        assert(Seq::new(whole.fragments.len(), |i: int| whole.fragments[i]->0) =~= chunks(
            sent.encoded,
        )) by {
            assert forall|i: int| 0 <= i < whole.fragments.len() implies whole.fragments[i]
                == Some(chunk(sent.encoded, i)) by {
                assert(whole.fragments[i] is Some);
            }
        }
        chunks_cover_frame(sent.encoded);
    }
}

/// Whether the packets of two frames, each at most once, may come like this: both frames are new,
/// there is room for both, and the older one is whole before the newer one is.
pub open spec fn may_come_mixed(
    state: Assembly,
    older: Sent,
    newer_one: Sent,
    feed: Seq<(bool, int)>,
) -> bool {
    &&& state.pending.dom().finite()
    &&& state.pending.dom().len() + 2 <= state.max_pending
    &&& !state.pending.contains_key(older.frame_id)
    &&& !state.pending.contains_key(newer_one.frame_id)
    &&& state.newest matches Some(last) ==> newer(older.frame_id, last) && newer(
        newer_one.frame_id,
        last,
    )
    &&& newer(newer_one.frame_id, older.frame_id)
    &&& older.encoded.len() <= 65535 * MAX_VIDEO_PAYLOAD
    &&& newer_one.encoded.len() <= 65535 * MAX_VIDEO_PAYLOAD
    &&& packets_of(older, part(feed, true))
    &&& packets_of(newer_one, part(feed, false))
    &&& feed.len() > 0 ==> part(feed.drop_last(), false).len() < newer_one.count()
    &&& part(feed, false).len() == newer_one.count() ==> part(feed, true).len() == older.count()
}

proof fn fewer_packets(sent: Sent, order: Seq<int>)
    requires
        packets_of(sent, order),
        order.len() > 0,
    ensures
        packets_of(sent, order.drop_last()),
{
    let front = order.drop_last();
    assert forall|k: int| 0 <= k < front.len() implies 0 <= #[trigger] front[k] < sent.count() by {
        assert(front[k] == order[k]);
    }
}

proof fn mixed_state(state: Assembly, older: Sent, newer_one: Sent, feed: Seq<(bool, int)>)
    requires
        may_come_mixed(state, older, newer_one, feed),
        part(feed, false).len() < newer_one.count(),
    ensures
        ({
            let now = fed_both(state, older, newer_one, feed);
            let a = part(feed, true);
            let b = part(feed, false);
            let seen = (if 0 < a.len() < older.count() {
                1int
            } else {
                0
            }) + (if b.len() > 0 {
                1int
            } else {
                0
            });
            &&& now.pending.dom().finite()
            &&& now.pending.dom().len() <= state.pending.dom().len() + seen
            &&& now.max_pending == state.max_pending
            &&& a.len() <= older.count()
            &&& a.len() < older.count() ==> holds(now, older, a) && now.newest == state.newest
            &&& a.len() == older.count() ==> now.newest == Some(older.frame_id)
            &&& holds(now, newer_one, b)
        }),
    decreases feed.len(),
{
    if feed.len() > 0 {
        let front = feed.drop_last();
        let mine = feed.last().0;
        let before = fed_both(state, older, newer_one, front);
        let a = part(feed, true);
        let b = part(feed, false);
        if mine {
            fewer_packets(older, a);
            assert(a.drop_last() =~= part(front, true));
        } else {
            fewer_packets(newer_one, b);
            assert(b.drop_last() =~= part(front, false));
        }
        mixed_state(state, older, newer_one, front);
        partly_present(older, a);
        present_bounds(older.partly(a).fragments);
        let now = fed_both(state, older, newer_one, feed);
        if mine {
            one_more(before, older, a);
            if a.len() < older.count() {
                assert(now.pending.dom() =~= before.pending.dom().insert(older.frame_id));
                if a.len() > 1 {
                    assert(now.pending.dom() =~= before.pending.dom());
                }
            } else {
                assert(now.pending.dom().subset_of(before.pending.dom()));
                vstd::set_lib::lemma_len_subset(now.pending.dom(), before.pending.dom());
                if a.len() > 1 {
                    assert(now.pending.dom().subset_of(
                        before.pending.dom().remove(older.frame_id),
                    ));
                    vstd::set_lib::lemma_len_subset(
                        now.pending.dom(),
                        before.pending.dom().remove(older.frame_id),
                    );
                }
            }
        } else {
            one_more(before, newer_one, b);
            assert(now.pending.dom() =~= before.pending.dom().insert(newer_one.frame_id));
            if b.len() > 1 {
                assert(now.pending.dom() =~= before.pending.dom());
            }
        }
    }
}

/// The packets of two frames may come mixed in any way. As long as the older frame is whole first,
/// each of the two comes out with its own data when its last packet comes, and nothing comes out
/// before.
pub proof fn mixed_frames_both_come_back(
    state: Assembly,
    older: Sent,
    newer_one: Sent,
    feed: Seq<(bool, int)>,
)
    requires
        may_come_mixed(state, older, newer_one, feed),
        feed.len() > 0,
    ensures
        ({
            let mine = feed.last().0;
            let sent = if mine {
                older
            } else {
                newer_one
            };
            let before = fed_both(state, older, newer_one, feed.drop_last());
            before.pushed(sent.header(feed.last().1), chunk(sent.encoded, feed.last().1)).1 == if part(
                feed,
                mine,
            ).len() == sent.count() {
                Some(sent.frame())
            } else {
                None
            }
        }),
{
    let front = feed.drop_last();
    let mine = feed.last().0;
    let a = part(feed, true);
    let b = part(feed, false);
    if mine {
        fewer_packets(older, a);
        assert(a.drop_last() =~= part(front, true));
    } else {
        fewer_packets(newer_one, b);
        assert(b.drop_last() =~= part(front, false));
    }
    mixed_state(state, older, newer_one, front);
    partly_present(older, a);
    present_bounds(older.partly(a).fragments);
    partly_present(newer_one, b);
    present_bounds(newer_one.partly(b).fragments);
    let before = fed_both(state, older, newer_one, front);
    if mine {
        one_more(before, older, a);
    } else {
        one_more(before, newer_one, b);
    }
}

/// A packet that cannot be read changes nothing and is answered with what is wrong; one that can is
/// counted once.
pub proof fn bad_packets_change_nothing(
    assembler: &mut FrameAssembler,
    packet: &[u8],
    r: Result<Option<AssembledFrame>, ProtocolError>,
)
    requires
        old(assembler).wf(),
        old(assembler).can_count(),
        call_ensures(FrameAssembler::push, (assembler, packet), r),
    ensures
        r is Ok <==> VideoHeader::read(packet@) is Ok,
        r is Err ==> final(assembler)@ == old(assembler)@,
        r matches Err(e) ==> VideoHeader::read(packet@) == Err::<VideoHeader, ProtocolError>(e),
        r is Ok ==> final(assembler)@.packets_received == old(assembler)@.packets_received + 1,
{
    match VideoHeader::read(packet@) {
        Ok(header) => {
            counters_tell_what_happened(old(assembler)@, header, packet@.skip(20));
        },
        Err(_) => {},
    }
}

/// A frame that fits one packet comes out of the assembler as it went into the cutting, whatever is
/// still waiting, as far as it is newer than what came out and does not push another one out.
pub proof fn small_frames_come_back_at_once(
    encoded: &[u8],
    frame_id: u32,
    monitor: u8,
    codec: Codec,
    keyframe: bool,
    capture_us: u64,
    packets: Vec<bytes::Bytes>,
    assembler: &mut FrameAssembler,
    packet: &[u8],
    r: Result<Option<AssembledFrame>, ProtocolError>,
)
    requires
        encoded@.len() <= 1180,
        call_ensures(
            crate::protocol::video::fragment_frame,
            (encoded, frame_id, monitor, codec, keyframe, capture_us),
            packets,
        ),
        packets@.len() > 0,
        packet@ == crate::protocol::video::bytes_of(packets@[0]),
        old(assembler).wf(),
        old(assembler).can_count(),
        has_room(
            old(assembler)@,
            Sent { encoded: encoded@, frame_id, monitor, codec, keyframe, capture_us },
        ),
        call_ensures(FrameAssembler::push, (assembler, packet), r),
    ensures
        packets@.len() == 1,
        r matches Ok(Some(frame)) && frame.data@ == encoded@ && frame.frame_id == frame_id
            && frame.monitor == monitor && frame.codec == codec && frame.keyframe == keyframe
            && frame.capture_us == capture_us,
{
    let sent = Sent { encoded: encoded@, frame_id, monitor, codec, keyframe, capture_us };
    assert(sent.count() == 1);
    let order = seq![0int];
    assert(order.no_duplicates());
    assert(order.drop_last() =~= Seq::<int>::empty());
    frame_comes_back(old(assembler)@, sent, order);
    crate::protocol::video::header_roundtrip(sent.header(0), chunk(sent.encoded, 0));
    assert(packet@ == sent.header(0).bytes() + chunk(encoded@, 0));
}

/// An assembler begins with nothing counted and nothing waiting, and has room for as many frames as
/// it was told, for one at least.
pub proof fn assemblers_begin_empty(max_pending: usize, fresh: FrameAssembler, stats: AssemblerStats)
    requires
        call_ensures(FrameAssembler::new, (max_pending,), fresh),
        call_ensures(FrameAssembler::stats, (&fresh,), stats),
    ensures
        stats.frames_completed == 0 && stats.frames_dropped == 0 && stats.packets_received == 0
            && stats.packets_lost == 0,
        fresh@.newest is None,
        forall|id: u32| !#[trigger] fresh@.pending.contains_key(id),
        max_pending > 0 ==> fresh@.max_pending == max_pending,
        max_pending == 0 ==> fresh@.max_pending == 1,
{
}

} // verus!
