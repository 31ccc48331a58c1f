//! Two ways to pack NAL units.
//!
//! A hardware encoder puts four bytes of length before each unit and keeps the parameter sets
//! (VPS, SPS, PPS) outside the stream. Over the network goes Annex B instead: every unit begins
//! with `00 00 00 01`, and the parameter sets stand before each keyframe, so that a viewer that
//! joins late sees a picture from the next keyframe on.

use vstd::prelude::*;
use vstd::slice::slice_subrange;
use vstd::string::StringExecFns;

use crate::text::push_decimal;

verus! {

pub const START_CODE: [u8; 4] = [0, 0, 0, 1];

/// Bytes of the length before a unit.
pub const NAL_LENGTH_SIZE: usize = 4;

#[derive(Debug, Clone, Copy, PartialEq, Eq, Structural)]
pub enum BitstreamError {
    /// The data ends within a length.
    Truncated,
    /// A unit is longer than what is left: its length, and how much is left.
    LengthOverflow(usize, usize),
}

impl BitstreamError {
    pub open spec fn text(self) -> Seq<char> {
        match self {
            BitstreamError::Truncated => "NAL unit bị cắt cụt"@,
            BitstreamError::LengthOverflow(len, left) => "độ dài NAL unit ("@
                + crate::text::decimal(len as nat) + ") vượt quá dữ liệu còn lại ("@
                + crate::text::decimal(left as nat) + ")"@,
        }
    }

    /// The error in words.
    pub fn message(&self) -> (s: String)
        ensures
            s@ == self.text(),
    {
        let mut s: String = String::new();
        match self {
            BitstreamError::Truncated => {
                s.append("NAL unit bị cắt cụt");
            },
            BitstreamError::LengthOverflow(len, left) => {
                s.append("độ dài NAL unit (");
                push_decimal(&mut s, *len as u64);
                s.append(") vượt quá dữ liệu còn lại (");
                push_decimal(&mut s, *left as u64);
                s.append(")");
            },
        }
        assert(s@ =~= self.text());
        s
    }
}

pub open spec fn start_code() -> Seq<u8> {
    seq![0u8, 0, 0, 1]
}

/// Units in Annex B form.
pub open spec fn annexb(units: Seq<Seq<u8>>) -> Seq<u8>
    decreases units.len(),
{
    if units.len() == 0 {
        Seq::empty()
    } else {
        start_code() + units[0] + annexb(units.drop_first())
    }
}

/// The four bytes of a number, the highest first.
#[verifier::opaque]
pub open spec fn be_bytes(v: nat) -> Seq<u8> {
    seq![
        (v / 0x100_0000 % 256) as u8,
        (v / 0x1_0000 % 256) as u8,
        (v / 0x100 % 256) as u8,
        (v % 256) as u8,
    ]
}

/// The number that four bytes spell, the highest first.
pub open spec fn be_value(s: Seq<u8>) -> nat {
    (s[0] * 0x100_0000 + s[1] * 0x1_0000 + s[2] * 0x100 + s[3]) as nat
}

/// Units with their lengths before them.
pub open spec fn prefixed(units: Seq<Seq<u8>>) -> Seq<u8>
    decreases units.len(),
{
    if units.len() == 0 {
        Seq::empty()
    } else {
        be_bytes(units[0].len() % 0x1_0000_0000) + units[0] + prefixed(units.drop_first())
    }
}

/// The units of length-prefixed data, up to the first mistake, and that mistake.
pub open spec fn split(src: Seq<u8>) -> (Seq<Seq<u8>>, Option<BitstreamError>)
    decreases src.len(),
{
    if src.len() == 0 {
        (Seq::empty(), None)
    } else if src.len() < NAL_LENGTH_SIZE {
        (Seq::empty(), Some(BitstreamError::Truncated))
    } else {
        let len = be_value(src);
        let left = src.len() - NAL_LENGTH_SIZE;
        if len > left {
            (
                Seq::empty(),
                Some(BitstreamError::LengthOverflow(len as usize, left as usize)),
            )
        } else {
            let (units, mistake) = split(src.skip(NAL_LENGTH_SIZE + len));
            (seq![src.subrange(4, 4 + len as int)] + units, mistake)
        }
    }
}

proof fn annexb_push(units: Seq<Seq<u8>>, unit: Seq<u8>)
    ensures
        annexb(units.push(unit)) == annexb(units) + start_code() + unit,
    decreases units.len(),
{
    reveal_with_fuel(annexb, 2);
    if units.len() > 0 {
        assert(units.push(unit).drop_first() =~= units.drop_first().push(unit));
        annexb_push(units.drop_first(), unit);
    } else {
        assert(units.push(unit).drop_first() =~= Seq::empty());
    }
    assert(annexb(units.push(unit)) =~= annexb(units) + start_code() + unit);
}

proof fn prefixed_push(units: Seq<Seq<u8>>, unit: Seq<u8>)
    ensures
        prefixed(units.push(unit)) == prefixed(units) + be_bytes(unit.len() % 0x1_0000_0000) + unit,
    decreases units.len(),
{
    reveal_with_fuel(prefixed, 2);
    if units.len() > 0 {
        assert(units.push(unit).drop_first() =~= units.drop_first().push(unit));
        prefixed_push(units.drop_first(), unit);
    } else {
        assert(units.push(unit).drop_first() =~= Seq::empty());
    }
    assert(prefixed(units.push(unit)) =~= prefixed(units) + be_bytes(unit.len() % 0x1_0000_0000)
        + unit);
}

/// Appends one unit behind a start code.
pub fn push_nalu(out: &mut Vec<u8>, nalu: &[u8])
    ensures
        final(out)@ == old(out)@ + start_code() + nalu@,
{
    out.push(0);
    out.push(0);
    out.push(0);
    out.push(1);
    out.extend_from_slice(nalu);
    assert(out@ =~= old(out)@ + start_code() + nalu@);
}

/// Appends length-prefixed data in Annex B form. The units before a mistake stay in `out`.
pub fn length_prefixed_to_annexb(src: &[u8], out: &mut Vec<u8>) -> (r: Result<(), BitstreamError>)
    ensures
        final(out)@ == old(out)@ + annexb(split(src@).0),
        match r {
            Ok(()) => split(src@).1 is None,
            Err(e) => split(src@).1 == Some(e),
        },
{
    let mut offset: usize = 0;
    let ghost mut done: Seq<Seq<u8>> = Seq::empty();
    assert(src@.skip(0) =~= src@);
    assert(done + split(src@).0 =~= split(src@).0);
    assert(out@ =~= old(out)@ + annexb(done));
    while offset < src.len()
        invariant
            offset <= src@.len(),
            out@ == old(out)@ + annexb(done),
            split(src@).0 == done + split(src@.skip(offset as int)).0,
            split(src@).1 == split(src@.skip(offset as int)).1,
        decreases src@.len() - offset,
    {
        let ghost rest = src@.skip(offset as int);
        if src.len() - offset < NAL_LENGTH_SIZE {
            assert(done + Seq::<Seq<u8>>::empty() =~= done);
            return Err(BitstreamError::Truncated);
        }
        let len: usize = (src[offset] as u32 * 0x100_0000 + src[offset + 1] as u32 * 0x1_0000
            + src[offset + 2] as u32 * 0x100 + src[offset + 3] as u32) as usize;
        assert(len == be_value(rest));
        offset = offset + NAL_LENGTH_SIZE;
        let remaining: usize = src.len() - offset;
        if len > remaining {
            assert(done + Seq::<Seq<u8>>::empty() =~= done);
            return Err(BitstreamError::LengthOverflow(len, remaining));
        }
        let nalu: &[u8] = slice_subrange(src, offset, offset + len);
        push_nalu(out, nalu);
        proof {
            let unit = rest.subrange(4, 4 + len);
            let tail = split(rest.skip(4 + len as int));
            assert(nalu@ =~= unit);
            annexb_push(done, unit);
            assert(rest.skip(4 + len as int) =~= src@.skip(offset + len));
            assert(done + (seq![unit] + tail.0) =~= done.push(unit) + tail.0);
            assert(out@ =~= old(out)@ + annexb(done.push(unit)));
            done = done.push(unit);
        }
        offset = offset + len;
    }
    assert(done + Seq::<Seq<u8>>::empty() =~= done);
    Ok(())
}

/// The bytes of each slice.
pub open spec fn views(nalus: Seq<&[u8]>) -> Seq<Seq<u8>> {
    Seq::new(nalus.len(), |i: int| nalus[i]@)
}

/// Appends units with their lengths before them, as a decoder on the other side wants them. A
/// length is kept modulo 2^32.
pub fn annexb_to_length_prefixed(nalus: &[&[u8]], out: &mut Vec<u8>)
    ensures
        final(out)@ == old(out)@ + prefixed(views(nalus@)),
{
    let mut i: usize = 0;
    let ghost units = views(nalus@);
    assert(units.take(0) =~= Seq::empty());
    assert(out@ =~= old(out)@ + prefixed(units.take(0)));
    while i < nalus.len()
        invariant
            i <= nalus@.len(),
            units == views(nalus@),
            out@ == old(out)@ + prefixed(units.take(i as int)),
        decreases nalus@.len() - i,
    {
        let nalu: &[u8] = nalus[i];
        let len: u64 = nalu.len() as u64 % 0x1_0000_0000;
        let ghost before = out@;
        out.push((len / 0x100_0000 % 256) as u8);
        out.push((len / 0x1_0000 % 256) as u8);
        out.push((len / 0x100 % 256) as u8);
        out.push((len % 256) as u8);
        out.extend_from_slice(nalu);
        proof {
            reveal(be_bytes);
            prefixed_push(units.take(i as int), nalu@);
            assert(units.take(i as int + 1) =~= units.take(i as int).push(nalu@));
            assert(out@ =~= before + be_bytes(len as nat) + nalu@);
        }
        i += 1;
    }
    assert(units.take(i as int) =~= units);
}

/// Length of the start code at `i`; 0 where none stands there.
pub open spec fn code_at(data: Seq<u8>, i: int) -> int {
    if i + 3 <= data.len() && data[i] == 0 && data[i + 1] == 0 && data[i + 2] == 1 {
        3
    } else if i + 4 <= data.len() && data[i] == 0 && data[i + 1] == 0 && data[i + 2] == 0
        && data[i + 3] == 1 {
        4
    } else {
        0
    }
}

/// Where the first start code from `from` on stands, and its length.
pub open spec fn next_code(data: Seq<u8>, from: int) -> Option<(int, int)>
    decreases data.len() - from,
{
    if from >= data.len() {
        None
    } else if code_at(data, from) != 0 {
        Some((from, code_at(data, from)))
    } else {
        next_code(data, from + 1)
    }
}

/// Where the unit that begins at `body` ends.
pub open spec fn unit_end(data: Seq<u8>, body: int) -> int {
    match next_code(data, body) {
        Some((at, _)) => at,
        None => data.len() as int,
    }
}

proof fn next_code_lies_ahead(data: Seq<u8>, from: int)
    ensures
        next_code(data, from) matches Some((at, size)) ==> from <= at && size == code_at(data, at)
            && 3 <= size <= 4 && at + size <= data.len(),
        from <= data.len() ==> from <= unit_end(data, from) <= data.len(),
    decreases data.len() - from,
{
    if from < data.len() && code_at(data, from) == 0 {
        next_code_lies_ahead(data, from + 1);
    }
}

/// The units from `pos` on, without their start codes. Nothing between two start codes is no
/// unit.
pub open spec fn units(data: Seq<u8>, pos: int) -> Seq<Seq<u8>>
    decreases data.len() - pos,
    via units_decreases
{
    match next_code(data, pos) {
        None => Seq::empty(),
        Some((at, size)) => {
            let body = at + size;
            let end = unit_end(data, body);
            if body < end {
                seq![data.subrange(body, end)] + units(data, end)
            } else {
                units(data, end)
            }
        },
    }
}

#[via_fn]
proof fn units_decreases(data: Seq<u8>, pos: int) {
    next_code_lies_ahead(data, pos);
    if let Some((at, size)) = next_code(data, pos) {
        next_code_lies_ahead(data, at + size);
    }
}

/// Finds the next start code from `from` on: where it stands and how long it is.
fn find_start_code(data: &[u8], from: usize) -> (r: Option<(usize, usize)>)
    ensures
        match r {
            Some((at, size)) => next_code(data@, from as int) == Some((at as int, size as int))
                && at + size <= data.len(),
            None => next_code(data@, from as int) is None,
        },
{
    let mut i: usize = from;
    while i < data.len() && data.len() - i >= 3
        invariant
            from <= i,
            next_code(data@, from as int) == next_code(data@, i as int),
        decreases data@.len() - i,
    {
        if data[i] == 0 && data[i + 1] == 0 {
            if data[i + 2] == 1 {
                return Some((i, 3));
            }
            if data.len() - i >= 4 && data[i + 2] == 0 && data[i + 3] == 1 {
                return Some((i, 4));
            }
        }
        i += 1;
    }
    proof {
        reveal_with_fuel(next_code, 3);
    }
    None
}

/// Walks over the units of an Annex B stream. Start codes of three and of four bytes count, for
/// some encoders use the short one inside an access unit.
pub fn iter_nalus(data: &[u8]) -> (r: NaluIter<'_>)
    ensures
        r.wf(),
        r.rest() == units(data@, 0),
{
    NaluIter { data, pos: 0 }
}

pub struct NaluIter<'a> {
    data: &'a [u8],
    pos: usize,
}

impl<'a> NaluIter<'a> {
    pub closed spec fn wf(&self) -> bool {
        self.pos <= self.data@.len()
    }

    /// The units still to come.
    pub closed spec fn rest(&self) -> Seq<Seq<u8>> {
        units(self.data@, self.pos as int)
    }

    /// The next unit.
    pub fn next(&mut self) -> (r: Option<&'a [u8]>)
        requires
            old(self).wf(),
        ensures
            final(self).wf(),
            match r {
                Some(nalu) => old(self).rest().len() > 0 && nalu@ == old(self).rest()[0]
                    && final(self).rest() == old(self).rest().drop_first(),
                None => old(self).rest().len() == 0 && final(self).rest().len() == 0,
            },
    {
        loop
            invariant
                self.wf(),
                self.data == old(self).data,
                self.rest() == old(self).rest(),
            decreases self.data@.len() - self.pos,
        {
            proof {
                next_code_lies_ahead(self.data@, self.pos as int);
            }
            let (start, size) = match find_start_code(self.data, self.pos) {
                Some(found) => found,
                None => return None,
            };
            let body: usize = start + size;
            proof {
                next_code_lies_ahead(self.data@, body as int);
            }
            let end: usize = match find_start_code(self.data, body) {
                Some((at, _)) => at,
                None => self.data.len(),
            };
            assert(end == unit_end(self.data@, body as int));
            self.pos = end;
            if body < end {
                let nalu: &'a [u8] = slice_subrange(self.data, body, end);
                assert(old(self).rest().drop_first() =~= self.rest());
                return Some(nalu);
            }
        }
    }

    /// All the units still to come.
    pub fn collect(self) -> (v: Vec<&'a [u8]>)
        requires
            self.wf(),
        ensures
            views(v@) == self.rest(),
    {
        let mut iter: NaluIter<'a> = self;
        let mut v: Vec<&'a [u8]> = Vec::new();
        assert(views(v@) + iter.rest() =~= iter.rest());
        loop
            invariant
                iter.wf(),
                views(v@) + iter.rest() == self.rest(),
            ensures
                views(v@) == self.rest(),
            decreases iter.rest().len(),
        {
            let ghost before = iter.rest();
            match iter.next() {
                Some(nalu) => {
                    let ghost had = views(v@);
                    v.push(nalu);
                    assert(views(v@) =~= had.push(nalu@));
                    assert(had + before =~= had.push(nalu@) + before.drop_first());
                },
                None => {
                    assert(views(v@) + before =~= views(v@));
                    break;
                },
            }
        }
        v
    }
}

/// Whether no start code hides inside a unit.
pub open spec fn clean(unit: Seq<u8>) -> bool {
    forall|i: int|
        0 <= i && i + 3 <= unit.len() ==> !(#[trigger] unit[i] == 0 && unit[i + 1] == 0 && unit[i
            + 2] == 1)
}

proof fn next_code_after_gap(data: Seq<u8>, from: int, to: int)
    requires
        from <= to <= data.len(),
        forall|i: int| from <= i < to ==> #[trigger] code_at(data, i) == 0,
    ensures
        next_code(data, from) == next_code(data, to),
    decreases to - from,
{
    if from < to {
        assert(code_at(data, from) == 0);
        next_code_after_gap(data, from + 1, to);
    }
}

#[verifier::spinoff_prover]
#[verifier::rlimit(50)]
proof fn units_of_annexb(data: Seq<u8>, pos: int, list: Seq<Seq<u8>>)
    requires
        0 <= pos <= data.len(),
        data.skip(pos) == annexb(list),
        forall|k: int| 0 <= k < list.len() ==> (#[trigger] list[k]).len() > 0 && clean(list[k]),
    ensures
        units(data, pos) == list,
        list.len() > 0 ==> next_code(data, pos) == Some((pos, 4int)),
        list.len() == 0 ==> next_code(data, pos) is None,
    decreases list.len(),
{
    let all = data.skip(pos);
    if list.len() == 0 {
        assert(annexb(list).len() == 0);
        assert(all.len() == data.len() - pos);
        assert(units(data, pos) =~= list);
    } else {
        let unit = list[0];
        let rest = list.drop_first();
        let body = pos + 4;
        let end = body + unit.len();
        assert(all.len() == 4 + unit.len() + annexb(rest).len());
        assert forall|i: int| 0 <= i < 4 implies data[pos + i] == start_code()[i] by {
            assert(data[pos + i] == all[i]);
        }
        assert forall|i: int| 0 <= i < unit.len() implies data[body + i] == unit[i] by {
            assert(data[body + i] == all[4 + i]);
        }
        assert(data.skip(end) =~= annexb(rest)) by {
            assert(data.skip(end) =~= all.skip(4 + unit.len() as int));
            assert(all.skip(4 + unit.len() as int) =~= annexb(rest));
        }
        assert forall|k: int| 0 <= k < rest.len() implies (#[trigger] rest[k]).len() > 0 && clean(
            rest[k],
        ) by {
            assert(rest[k] == list[k + 1]);
        }
        units_of_annexb(data, end, rest);
        assert(code_at(data, pos) == 4);
        assert forall|i: int| body <= i < end implies #[trigger] code_at(data, i) == 0 by {
            if rest.len() > 0 {
                let tail = data.skip(end);
                assert(data[end] == tail[0] && data[end + 1] == tail[1] && data[end + 2] == tail[2]);
                assert(tail[0] == 0 && tail[1] == 0 && tail[2] == 0);
            } else {
                assert(data.len() == end);
            }
            assert(i + 3 <= end ==> data[i] == unit[i - body] && data[i + 1] == unit[i - body + 1]
                && data[i + 2] == unit[i - body + 2]);
            if i + 4 <= end {
                assert(data[i + 1] == unit[i + 1 - body] && data[i + 2] == unit[i + 1 - body + 1]
                    && data[i + 3] == unit[i + 1 - body + 2]);
            }
        }
        next_code_after_gap(data, body, end);
        assert(unit_end(data, body) == end);
        assert(data.subrange(body, end) =~= unit);
        assert(units(data, pos) =~= seq![unit] + units(data, end));
        assert(list =~= seq![unit] + rest);
    }
}

/// Walking over an Annex B stream gives back the units it was made of, where none of them is empty
/// or hides a start code.
pub proof fn annexb_roundtrip(list: Seq<Seq<u8>>)
    requires
        forall|k: int| 0 <= k < list.len() ==> (#[trigger] list[k]).len() > 0 && clean(list[k]),
    ensures
        units(annexb(list), 0) == list,
{
    assert(annexb(list).skip(0) =~= annexb(list));
    units_of_annexb(annexb(list), 0, list);
}

proof fn be_roundtrip(v: nat)
    requires
        v < 0x1_0000_0000,
    ensures
        be_value(be_bytes(v)) == v,
{
    reveal(be_bytes);
    let a = v / 0x100;
    let b = v / 0x1_0000;
    let c = v / 0x100_0000;
    assert(b == a / 0x100);
    assert(c == b / 0x100);
    assert(c < 256);
}

/// Length-prefixed data splits into the units it was made of.
#[verifier::spinoff_prover]
#[verifier::rlimit(50)]
pub proof fn length_prefix_roundtrip(list: Seq<Seq<u8>>)
    requires
        forall|k: int| 0 <= k < list.len() ==> (#[trigger] list[k]).len() < 0x1_0000_0000,
    ensures
        split(prefixed(list)) == (list, None::<BitstreamError>),
    decreases list.len(),
{
    if list.len() == 0 {
        assert(split(prefixed(list)).0 =~= list);
    } else {
        let unit = list[0];
        let rest = list.drop_first();
        let src = prefixed(list);
        assert forall|k: int| 0 <= k < rest.len() implies (#[trigger] rest[k]).len()
            < 0x1_0000_0000 by {
            assert(rest[k] == list[k + 1]);
        }
        length_prefix_roundtrip(rest);
        let n = unit.len();
        vstd::arithmetic::div_mod::lemma_small_mod(n, 0x1_0000_0000);
        let head = be_bytes(n);
        assert(head.len() == 4) by {
            reveal(be_bytes);
        }
        assert(src == head + unit + prefixed(rest));
        assert(src[0] == head[0] && src[1] == head[1] && src[2] == head[2] && src[3] == head[3]);
        be_roundtrip(n);
        assert(be_value(src) == n);
        assert(src.subrange(4, 4 + n as int) =~= unit);
        assert(src.skip(4 + n as int) =~= prefixed(rest));
        assert(list =~= seq![unit] + rest);
    }
}

/// From the encoder's packing to the network's and apart again: the same units.
pub proof fn stream_roundtrip(list: Seq<Seq<u8>>)
    requires
        forall|k: int|
            0 <= k < list.len() ==> 0 < (#[trigger] list[k]).len() < 0x1_0000_0000 && clean(
                list[k],
            ),
    ensures
        units(annexb(split(prefixed(list)).0), 0) == list,
{
    length_prefix_roundtrip(list);
    annexb_roundtrip(list);
}

/// What a NAL unit is, as far as parameter sets and keyframes must be told apart.
#[derive(Debug, Clone, Copy, PartialEq, Eq, Structural)]
pub enum NaluClass {
    /// VPS, SPS or PPS: how to decode; needed before the first frame.
    ParameterSet,
    /// A frame that needs no other.
    Keyframe,
    /// A frame that builds on the ones before it.
    Delta,
    Other,
}

/// H.264: the low five bits of the first byte.
pub open spec fn class_h264(nalu: Seq<u8>) -> NaluClass {
    if nalu.len() == 0 {
        NaluClass::Other
    } else {
        let kind = nalu[0] % 32;
        if kind == 7 || kind == 8 {
            NaluClass::ParameterSet
        } else if kind == 5 {
            NaluClass::Keyframe
        } else if kind == 1 {
            NaluClass::Delta
        } else {
            NaluClass::Other
        }
    }
}

/// HEVC: six bits of the first byte, behind the forbidden one.
pub open spec fn class_hevc(nalu: Seq<u8>) -> NaluClass {
    if nalu.len() == 0 {
        NaluClass::Other
    } else {
        let kind = nalu[0] / 2 % 64;
        if 32 <= kind <= 34 {
            NaluClass::ParameterSet
        } else if 16 <= kind <= 23 {
            NaluClass::Keyframe
        } else if kind <= 9 {
            NaluClass::Delta
        } else {
            NaluClass::Other
        }
    }
}

pub fn classify_h264(nalu: &[u8]) -> (r: NaluClass)
    ensures
        r == class_h264(nalu@),
{
    if nalu.len() == 0 {
        return NaluClass::Other;
    }
    match nalu[0] % 32 {
        7 | 8 => NaluClass::ParameterSet,
        5 => NaluClass::Keyframe,
        1 => NaluClass::Delta,
        _ => NaluClass::Other,
    }
}

pub fn classify_hevc(nalu: &[u8]) -> (r: NaluClass)
    ensures
        r == class_hevc(nalu@),
{
    if nalu.len() == 0 {
        return NaluClass::Other;
    }
    let kind: u8 = nalu[0] / 2 % 64;
    if 32 <= kind && kind <= 34 {
        NaluClass::ParameterSet
    } else if 16 <= kind && kind <= 23 {
        NaluClass::Keyframe
    } else if kind <= 9 {
        NaluClass::Delta
    } else {
        NaluClass::Other
    }
}

/// The unit types of HEVC: 32 is a VPS, 33 an SPS and 34 a PPS, and these three alone are parameter
/// sets. 16 to 23 are keyframes, 0 to 9 are the other frames, and nothing else is either. The type
/// is in the six bits behind the first one.
pub proof fn hevc_types(nalu: Seq<u8>)
    ensures
        nalu.len() == 0 ==> class_hevc(nalu) is Other,
        nalu.len() > 0 ==> ({
            let kind = (nalu[0] >> 1u8) & 0x3f;
            &&& class_hevc(nalu) is ParameterSet <==> kind == 32 || kind == 33 || kind == 34
            &&& class_hevc(nalu) is Keyframe <==> kind == 16 || kind == 17 || kind == 18 || kind
                == 19 || kind == 20 || kind == 21 || kind == 22 || kind == 23
            &&& class_hevc(nalu) is Delta <==> kind == 0 || kind == 1 || kind == 2 || kind == 3
                || kind == 4 || kind == 5 || kind == 6 || kind == 7 || kind == 8 || kind == 9
        }),
{
    if nalu.len() > 0 {
        let first = nalu[0];
        assert((first >> 1u8) & 0x3f == first / 2 % 64) by (bit_vector);
    }
}

/// The unit types of H.264: 7 is an SPS and 8 a PPS, and these two alone are parameter sets. 5 is a
/// keyframe, 1 is another frame, and nothing else is either. The type is in the low five bits.
pub proof fn h264_types(nalu: Seq<u8>)
    ensures
        nalu.len() == 0 ==> class_h264(nalu) is Other,
        nalu.len() > 0 ==> ({
            let kind = nalu[0] & 0x1f;
            &&& class_h264(nalu) is ParameterSet <==> kind == 7 || kind == 8
            &&& class_h264(nalu) is Keyframe <==> kind == 5
            &&& class_h264(nalu) is Delta <==> kind == 1
        }),
{
    if nalu.len() > 0 {
        let first = nalu[0];
        assert(first & 0x1f == first % 32) by (bit_vector);
    }
}

/// Only the first byte tells what a unit is.
pub proof fn the_first_byte_tells(one: Seq<u8>, other: Seq<u8>)
    requires
        one.len() > 0,
        other.len() > 0,
        one[0] == other[0],
    ensures
        class_hevc(one) == class_hevc(other),
        class_h264(one) == class_h264(other),
{
}

/// Whether the bytes 0, 0, 1 stand at `i`.
pub open spec fn mark_at(data: Seq<u8>, i: int) -> bool {
    0 <= i && i + 3 <= data.len() && data[i] == 0 && data[i + 1] == 0 && data[i + 2] == 1
}

/// Whether the bytes from `from` up to `to` are a unit of a stream: something stands there, a start
/// code right before it, none begins in it, and it ends at the next one or with the stream. A zero
/// before 0, 0, 1 belongs to the start code.
pub open spec fn stands_between_codes(data: Seq<u8>, from: int, to: int) -> bool {
    &&& 0 <= from < to <= data.len()
    &&& mark_at(data, from - 3)
    &&& forall|i: int| from <= i && i + 3 <= to ==> !#[trigger] mark_at(data, i)
    &&& to == data.len() || (mark_at(data, to) && data[to - 1] != 0) || (mark_at(data, to + 1)
        && data[to] == 0)
}

proof fn no_code_before_the_next(data: Seq<u8>, from: int, i: int)
    requires
        0 <= from <= i,
        i < unit_end(data, from),
    ensures
        code_at(data, i) == 0,
    decreases data.len() - from,
{
    if from < data.len() && code_at(data, from) == 0 && i > from {
        no_code_before_the_next(data, from + 1, i);
    } else if from >= data.len() {
        assert(next_code(data, from) is None);
    }
}

/// Each unit that comes out of a stream stands between two start codes.
pub proof fn units_stand_between_codes(data: Seq<u8>, pos: int, k: int) -> (at: (int, int))
    requires
        0 <= pos <= data.len(),
        0 <= k < units(data, pos).len(),
    ensures
        pos < at.0,
        stands_between_codes(data, at.0, at.1),
        units(data, pos)[k] == data.subrange(at.0, at.1),
    decreases data.len() - pos,
{
    next_code_lies_ahead(data, pos);
    let (start, size) = next_code(data, pos)->0;
    let body = start + size;
    next_code_lies_ahead(data, body);
    let end = unit_end(data, body);
    if body < end && k == 0 {
        assert forall|i: int| body <= i && i + 3 <= end implies !#[trigger] mark_at(data, i) by {
            no_code_before_the_next(data, body, i);
        }
        no_code_before_the_next(data, body, end - 1);
        (body, end)
    } else {
        units_stand_between_codes(
            data,
            end,
            if body < end {
                k - 1
            } else {
                k
            },
        )
    }
}

proof fn every_unit_comes_out_from(data: Seq<u8>, pos: int, from: int, to: int)
    requires
        0 <= pos <= from - 3,
        stands_between_codes(data, from, to),
    ensures
        units(data, pos).contains(data.subrange(from, to)),
    decreases data.len() - pos,
{
    next_code_lies_ahead(data, pos);
    let mark = from - 3;
    assert(code_at(data, mark) == 3);
    if next_code(data, pos) is None {
        assert(unit_end(data, pos) == data.len());
        no_code_before_the_next(data, pos, mark);
    }
    let (start, size) = next_code(data, pos)->0;
    if start > mark {
        no_code_before_the_next(data, pos, mark);
    }
    let body = start + size;
    next_code_lies_ahead(data, body);
    let end = unit_end(data, body);
    let all = units(data, pos);
    if body == from {
        if end < to {
            let (at, _) = next_code(data, body)->0;
            assert(code_at(data, end) != 0);
            assert(mark_at(data, end) || mark_at(data, end + 1));
            assert(!(mark_at(data, end) && end + 3 <= to));
            assert(!(mark_at(data, end + 1) && end + 4 <= to));
            codes_do_not_overlap(data, end, to);
        }
        if end > to {
            assert(to < data.len());
            no_code_before_the_next(data, body, to);
        }
        assert(end == to);
        assert(all[0] == data.subrange(from, to));
    } else {
        if start == mark {
            assert(size == 3);
        }
        assert(start < mark);
        if size == 4 && start == mark - 1 {
            assert(body == from);
        }
        if end > mark {
            if body <= mark {
                no_code_before_the_next(data, body, mark);
            } else {
                codes_do_not_overlap(data, start, mark);
            }
        }
        every_unit_comes_out_from(data, end, from, to);
        let rest = units(data, end);
        let k = choose|k: int| 0 <= k < rest.len() && rest[k] == data.subrange(from, to);
        assert(all[if body < end { k + 1 } else { k }] == data.subrange(from, to));
    }
}

/// A start code that begins before a place, and one that begins there or one byte on, do not share
/// bytes, but for the zero that makes a short one long.
proof fn codes_do_not_overlap(data: Seq<u8>, i: int, j: int)
    requires
        0 <= i < j,
        code_at(data, i) != 0,
        j == data.len() || mark_at(data, j) || (mark_at(data, j + 1) && data[j] == 0),
    ensures
        j >= i + code_at(data, i) || (code_at(data, i) == 4 && j == i + 1 && mark_at(data, j)),
{
}

/// Every unit of a stream comes out: whatever stands between two start codes.
pub proof fn every_unit_comes_out(data: Seq<u8>, from: int, to: int)
    requires
        stands_between_codes(data, from, to),
    ensures
        units(data, 0).contains(data.subrange(from, to)),
{
    every_unit_comes_out_from(data, 0, from, to);
}

/// The length before a unit has its highest byte first.
pub proof fn lengths_have_the_highest_byte_first(v: nat)
    requires
        v < 0x1_0000_0000,
    ensures
        be_bytes(v).len() == 4,
        v == be_bytes(v)[0] * 0x100_0000 + be_bytes(v)[1] * 0x1_0000 + be_bytes(v)[2] * 0x100
            + be_bytes(v)[3],
{
    be_roundtrip(v);
    reveal(be_bytes);
}

/// A mistake in length-prefixed data loses only what comes from there on. One to three bytes at
/// the end are a length cut short; a length of more than what is left is told with both numbers.
pub proof fn mistakes_keep_what_came_before(list: Seq<Seq<u8>>, tail: Seq<u8>)
    requires
        forall|k: int| 0 <= k < list.len() ==> (#[trigger] list[k]).len() < 0x1_0000_0000,
        tail.len() <= usize::MAX,
    ensures
        ({
            let (units, mistake) = split(prefixed(list) + tail);
            let said = tail[0] * 0x100_0000 + tail[1] * 0x1_0000 + tail[2] * 0x100 + tail[3];
            &&& 0 < tail.len() < 4 ==> units == list && mistake == Some(BitstreamError::Truncated)
            &&& tail.len() >= 4 && said > tail.len() - 4 ==> units == list && mistake == Some(
                BitstreamError::LengthOverflow(said as usize, (tail.len() - 4) as usize),
            )
        }),
    decreases list.len(),
{
    if list.len() == 0 {
        assert(prefixed(list) + tail =~= tail);
        assert(split(tail).1 is Some && (tail.len() < 4 || be_value(tail) > tail.len() - 4)
            ==> split(tail).0 =~= list);
    } else {
        let unit = list[0];
        let rest = list.drop_first();
        let src = prefixed(list) + tail;
        assert forall|k: int| 0 <= k < rest.len() implies (#[trigger] rest[k]).len()
            < 0x1_0000_0000 by {
            assert(rest[k] == list[k + 1]);
        }
        mistakes_keep_what_came_before(rest, tail);
        let n = unit.len();
        vstd::arithmetic::div_mod::lemma_small_mod(n, 0x1_0000_0000);
        let head = be_bytes(n);
        lengths_have_the_highest_byte_first(n);
        assert(src =~= head + unit + (prefixed(rest) + tail));
        assert(src[0] == head[0] && src[1] == head[1] && src[2] == head[2] && src[3] == head[3]);
        assert(be_value(src) == n);
        assert(src.subrange(4, 4 + n as int) =~= unit);
        assert(src.skip(4 + n as int) =~= prefixed(rest) + tail);
        assert(list =~= seq![unit] + rest);
    }
}

/// The units of a stream are handed out in order, each once, one by one or all together.
pub proof fn units_are_handed_out_in_order(
    data: &[u8],
    start: NaluIter<'_>,
    walk: &mut NaluIter<'_>,
    first: Option<&[u8]>,
    all: Vec<&[u8]>,
)
    requires
        call_ensures(iter_nalus, (data,), start),
        *old(walk) == start,
        call_ensures(NaluIter::next, (walk,), first),
        call_ensures(NaluIter::collect, (start,), all),
    ensures
        views(all@) == units(data@, 0),
        first is None <==> all@.len() == 0,
        first matches Some(nalu) ==> nalu@ == all@[0]@ && final(walk).rest()
            == views(all@).drop_first(),
{
    assert(views(all@).len() == all@.len());
    if all@.len() > 0 {
        assert(views(all@)[0] == all@[0]@);
    }
}

/// A unit is written behind four bytes, three zeros and a one, and what was there stays.
pub proof fn units_are_written_behind_a_code(out: &mut Vec<u8>, nalu: &[u8])
    requires
        call_ensures(push_nalu, (out, nalu), ()),
    ensures
        final(out)@ == old(out)@ + seq![0u8, 0, 0, 1] + nalu@,
{
    assert(start_code() =~= seq![0u8, 0, 0, 1]);
}

/// Units that are written with their lengths read back as they were, where every length fits.
pub proof fn both_forms_carry_the_units(
    nalus: &[&[u8]],
    out: &mut Vec<u8>,
    src: &[u8],
    again: &mut Vec<u8>,
    r: Result<(), BitstreamError>,
)
    requires
        forall|k: int| 0 <= k < nalus@.len() ==> (#[trigger] nalus@[k])@.len() < 0x1_0000_0000,
        old(out)@.len() == 0,
        old(again)@.len() == 0,
        call_ensures(annexb_to_length_prefixed, (nalus, out), ()),
        src@ == final(out)@,
        call_ensures(length_prefixed_to_annexb, (src, again), r),
    ensures
        r is Ok,
        final(again)@ == annexb(views(nalus@)),
{
    let list = views(nalus@);
    assert(final(out)@ =~= prefixed(list));
    assert(final(again)@ =~= annexb(split(src@).0));
    assert forall|k: int| 0 <= k < list.len() implies (#[trigger] list[k]).len()
        < 0x1_0000_0000 by {
        assert(list[k] == nalus@[k]@);
    }
    length_prefix_roundtrip(list);
}

/// The words of a unit that is too long say its length and how much was left, in this order.
pub proof fn lengths_are_said(len: usize, left: usize, s: String)
    requires
        call_ensures(BitstreamError::message, (&BitstreamError::LengthOverflow(len, left),), s),
    ensures
        crate::text::says_both(
            s@,
            crate::text::decimal(len as nat),
            crate::text::decimal(left as nat),
        ),
{
    crate::text::parts_are_said(
        "độ dài NAL unit ("@,
        crate::text::decimal(len as nat),
        ") vượt quá dữ liệu còn lại ("@,
        crate::text::decimal(left as nat),
        ")"@,
    );
}

/// What is classified is told by the type in the first byte: for HEVC bits 1 to 6, for H.264 the
/// lowest five.
pub proof fn classes_are_told_by_the_type(nalu: &[u8], wide: NaluClass, narrow: NaluClass)
    requires
        nalu@.len() > 0,
        call_ensures(classify_hevc, (nalu,), wide),
        call_ensures(classify_h264, (nalu,), narrow),
    ensures
        ({
            let hevc = nalu@[0] / 2 % 64;
            let h264 = nalu@[0] % 32;
            &&& wide is ParameterSet <==> 32 <= hevc <= 34
            &&& wide is Keyframe <==> 16 <= hevc <= 23
            &&& wide is Delta <==> hevc <= 9
            &&& narrow is ParameterSet <==> h264 == 7 || h264 == 8
            &&& narrow is Keyframe <==> h264 == 5
            &&& narrow is Delta <==> h264 == 1
        }),
{
    hevc_types(nalu@);
    h264_types(nalu@);
}

} // verus!
