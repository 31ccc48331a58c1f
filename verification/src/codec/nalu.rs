//! What the units of a stream are, for each codec.

use vstd::prelude::*;

use crate::codec::annexb::{classify_h264, classify_hevc, iter_nalus, NaluClass};
use crate::protocol::control::Codec;

verus! {

/// What a unit is, in the codec's own numbering.
pub open spec fn class_of(codec: Codec, nalu: Seq<u8>) -> NaluClass {
    if codec is Hevc {
        crate::codec::annexb::class_hevc(nalu)
    } else {
        crate::codec::annexb::class_h264(nalu)
    }
}

pub fn classify(codec: Codec, nalu: &[u8]) -> (r: NaluClass)
    ensures
        r == class_of(codec, nalu@),
{
    match codec {
        Codec::Hevc => classify_hevc(nalu),
        _ => classify_h264(nalu),
    }
}

/// Whether some unit has the class.
pub open spec fn any_of(units: Seq<Seq<u8>>, codec: Codec, class: NaluClass) -> bool {
    exists|i: int| 0 <= i < units.len() && #[trigger] class_of(codec, units[i]) == class
}

/// Whether some unit of an Annex B stream has the class.
pub fn holds_class(data: &[u8], codec: Codec, class: NaluClass) -> (r: bool)
    ensures
        r == any_of(crate::codec::annexb::units(data@, 0), codec, class),
{
    let all = iter_nalus(data).collect();
    let ghost parts = crate::codec::annexb::units(data@, 0);
    let mut i: usize = 0;
    while i < all.len()
        invariant
            i <= all@.len(),
            crate::codec::annexb::views(all@) == parts,
            parts == crate::codec::annexb::units(data@, 0),
            forall|j: int| 0 <= j < i ==> #[trigger] class_of(codec, parts[j]) != class,
        decreases all@.len() - i,
    {
        assert(parts[i as int] == all@[i as int]@);
        if classify(codec, all[i]) == class {
            assert(class_of(codec, parts[i as int]) == class);
            return true;
        }
        i += 1;
    }
    false
}

/// An HEVC stream is read by HEVC's unit types, every other one by those of H.264.
pub proof fn each_codec_has_its_numbers(codec: Codec, nalu: Seq<u8>)
    requires
        nalu.len() > 0,
    ensures
        ({
            let wide = (nalu[0] >> 1u8) & 0x3f;
            let narrow = nalu[0] & 0x1f;
            let class = class_of(codec, nalu);
            &&& codec is Hevc ==> (class is ParameterSet <==> 32 <= wide <= 34) && (
            class is Keyframe <==> 16 <= wide <= 23) && (class is Delta <==> wide <= 9)
            &&& !(codec is Hevc) ==> (class is ParameterSet <==> narrow == 7 || narrow == 8) && (
            class is Keyframe <==> narrow == 5) && (class is Delta <==> narrow == 1)
        }),
{
    crate::codec::annexb::hevc_types(nalu);
    crate::codec::annexb::h264_types(nalu);
    let first = nalu[0];
    assert((first >> 1u8) & 0x3f == first / 2 % 64) by (bit_vector);
}

} // verus!
