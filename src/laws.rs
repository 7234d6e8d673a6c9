//! Properties that relate encoding and decoding.
use crate::bytes::{be16, be16_at, be32, be32_at, lemma_be16_at, lemma_be32_at};
use crate::header::{header_bytes, BoxType, Error, HEADER_SIZE, HVC1_TAG, HVCC_TAG};
use crate::hvc1::{decode_hvc1, lemma_fixed_fields_len, Hvc1View, SAMPLE_ENTRY_FIXED_SIZE};
use crate::hvcc::{
    groups_fit, lemma_groups_of_record, lemma_hvcc_round_trip, lemma_role_units_absent,
    lemma_role_units_concat, role_units, lemma_size_bound, parse_groups, parse_hvcc, HvcCView,
    FIXED_PAYLOAD_SIZE, PPS_NAL_TYPE, SEI_NAL_TYPE, SPS_NAL_TYPE, VPS_NAL_TYPE,
};
use vstd::prelude::*;

verus! {

/// The size that a record's header declares, and that `box_size` computes, is
/// the number of bytes that its encoding takes.
pub proof fn lemma_record_size_accuracy(v: HvcCView)
    requires
        v.well_sized(),
    ensures
        v.encoding().len() == v.size(),
        be32_at(v.encoding(), 0) == v.size(),
{
    lemma_groups_of_record(v);
    lemma_size_bound(v);
    assert(v.fixed_fields().len() == FIXED_PAYLOAD_SIZE);
    let e = v.encoding();
    assert(e.subrange(0, 4) =~= be32(v.size() as u32));
    lemma_be32_at(e, 0, v.size() as u32);
}

/// The size that a sample entry's header declares, and that `get_size`
/// computes, is the number of bytes that its encoding takes; so is that of
/// its record.
pub proof fn lemma_size_accuracy(v: Hvc1View)
    requires
        v.hvcc.well_sized(),
    ensures
        v.encoding().len() == v.size(),
        be32_at(v.encoding(), 0) == v.size(),
        v.hvcc.encoding().len() == v.hvcc.size(),
        be32_at(v.hvcc.encoding(), 0) == v.hvcc.size(),
{
    lemma_record_size_accuracy(v.hvcc);
    lemma_size_bound(v.hvcc);
    lemma_fixed_fields_len(v);
    let e = v.encoding();
    assert(e.subrange(0, 4) =~= be32(v.size() as u32));
    lemma_be32_at(e, 0, v.size() as u32);
}

/// A valid record, encoded and decoded again, is the same record, and
/// decoding stops at the end of its encoding.
pub proof fn lemma_record_round_trip(v: HvcCView)
    requires
        v.valid(),
    ensures
        parse_hvcc(v.encoding(), HEADER_SIZE as int) == Some((v, v.encoding().len() as int)),
{
    let e = v.encoding();
    lemma_size_bound(v);
    assert(e.subrange(HEADER_SIZE as int, e.len() as int) =~= v.payload());
    lemma_hvcc_round_trip(e, HEADER_SIZE as int, v);
}

/// The fixed fields of a sample entry read back as the values written.
proof fn lemma_read_fixed_fields(v: Hvc1View, data: Seq<u8>, pos: int)
    requires
        0 <= pos,
        pos + SAMPLE_ENTRY_FIXED_SIZE <= data.len(),
        data.subrange(pos, pos + SAMPLE_ENTRY_FIXED_SIZE) == v.fixed_fields(),
    ensures
        be16_at(data, pos + 6) == v.data_reference_index,
        be16_at(data, pos + 24) == v.width,
        be16_at(data, pos + 26) == v.height,
        be32_at(data, pos + 28) == v.horizresolution,
        be32_at(data, pos + 32) == v.vertresolution,
        be16_at(data, pos + 40) == v.frame_count,
        be16_at(data, pos + 74) == v.depth,
{
    reveal(Hvc1View::fixed_fields);
    let f = v.fixed_fields();
    let w = data.subrange(pos, pos + 78);
    assert(f.subrange(6, 8) =~= be16(v.data_reference_index));
    assert(data.subrange(pos + 6, pos + 8) =~= w.subrange(6, 8));
    lemma_be16_at(data, pos + 6, v.data_reference_index);
    assert(f.subrange(24, 26) =~= be16(v.width));
    assert(data.subrange(pos + 24, pos + 26) =~= w.subrange(24, 26));
    lemma_be16_at(data, pos + 24, v.width);
    assert(f.subrange(26, 28) =~= be16(v.height));
    assert(data.subrange(pos + 26, pos + 28) =~= w.subrange(26, 28));
    lemma_be16_at(data, pos + 26, v.height);
    assert(f.subrange(28, 32) =~= be32(v.horizresolution));
    assert(data.subrange(pos + 28, pos + 32) =~= w.subrange(28, 32));
    lemma_be32_at(data, pos + 28, v.horizresolution);
    assert(f.subrange(32, 36) =~= be32(v.vertresolution));
    assert(data.subrange(pos + 32, pos + 36) =~= w.subrange(32, 36));
    lemma_be32_at(data, pos + 32, v.vertresolution);
    assert(f.subrange(40, 42) =~= be16(v.frame_count));
    assert(data.subrange(pos + 40, pos + 42) =~= w.subrange(40, 42));
    lemma_be16_at(data, pos + 40, v.frame_count);
    assert(f.subrange(74, 76) =~= be16(v.depth));
    assert(data.subrange(pos + 74, pos + 76) =~= w.subrange(74, 76));
    lemma_be16_at(data, pos + 74, v.depth);
}

/// A sample entry whose record is valid, encoded and decoded again, is the
/// same sample entry.
#[verifier::rlimit(40)]
pub proof fn lemma_round_trip(v: Hvc1View)
    requires
        v.hvcc.valid(),
    ensures
        decode_hvc1(v.encoding(), HEADER_SIZE as int) == Ok::<Hvc1View, Error>(v),
{
    let e = v.encoding();
    let f = v.fixed_fields();
    let c = v.hvcc.encoding();
    let p = v.hvcc.payload();
    lemma_size_bound(v.hvcc);
    let h = header_bytes(v.size() as u32, HVC1_TAG);
    assert(e == h + f + c);
    lemma_fixed_fields_len(v);
    assert(e.subrange(8, 86) =~= f);
    lemma_read_fixed_fields(v, e, 8);
    assert(c == be32(v.hvcc.size() as u32) + be32(HVCC_TAG) + p);
    assert(e.subrange(90, 94) =~= be32(HVCC_TAG));
    lemma_be32_at(e, 90, HVCC_TAG);
    assert(e.subrange(94, 94 + p.len() as int) =~= p);
    lemma_hvcc_round_trip(e, 94, v.hvcc);
}

/// Within each role, the units of a decoded record come in the order in
/// which they were encoded.
pub proof fn lemma_order_preserved(v: HvcCView)
    requires
        v.valid(),
    ensures
        parse_hvcc(v.encoding(), HEADER_SIZE as int) matches Some((d, _)) && {
            &&& d.video_parameter_sets.len() == v.video_parameter_sets.len()
            &&& d.sequence_parameter_sets.len() == v.sequence_parameter_sets.len()
            &&& d.picture_parameter_sets.len() == v.picture_parameter_sets.len()
            &&& d.supplementary_enhancement_information.len()
                == v.supplementary_enhancement_information.len()
            &&& forall|i: int|
                0 <= i < v.video_parameter_sets.len() ==> #[trigger] d.video_parameter_sets[i]
                    == v.video_parameter_sets[i]
            &&& forall|i: int|
                0 <= i < v.sequence_parameter_sets.len() ==> #[trigger] d.sequence_parameter_sets[i]
                    == v.sequence_parameter_sets[i]
            &&& forall|i: int|
                0 <= i < v.picture_parameter_sets.len() ==> #[trigger] d.picture_parameter_sets[i]
                    == v.picture_parameter_sets[i]
            &&& forall|i: int|
                0 <= i < v.supplementary_enhancement_information.len()
                    ==> #[trigger] d.supplementary_enhancement_information[i]
                    == v.supplementary_enhancement_information[i]
        },
{
    lemma_record_round_trip(v);
}

/// A role without units writes no array: each array of a well-sized record
/// holds at least one unit, and no array carries the type of an empty role.
pub proof fn lemma_empty_role_omitted(v: HvcCView)
    requires
        v.well_sized(),
    ensures
        v.payload() == v.fixed_fields() + crate::hvcc::groups_bytes(v.groups()),
        forall|i: int| 0 <= i < v.groups().len() ==> #[trigger] v.groups()[i].1.len() > 0,
        v.video_parameter_sets.len() == 0 ==> forall|i: int|
            0 <= i < v.groups().len() ==> #[trigger] v.groups()[i].0 != VPS_NAL_TYPE,
        v.sequence_parameter_sets.len() == 0 ==> forall|i: int|
            0 <= i < v.groups().len() ==> #[trigger] v.groups()[i].0 != SPS_NAL_TYPE,
        v.picture_parameter_sets.len() == 0 ==> forall|i: int|
            0 <= i < v.groups().len() ==> #[trigger] v.groups()[i].0 != PPS_NAL_TYPE,
        v.supplementary_enhancement_information.len() == 0 ==> forall|i: int|
            0 <= i < v.groups().len() ==> #[trigger] v.groups()[i].0 != SEI_NAL_TYPE,
{
    lemma_groups_of_record(v);
    assert(groups_fit(v.groups()));
    assert forall|i: int| 0 <= i < v.groups().len() implies (#[trigger] v.groups()[i]).1.len() > 0
        && (v.groups()[i].0 == VPS_NAL_TYPE ==> v.video_parameter_sets.len() > 0) && (
    v.groups()[i].0 == SPS_NAL_TYPE ==> v.sequence_parameter_sets.len() > 0) && (v.groups()[i].0
        == PPS_NAL_TYPE ==> v.picture_parameter_sets.len() > 0) && (v.groups()[i].0
        == SEI_NAL_TYPE ==> v.supplementary_enhancement_information.len() > 0) by {
        let g1 = crate::hvcc::role_group(VPS_NAL_TYPE, v.video_parameter_sets);
        let g2 = crate::hvcc::role_group(SPS_NAL_TYPE, v.sequence_parameter_sets);
        let g3 = crate::hvcc::role_group(PPS_NAL_TYPE, v.picture_parameter_sets);
        let g4 = crate::hvcc::role_group(SEI_NAL_TYPE, v.supplementary_enhancement_information);
        let a = g1.len() as int;
        let b = a + g2.len();
        let c = b + g3.len();
        if i < a {
            assert(v.groups()[i] == g1[i]);
        } else if i < b {
            assert(v.groups()[i] == g2[i - a]);
        } else if i < c {
            assert(v.groups()[i] == g3[i - b]);
        } else {
            assert(v.groups()[i] == g4[i - c]);
        }
    }
}

/// A record decoded from a stream that has no array of type `id` has no
/// unit in the role of `id`.
pub proof fn lemma_absent_role_stays_empty(data: Seq<u8>, pos: int, id: u8)
    requires
        0 <= pos,
        pos + FIXED_PAYLOAD_SIZE <= data.len(),
        parse_groups(data, pos + FIXED_PAYLOAD_SIZE, data[pos + 22] as int) matches Some((gs, _))
            && forall|i: int| 0 <= i < gs.len() ==> #[trigger] gs[i].0 != id,
    ensures
        parse_hvcc(data, pos) matches Some((d, _)) && {
            &&& id == VPS_NAL_TYPE ==> d.video_parameter_sets.len() == 0
            &&& id == SPS_NAL_TYPE ==> d.sequence_parameter_sets.len() == 0
            &&& id == PPS_NAL_TYPE ==> d.picture_parameter_sets.len() == 0
            &&& id == SEI_NAL_TYPE ==> d.supplementary_enhancement_information.len() == 0
        },
{
    let gs = parse_groups(data, pos + FIXED_PAYLOAD_SIZE, data[pos + 22] as int).unwrap().0;
    lemma_role_units_absent(gs, id);
}

/// The units of one role come out in stream order: where the arrays read
/// from a stream are `a` followed by `b`, each role holds its units from `a`,
/// then those from `b`, so arrays of one type concatenate.
pub proof fn lemma_stream_order(
    data: Seq<u8>,
    pos: int,
    a: Seq<(u8, Seq<Seq<u8>>)>,
    b: Seq<(u8, Seq<Seq<u8>>)>,
)
    requires
        0 <= pos,
        pos + FIXED_PAYLOAD_SIZE <= data.len(),
        parse_groups(data, pos + FIXED_PAYLOAD_SIZE, data[pos + 22] as int) matches Some((gs, _))
            && gs == a + b,
    ensures
        parse_hvcc(data, pos) matches Some((d, _)) && {
            &&& d.video_parameter_sets == role_units(a, VPS_NAL_TYPE) + role_units(b, VPS_NAL_TYPE)
            &&& d.sequence_parameter_sets == role_units(a, SPS_NAL_TYPE) + role_units(
                b,
                SPS_NAL_TYPE,
            )
            &&& d.picture_parameter_sets == role_units(a, PPS_NAL_TYPE) + role_units(
                b,
                PPS_NAL_TYPE,
            )
            &&& d.supplementary_enhancement_information == role_units(a, SEI_NAL_TYPE)
                + role_units(b, SEI_NAL_TYPE)
        },
{
    lemma_role_units_concat(a, b, VPS_NAL_TYPE);
    lemma_role_units_concat(a, b, SPS_NAL_TYPE);
    lemma_role_units_concat(a, b, PPS_NAL_TYPE);
    lemma_role_units_concat(a, b, SEI_NAL_TYPE);
}

/// A record that declares no units reads no array: every role comes out
/// empty and decoding stops right after the fixed fields.
pub proof fn lemma_no_units(data: Seq<u8>, pos: int)
    requires
        0 <= pos,
        pos + FIXED_PAYLOAD_SIZE <= data.len(),
        data[pos + 22] == 0,
    ensures
        parse_hvcc(data, pos) matches Some((d, end)) && {
            &&& end == pos + FIXED_PAYLOAD_SIZE
            &&& d.video_parameter_sets.len() == 0
            &&& d.sequence_parameter_sets.len() == 0
            &&& d.picture_parameter_sets.len() == 0
            &&& d.supplementary_enhancement_information.len() == 0
        },
{
    let e = Seq::<(u8, Seq<Seq<u8>>)>::empty();
    assert(parse_groups(data, pos + FIXED_PAYLOAD_SIZE, 0) == Some((e, pos + FIXED_PAYLOAD_SIZE)));
    assert(role_units(e, VPS_NAL_TYPE).len() == 0);
    assert(role_units(e, SPS_NAL_TYPE).len() == 0);
    assert(role_units(e, PPS_NAL_TYPE).len() == 0);
    assert(role_units(e, SEI_NAL_TYPE).len() == 0);
}

/// Decoding keeps only the low bits of the packed fields: each comes out
/// within its bit width, and a byte with all bits set gives the largest value.
pub proof fn lemma_masking(data: Seq<u8>, pos: int)
    requires
        parse_hvcc(data, pos) is Some,
    ensures
        parse_hvcc(data, pos) matches Some((d, _)) && {
            &&& d.chroma_idc <= 3
            &&& d.bit_depth_luma_minus8 <= 7
            &&& d.bit_depth_chroma_minus8 <= 7
            &&& d.num_temporal_layer <= 31
            &&& d.chroma_idc == data[pos + 16] & 0x03
            &&& d.bit_depth_luma_minus8 == data[pos + 17] & 0x07
            &&& d.bit_depth_chroma_minus8 == data[pos + 18] & 0x07
            &&& data[pos + 16] == 0xFF ==> d.chroma_idc == 3
            &&& data[pos + 17] == 0xFF ==> d.bit_depth_luma_minus8 == 7
            &&& data[pos + 18] == 0xFF ==> d.bit_depth_chroma_minus8 == 7
        },
{
    let a = data[pos + 16];
    let b = data[pos + 17];
    let c = data[pos + 18];
    let t = data[pos + 21];
    assert(a & 0x03u8 <= 3 && b & 0x07u8 <= 7 && c & 0x07u8 <= 7 && t >> 3u8 <= 31) by (bit_vector);
    assert(0xFFu8 & 0x03u8 == 3 && 0xFFu8 & 0x07u8 == 7) by (bit_vector);
}

/// A sample entry whose nested box is not an `hvcC` box fails to decode with
/// `InvalidData`, whatever follows.
pub proof fn lemma_nested_type_mismatch(data: Seq<u8>, pos: int)
    requires
        0 <= pos,
        pos + SAMPLE_ENTRY_FIXED_SIZE + HEADER_SIZE <= data.len(),
        BoxType::spec_from_tag(be32_at(data, pos + SAMPLE_ENTRY_FIXED_SIZE + 4))
            != BoxType::HvcCBox,
    ensures
        decode_hvc1(data, pos) == Err::<Hvc1View, Error>(Error::InvalidData),
{
}

} // verus!
