use crate::bytes::{be16, be16_at, lemma_be16_at, push_all, push_u16, read_u16_at};
use crate::header::{header_bytes, BoxHeader, BoxType, Error, HEADER_SIZE, HVCC_TAG};
use crate::nal::{
    lemma_parse_units_round_trip, lemma_parse_units_within, lemma_units_bytes_len,
    lemma_units_size_bound,
    nal_views, parse_units, read_units, units_bytes, units_fit, units_size, write_units,
    NalUnit, MAX_NAL_LEN,
};
use vstd::prelude::*;

verus! {

/// The NAL unit type of a video parameter set.
pub const VPS_NAL_TYPE: u8 = 32;

/// The NAL unit type of a sequence parameter set.
pub const SPS_NAL_TYPE: u8 = 33;

/// The NAL unit type of a picture parameter set.
pub const PPS_NAL_TYPE: u8 = 34;

/// The NAL unit type of a supplemental enhancement information message.
pub const SEI_NAL_TYPE: u8 = 39;

/// The most units that a record can carry, all roles together.
pub const MAX_NAL_COUNT: usize = 255;

/// The bytes of a record's payload before its unit arrays.
pub const FIXED_PAYLOAD_SIZE: u64 = 23;

/// The HEVC decoder configuration record (`hvcC`).
#[derive(Debug, Clone, PartialEq, Eq, Default)]
pub struct HvcCBox {
    pub general_configuration: [u8; 12],
    pub num_temporal_layer: u8,
    pub chroma_idc: u8,
    pub bit_depth_luma_minus8: u8,
    pub bit_depth_chroma_minus8: u8,
    pub temporal_id_nested: bool,
    pub video_parameter_sets: Vec<NalUnit>,
    pub sequence_parameter_sets: Vec<NalUnit>,
    pub picture_parameter_sets: Vec<NalUnit>,
    pub supplementary_enhancement_information: Vec<NalUnit>,
}

/// The mathematical content of an `HvcCBox`: each unit as its bytes.
pub struct HvcCView {
    pub general_configuration: Seq<u8>,
    pub num_temporal_layer: u8,
    pub chroma_idc: u8,
    pub bit_depth_luma_minus8: u8,
    pub bit_depth_chroma_minus8: u8,
    pub temporal_id_nested: bool,
    pub video_parameter_sets: Seq<Seq<u8>>,
    pub sequence_parameter_sets: Seq<Seq<u8>>,
    pub picture_parameter_sets: Seq<Seq<u8>>,
    pub supplementary_enhancement_information: Seq<Seq<u8>>,
}

impl View for HvcCBox {
    type V = HvcCView;

    open spec fn view(&self) -> HvcCView {
        HvcCView {
            general_configuration: self.general_configuration@,
            num_temporal_layer: self.num_temporal_layer,
            chroma_idc: self.chroma_idc,
            bit_depth_luma_minus8: self.bit_depth_luma_minus8,
            bit_depth_chroma_minus8: self.bit_depth_chroma_minus8,
            temporal_id_nested: self.temporal_id_nested,
            video_parameter_sets: nal_views(self.video_parameter_sets@),
            sequence_parameter_sets: nal_views(self.sequence_parameter_sets@),
            picture_parameter_sets: nal_views(self.picture_parameter_sets@),
            supplementary_enhancement_information: nal_views(
                self.supplementary_enhancement_information@,
            ),
        }
    }
}

/// The byte that carries `chroma_idc` in its two low bits; the other bits are set.
pub open spec fn chroma_byte(c: u8) -> u8 {
    0xFC | (c & 0x03)
}

/// The byte that carries a bit depth in its three low bits; the other bits are set.
pub open spec fn depth_byte(d: u8) -> u8 {
    0xF8 | (d & 0x07)
}

/// The byte that carries the temporal layer count in bits 7-3 and the
/// nesting flag in bit 2; bits 1-0 are set.
pub open spec fn temporal_byte(n: u8, nested: bool) -> u8 {
    ((n & 0x07) << 3) | ((if nested { 1u8 } else { 0u8 }) << 2) | 0x03
}

/// One unit array as it stands on the wire: a NAL unit type and its units.
pub open spec fn group_bytes(g: (u8, Seq<Seq<u8>>)) -> Seq<u8> {
    seq![g.0] + be16(g.1.len() as u16) + units_bytes(g.1)
}

/// The wire forms of `gs`, one after the other.
pub open spec fn groups_bytes(gs: Seq<(u8, Seq<Seq<u8>>)>) -> Seq<u8>
    decreases gs.len(),
{
    if gs.len() == 0 {
        Seq::empty()
    } else {
        groups_bytes(gs.drop_last()) + group_bytes(gs.last())
    }
}

/// The array for one role: none where the role has no units.
pub open spec fn role_group(id: u8, us: Seq<Seq<u8>>) -> Seq<(u8, Seq<Seq<u8>>)> {
    if us.len() == 0 {
        Seq::empty()
    } else {
        seq![(id, us)]
    }
}

/// The units of all arrays of `gs` whose type is `id`, in stream order.
pub open spec fn role_units(gs: Seq<(u8, Seq<Seq<u8>>)>, id: u8) -> Seq<Seq<u8>>
    decreases gs.len(),
{
    if gs.len() == 0 {
        Seq::empty()
    } else {
        role_units(gs.drop_last(), id) + if gs.last().0 == id {
            gs.last().1
        } else {
            Seq::empty()
        }
    }
}

/// The bytes that one role's array takes: none where the role has no units.
pub open spec fn role_size(us: Seq<Seq<u8>>) -> nat {
    if us.len() == 0 {
        0
    } else {
        3 + units_size(us)
    }
}

impl HvcCView {
    /// The arrays that the record writes: one per role that has units, in
    /// the order VPS, SPS, PPS, SEI.
    pub open spec fn groups(self) -> Seq<(u8, Seq<Seq<u8>>)> {
        role_group(VPS_NAL_TYPE, self.video_parameter_sets) + role_group(
            SPS_NAL_TYPE,
            self.sequence_parameter_sets,
        ) + role_group(PPS_NAL_TYPE, self.picture_parameter_sets) + role_group(
            SEI_NAL_TYPE,
            self.supplementary_enhancement_information,
        )
    }

    /// The number of units of all roles together.
    pub open spec fn total_units(self) -> nat {
        self.video_parameter_sets.len() + self.sequence_parameter_sets.len()
            + self.picture_parameter_sets.len() + self.supplementary_enhancement_information.len()
    }

    /// Every unit fits its length prefix and the total fits its count byte.
    pub open spec fn well_sized(self) -> bool {
        &&& units_fit(self.video_parameter_sets)
        &&& units_fit(self.sequence_parameter_sets)
        &&& units_fit(self.picture_parameter_sets)
        &&& units_fit(self.supplementary_enhancement_information)
        &&& self.total_units() <= MAX_NAL_COUNT
        &&& self.general_configuration.len() == 12
    }

    /// Well sized, and each packed field within its bit width.
    pub open spec fn valid(self) -> bool {
        &&& self.well_sized()
        &&& self.num_temporal_layer <= 7
        &&& self.chroma_idc <= 3
        &&& self.bit_depth_luma_minus8 <= 7
        &&& self.bit_depth_chroma_minus8 <= 7
    }

    /// The size of the record's box, header included.
    pub open spec fn size(self) -> nat {
        (HEADER_SIZE + FIXED_PAYLOAD_SIZE + role_size(self.video_parameter_sets) + role_size(
            self.sequence_parameter_sets,
        ) + role_size(self.picture_parameter_sets) + role_size(
            self.supplementary_enhancement_information,
        )) as nat
    }

    /// The record's payload: the fixed fields, then the unit arrays.
    pub open spec fn payload(self) -> Seq<u8> {
        self.fixed_fields() + groups_bytes(self.groups())
    }

    /// The payload's fields before the unit arrays.
    pub open spec fn fixed_fields(self) -> Seq<u8> {
        seq![1u8] + self.general_configuration + be16(0xF000) + seq![
            0xFCu8,
            chroma_byte(self.chroma_idc),
            depth_byte(self.bit_depth_luma_minus8),
            depth_byte(self.bit_depth_chroma_minus8),
        ] + be16(0) + seq![
            temporal_byte(self.num_temporal_layer, self.temporal_id_nested),
            self.total_units() as u8,
        ]
    }

    /// The record's box: header, then payload.
    pub open spec fn encoding(self) -> Seq<u8> {
        header_bytes(self.size() as u32, HVCC_TAG) + self.payload()
    }
}

/// Reads unit arrays at `pos` until at least `remaining` units have been
/// read: the arrays in stream order and the position after the last, or
/// `None` where the data ends first.
pub open spec fn parse_groups(data: Seq<u8>, pos: int, remaining: int) -> Option<
    (Seq<(u8, Seq<Seq<u8>>)>, int),
>
    decreases data.len() - pos via parse_groups_decreases
{
    if remaining <= 0 {
        Some((Seq::empty(), pos))
    } else if pos < 0 || pos + 3 > data.len() {
        None
    } else {
        let n = be16_at(data, pos + 1);
        match parse_units(data, pos + 3, n as nat) {
            None => None,
            Some((us, used)) => match parse_groups(data, pos + 3 + used, remaining - n) {
                None => None,
                Some((gs, end)) => Some((seq![(data[pos], us)] + gs, end)),
            },
        }
    }
}

#[via_fn]
proof fn parse_groups_decreases(data: Seq<u8>, pos: int, remaining: int) {
    if remaining > 0 && 0 <= pos && pos + 3 <= data.len() {
        lemma_parse_units_within(data, pos + 3, be16_at(data, pos + 1) as nat);
    }
}

/// Decodes a record's payload at `pos`: the record and the position where
/// decoding stopped, or `None` where the data ends first. Packed fields are
/// masked to their bit widths; arrays of other types are read and dropped.
pub open spec fn parse_hvcc(data: Seq<u8>, pos: int) -> Option<(HvcCView, int)> {
    if pos < 0 || pos + FIXED_PAYLOAD_SIZE > data.len() {
        None
    } else {
        match parse_groups(data, pos + FIXED_PAYLOAD_SIZE, data[pos + 22] as int) {
            None => None,
            Some((gs, end)) => Some(
                (
                    HvcCView {
                        general_configuration: data.subrange(pos + 1, pos + 13),
                        num_temporal_layer: data[pos + 21] >> 3,
                        chroma_idc: data[pos + 16] & 0x03,
                        bit_depth_luma_minus8: data[pos + 17] & 0x07,
                        bit_depth_chroma_minus8: data[pos + 18] & 0x07,
                        temporal_id_nested: data[pos + 21] & 0x04 == 0x04,
                        video_parameter_sets: role_units(gs, VPS_NAL_TYPE),
                        sequence_parameter_sets: role_units(gs, SPS_NAL_TYPE),
                        picture_parameter_sets: role_units(gs, PPS_NAL_TYPE),
                        supplementary_enhancement_information: role_units(gs, SEI_NAL_TYPE),
                    },
                    end,
                ),
            ),
        }
    }
}

/// The wire form of `a + b` is that of `a`, then that of `b`.
pub proof fn lemma_groups_bytes_concat(a: Seq<(u8, Seq<Seq<u8>>)>, b: Seq<(u8, Seq<Seq<u8>>)>)
    ensures
        groups_bytes(a + b) == groups_bytes(a) + groups_bytes(b),
    decreases b.len(),
{
    if b.len() == 0 {
        assert(a + b =~= a);
        assert(groups_bytes(a) + groups_bytes(b) =~= groups_bytes(a));
    } else {
        assert((a + b).drop_last() =~= a + b.drop_last());
        lemma_groups_bytes_concat(a, b.drop_last());
        assert(groups_bytes(a + b) =~= groups_bytes(a) + groups_bytes(b));
    }
}

/// A record that is well sized has a size that its header can declare.
pub proof fn lemma_size_bound(v: HvcCView)
    requires
        v.well_sized(),
    ensures
        v.size() <= HEADER_SIZE + FIXED_PAYLOAD_SIZE + 12 + (2 + MAX_NAL_LEN) * MAX_NAL_COUNT,
{
    let a = v.video_parameter_sets;
    let b = v.sequence_parameter_sets;
    let c = v.picture_parameter_sets;
    let d = v.supplementary_enhancement_information;
    lemma_units_size_bound(a);
    lemma_units_size_bound(b);
    lemma_units_size_bound(c);
    lemma_units_size_bound(d);
    let k = 2 + MAX_NAL_LEN;
    assert(k * a.len() + k * b.len() + k * c.len() + k * d.len() == k * (a.len() + b.len()
        + c.len() + d.len())) by (nonlinear_arith);
    assert(k * (a.len() + b.len() + c.len() + d.len()) <= k * MAX_NAL_COUNT) by (nonlinear_arith)
        requires
            k >= 0,
            a.len() + b.len() + c.len() + d.len() <= MAX_NAL_COUNT,
    ;
}

/// The number of units that the arrays `gs` hold together.
pub open spec fn groups_total(gs: Seq<(u8, Seq<Seq<u8>>)>) -> int
    decreases gs.len(),
{
    if gs.len() == 0 {
        0
    } else {
        gs[0].1.len() + groups_total(gs.drop_first())
    }
}

/// Each array of `gs` has units that fit their prefixes, at least one and
/// no more than a 16-bit count can say.
pub open spec fn groups_fit(gs: Seq<(u8, Seq<Seq<u8>>)>) -> bool {
    forall|i: int|
        0 <= i < gs.len() ==> 0 < #[trigger] gs[i].1.len() <= 0xFFFF && units_fit(gs[i].1)
}

pub proof fn lemma_groups_total_concat(a: Seq<(u8, Seq<Seq<u8>>)>, b: Seq<(u8, Seq<Seq<u8>>)>)
    ensures
        groups_total(a + b) == groups_total(a) + groups_total(b),
    decreases a.len(),
{
    if a.len() == 0 {
        assert(a + b =~= b);
    } else {
        assert((a + b).drop_first() =~= a.drop_first() + b);
        lemma_groups_total_concat(a.drop_first(), b);
    }
}

pub proof fn lemma_role_units_concat(
    a: Seq<(u8, Seq<Seq<u8>>)>,
    b: Seq<(u8, Seq<Seq<u8>>)>,
    id: u8,
)
    ensures
        role_units(a + b, id) == role_units(a, id) + role_units(b, id),
    decreases b.len(),
{
    if b.len() == 0 {
        assert(a + b =~= a);
        assert(role_units(a, id) + role_units(b, id) =~= role_units(a, id));
    } else {
        assert((a + b).drop_last() =~= a + b.drop_last());
        lemma_role_units_concat(a, b.drop_last(), id);
        assert(role_units(a + b, id) =~= role_units(a, id) + role_units(b, id));
    }
}

/// The units of type `id` in the array of one role.
pub proof fn lemma_role_units_group(role: u8, us: Seq<Seq<u8>>, id: u8)
    ensures
        role_units(role_group(role, us), id) == if role == id {
            us
        } else {
            Seq::empty()
        },
{
    let gs = role_group(role, us);
    if us.len() > 0 {
        let e = Seq::<(u8, Seq<Seq<u8>>)>::empty();
        assert(gs.drop_last() =~= e);
        assert(gs.last() == (role, us));
        assert(role_units(e, id) =~= Seq::<Seq<u8>>::empty());
        assert(role_units(gs, id) =~= if role == id {
            us
        } else {
            Seq::empty()
        });
    }
}

/// Where no array has type `id`, no unit of type `id` comes out.
pub proof fn lemma_role_units_absent(gs: Seq<(u8, Seq<Seq<u8>>)>, id: u8)
    requires
        forall|i: int| 0 <= i < gs.len() ==> #[trigger] gs[i].0 != id,
    ensures
        role_units(gs, id) == Seq::<Seq<u8>>::empty(),
    decreases gs.len(),
{
    if gs.len() > 0 {
        assert(gs.last() == gs[gs.len() - 1]);
        assert forall|i: int| 0 <= i < gs.drop_last().len() implies #[trigger] gs.drop_last()[i].0 != id by {
            assert(gs.drop_last()[i] == gs[i]);
        }
        lemma_role_units_absent(gs.drop_last(), id);
        assert(role_units(gs, id) =~= Seq::<Seq<u8>>::empty());
    }
}

/// The wire form of one role's array takes `role_size` bytes.
pub proof fn lemma_role_group_len(role: u8, us: Seq<Seq<u8>>)
    ensures
        groups_bytes(role_group(role, us)).len() == role_size(us),
        groups_total(role_group(role, us)) == us.len(),
{
    let gs = role_group(role, us);
    lemma_units_bytes_len(us);
    if us.len() > 0 {
        let e = Seq::<(u8, Seq<Seq<u8>>)>::empty();
        assert(gs.drop_last() =~= e);
        assert(gs.drop_first() =~= e);
        assert(gs.last() == (role, us));
        assert(gs[0] == (role, us));
        assert(groups_bytes(e) =~= Seq::<u8>::empty());
        assert(groups_total(e) == 0);
    }
}

/// Arrays written one after the other read back as the same arrays, and
/// reading stops right after the last.
pub proof fn lemma_parse_groups_round_trip(data: Seq<u8>, pos: int, gs: Seq<(u8, Seq<Seq<u8>>)>)
    requires
        groups_fit(gs),
        0 <= pos,
        pos + groups_bytes(gs).len() <= data.len(),
        data.subrange(pos, pos + groups_bytes(gs).len()) == groups_bytes(gs),
    ensures
        parse_groups(data, pos, groups_total(gs)) == Some((gs, pos + groups_bytes(gs).len())),
    decreases gs.len(),
{
    if gs.len() > 0 {
        let g = gs[0];
        let rest = gs.drop_first();
        let whole = groups_bytes(gs);
        let n = whole.len() as int;
        assert(seq![g] + rest =~= gs);
        lemma_groups_bytes_concat(seq![g], rest);
        assert(seq![g].drop_last() =~= Seq::<(u8, Seq<Seq<u8>>)>::empty());
        assert(groups_bytes(Seq::<(u8, Seq<Seq<u8>>)>::empty()) =~= Seq::<u8>::empty());
        let gb = group_bytes(g);
        assert(groups_bytes(seq![g]) =~= gb);
        assert(whole == gb + groups_bytes(rest));
        let k = g.1.len();
        let ub = units_bytes(g.1);
        assert(0 < k <= 0xFFFF && units_fit(g.1));
        assert(data[pos] == whole[0]);
        assert(data.subrange(pos + 1, pos + 3) =~= data.subrange(pos, pos + n).subrange(1, 3));
        assert(whole.subrange(1, 3) =~= be16(k as u16));
        lemma_be16_at(data, pos + 1, k as u16);
        let m = ub.len() as int;
        assert(whole.subrange(3, 3 + m) =~= ub);
        assert(data.subrange(pos + 3, pos + 3 + m) =~= data.subrange(pos, pos + n).subrange(3, 3 + m));
        lemma_parse_units_round_trip(data, pos + 3, g.1);
        assert(whole.subrange(3 + m, n) =~= groups_bytes(rest));
        assert(data.subrange(pos + 3 + m, pos + n) =~= data.subrange(pos, pos + n).subrange(3 + m, n));
        assert(groups_fit(rest)) by {
            assert forall|i: int| 0 <= i < rest.len() implies 0 < #[trigger] rest[i].1.len() <= 0xFFFF
                && units_fit(rest[i].1) by {
                assert(rest[i] == gs[i + 1]);
            }
        }
        lemma_parse_groups_round_trip(data, pos + 3 + m, rest);
        assert(seq![(data[pos], g.1)] + rest =~= gs);
    }
}

/// The unit arrays of a well-sized record: one per role that has units, each
/// fitting, holding all of the record's units.
pub proof fn lemma_groups_of_record(v: HvcCView)
    requires
        v.well_sized(),
    ensures
        groups_fit(v.groups()),
        groups_total(v.groups()) == v.total_units(),
        groups_bytes(v.groups()).len() + HEADER_SIZE + FIXED_PAYLOAD_SIZE == v.size(),
        role_units(v.groups(), VPS_NAL_TYPE) == v.video_parameter_sets,
        role_units(v.groups(), SPS_NAL_TYPE) == v.sequence_parameter_sets,
        role_units(v.groups(), PPS_NAL_TYPE) == v.picture_parameter_sets,
        role_units(v.groups(), SEI_NAL_TYPE) == v.supplementary_enhancement_information,
{
    let g1 = role_group(VPS_NAL_TYPE, v.video_parameter_sets);
    let g2 = role_group(SPS_NAL_TYPE, v.sequence_parameter_sets);
    let g3 = role_group(PPS_NAL_TYPE, v.picture_parameter_sets);
    let g4 = role_group(SEI_NAL_TYPE, v.supplementary_enhancement_information);
    let gs = v.groups();
    assert(gs == g1 + g2 + g3 + g4);
    lemma_groups_bytes_concat(g1, g2);
    lemma_groups_bytes_concat(g1 + g2, g3);
    lemma_groups_bytes_concat(g1 + g2 + g3, g4);
    lemma_groups_total_concat(g1, g2);
    lemma_groups_total_concat(g1 + g2, g3);
    lemma_groups_total_concat(g1 + g2 + g3, g4);
    lemma_role_group_len(VPS_NAL_TYPE, v.video_parameter_sets);
    lemma_role_group_len(SPS_NAL_TYPE, v.sequence_parameter_sets);
    lemma_role_group_len(PPS_NAL_TYPE, v.picture_parameter_sets);
    lemma_role_group_len(SEI_NAL_TYPE, v.supplementary_enhancement_information);
    assert forall|id: u8| #[trigger] role_units(gs, id) == role_units(g1, id) + role_units(g2, id)
        + role_units(g3, id) + role_units(g4, id) by {
        lemma_role_units_concat(g1, g2, id);
        lemma_role_units_concat(g1 + g2, g3, id);
        lemma_role_units_concat(g1 + g2 + g3, g4, id);
    }
    lemma_role_units_group(VPS_NAL_TYPE, v.video_parameter_sets, VPS_NAL_TYPE);
    lemma_role_units_group(SPS_NAL_TYPE, v.sequence_parameter_sets, VPS_NAL_TYPE);
    lemma_role_units_group(PPS_NAL_TYPE, v.picture_parameter_sets, VPS_NAL_TYPE);
    lemma_role_units_group(SEI_NAL_TYPE, v.supplementary_enhancement_information, VPS_NAL_TYPE);
    lemma_role_units_group(VPS_NAL_TYPE, v.video_parameter_sets, SPS_NAL_TYPE);
    lemma_role_units_group(SPS_NAL_TYPE, v.sequence_parameter_sets, SPS_NAL_TYPE);
    lemma_role_units_group(PPS_NAL_TYPE, v.picture_parameter_sets, SPS_NAL_TYPE);
    lemma_role_units_group(SEI_NAL_TYPE, v.supplementary_enhancement_information, SPS_NAL_TYPE);
    lemma_role_units_group(VPS_NAL_TYPE, v.video_parameter_sets, PPS_NAL_TYPE);
    lemma_role_units_group(SPS_NAL_TYPE, v.sequence_parameter_sets, PPS_NAL_TYPE);
    lemma_role_units_group(PPS_NAL_TYPE, v.picture_parameter_sets, PPS_NAL_TYPE);
    lemma_role_units_group(SEI_NAL_TYPE, v.supplementary_enhancement_information, PPS_NAL_TYPE);
    lemma_role_units_group(VPS_NAL_TYPE, v.video_parameter_sets, SEI_NAL_TYPE);
    lemma_role_units_group(SPS_NAL_TYPE, v.sequence_parameter_sets, SEI_NAL_TYPE);
    lemma_role_units_group(PPS_NAL_TYPE, v.picture_parameter_sets, SEI_NAL_TYPE);
    lemma_role_units_group(SEI_NAL_TYPE, v.supplementary_enhancement_information, SEI_NAL_TYPE);
    assert(role_units(gs, VPS_NAL_TYPE) =~= v.video_parameter_sets);
    assert(role_units(gs, SPS_NAL_TYPE) =~= v.sequence_parameter_sets);
    assert(role_units(gs, PPS_NAL_TYPE) =~= v.picture_parameter_sets);
    assert(role_units(gs, SEI_NAL_TYPE) =~= v.supplementary_enhancement_information);
    assert(groups_fit(gs)) by {
        assert forall|i: int| 0 <= i < gs.len() implies 0 < #[trigger] gs[i].1.len() <= 0xFFFF
            && units_fit(gs[i].1) by {
            let a = g1.len() as int;
            let b = a + g2.len();
            let c = b + g3.len();
            if i < a {
                assert(gs[i] == g1[i]);
            } else if i < b {
                assert(gs[i] == g2[i - a]);
            } else if i < c {
                assert(gs[i] == g3[i - b]);
            } else {
                assert(gs[i] == g4[i - c]);
            }
        }
    }
}

/// Reading a packed byte back gives the value that was packed into it.
pub proof fn lemma_packed_bytes(c: u8, d: u8, n: u8, nested: bool)
    requires
        c <= 3,
        d <= 7,
        n <= 7,
    ensures
        chroma_byte(c) & 0x03 == c,
        depth_byte(d) & 0x07 == d,
        temporal_byte(n, nested) >> 3 == n,
        (temporal_byte(n, nested) & 0x04 == 0x04) == nested,
{
    assert((0xFCu8 | (c & 0x03u8)) & 0x03u8 == c) by (bit_vector)
        requires
            c <= 3,
    ;
    assert((0xF8u8 | (d & 0x07u8)) & 0x07u8 == d) by (bit_vector)
        requires
            d <= 7,
    ;
    let b: u8 = if nested {
        1
    } else {
        0
    };
    assert((((n & 0x07u8) << 3u8) | (b << 2u8) | 0x03u8) >> 3u8 == n) by (bit_vector)
        requires
            n <= 7,
            b <= 1,
    ;
    assert(((((n & 0x07u8) << 3u8) | (b << 2u8) | 0x03u8) & 0x04u8 == 0x04u8) == (b == 1)) by (bit_vector)
        requires
            b <= 1,
    ;
}

/// A valid record's payload reads back as the same record, and reading
/// stops right after it.
pub proof fn lemma_hvcc_round_trip(data: Seq<u8>, pos: int, v: HvcCView)
    requires
        v.valid(),
        0 <= pos,
        pos + v.payload().len() <= data.len(),
        data.subrange(pos, pos + v.payload().len()) == v.payload(),
    ensures
        parse_hvcc(data, pos) == Some((v, pos + v.payload().len())),
{
    let pl = v.payload();
    let n = pl.len() as int;
    let f = v.fixed_fields();
    let gs = v.groups();
    lemma_groups_of_record(v);
    assert(f.len() == FIXED_PAYLOAD_SIZE);
    assert forall|i: int| 0 <= i < FIXED_PAYLOAD_SIZE implies #[trigger] data[pos + i] == f[i] by {
        assert(data[pos + i] == data.subrange(pos, pos + n)[i]);
        assert(pl[i] == f[i]);
    }
    assert(data.subrange(pos + 23, pos + n) =~= data.subrange(pos, pos + n).subrange(23, n));
    assert(pl.subrange(23, n) =~= groups_bytes(gs));
    lemma_parse_groups_round_trip(data, pos + 23, gs);
    assert(data[pos + 22] == f[22]);
    assert(data.subrange(pos + 1, pos + 13) =~= v.general_configuration) by {
        assert forall|i: int| 0 <= i < 12 implies #[trigger] data.subrange(pos + 1, pos + 13)[i]
            == v.general_configuration[i] by {
            assert(data[pos + (1 + i)] == f[1 + i]);
            assert(f[1 + i] == v.general_configuration[i]);
        }
    }
    lemma_packed_bytes(
        v.chroma_idc,
        v.bit_depth_luma_minus8,
        v.num_temporal_layer,
        v.temporal_id_nested,
    );
    lemma_packed_bytes(
        v.chroma_idc,
        v.bit_depth_chroma_minus8,
        v.num_temporal_layer,
        v.temporal_id_nested,
    );
    assert(data[pos + 16] == f[16]);
    assert(data[pos + 17] == f[17]);
    assert(data[pos + 18] == f[18]);
    assert(data[pos + 21] == f[21]);
}

/// The bytes that the array of `units` takes on the wire.
fn role_size_of(units: &Vec<NalUnit>) -> (r: u64)
    requires
        units_fit(nal_views(units@)),
        units@.len() <= MAX_NAL_COUNT,
    ensures
        r == role_size(nal_views(units@)),
{
    if units.len() == 0 {
        return 0;
    }
    let ghost us = nal_views(units@);
    proof {
        lemma_units_size_bound(us);
        assert((2 + MAX_NAL_LEN) * us.len() <= (2 + MAX_NAL_LEN) * MAX_NAL_COUNT) by (nonlinear_arith)
            requires
                us.len() <= MAX_NAL_COUNT,
        ;
    }
    let mut size: u64 = 3;
    let mut i: usize = 0;
    assert(us.skip(0) =~= us);
    while i < units.len()
        invariant
            i <= units@.len(),
            us == nal_views(units@),
            units_fit(us),
            units_size(us) <= (2 + MAX_NAL_LEN) * MAX_NAL_COUNT,
            size + units_size(us.skip(i as int)) == 3 + units_size(us),
        decreases units@.len() - i,
    {
        assert(us.skip(i as int)[0] == units@[i as int]@);
        assert(us.skip(i as int).drop_first() =~= us.skip(i + 1));
        assert(units@[i as int]@.len() <= MAX_NAL_LEN);
        size = size + units[i].size() as u64;
        i = i + 1;
    }
    assert(us.skip(i as int) =~= Seq::<Seq<u8>>::empty());
    size
}

/// Appends the array of `units` under the type `id`; nothing where `units`
/// is empty.
fn write_group(id: u8, units: &Vec<NalUnit>, out: &mut Vec<u8>)
    requires
        units_fit(nal_views(units@)),
        units@.len() <= MAX_NAL_COUNT,
    ensures
        final(out)@ == old(out)@ + groups_bytes(role_group(id, nal_views(units@))),
{
    let ghost us = nal_views(units@);
    let ghost g = (id, us);
    if units.len() == 0 {
        assert(role_group(id, us) =~= Seq::<(u8, Seq<Seq<u8>>)>::empty());
        assert(final(out)@ =~= old(out)@ + groups_bytes(role_group(id, us)));
        return;
    }
    out.push(id);
    push_u16(out, units.len() as u16);
    write_units(units, out);
    assert(role_group(id, us) == seq![g]);
    assert(seq![g].last() == g);
    assert(role_group(id, us).drop_last() =~= Seq::<(u8, Seq<Seq<u8>>)>::empty());
    assert(groups_bytes(Seq::<(u8, Seq<Seq<u8>>)>::empty()) =~= Seq::<u8>::empty());
    assert(groups_bytes(seq![g]) =~= group_bytes(g));
    assert(final(out)@ =~= old(out)@ + groups_bytes(role_group(id, us)));
}

impl HvcCBox {
    /// Appends the payload's fields before the unit arrays.
    fn write_fixed(&self, out: &mut Vec<u8>)
        requires
            self@.well_sized(),
        ensures
            final(out)@ == old(out)@ + self@.fixed_fields(),
    {
        out.push(1u8);
        push_all(out, self.general_configuration.as_slice());
        push_u16(out, 0xF000);
        out.push(0xFCu8);
        out.push(0xFC | (self.chroma_idc & 0x03));
        out.push(0xF8 | (self.bit_depth_luma_minus8 & 0x07));
        out.push(0xF8 | (self.bit_depth_chroma_minus8 & 0x07));
        push_u16(out, 0);
        let nested: u8 = if self.temporal_id_nested {
            1
        } else {
            0
        };
        out.push(((self.num_temporal_layer & 0x07) << 3) | (nested << 2) | 0x03);
        let total = self.video_parameter_sets.len() + self.sequence_parameter_sets.len()
            + self.picture_parameter_sets.len() + self.supplementary_enhancement_information.len();
        out.push(total as u8);
        let ghost v = self@;
        assert(temporal_byte(v.num_temporal_layer, v.temporal_id_nested) == ((
        self.num_temporal_layer & 0x07) << 3) | (nested << 2) | 0x03);
        assert(final(out)@ =~= old(out)@ + v.fixed_fields());
    }

    /// A record with the given units in each role, in the order given; the
    /// other fields are zero.
    pub fn new(vps: Vec<&[u8]>, sps: Vec<&[u8]>, pps: Vec<&[u8]>, sei: Vec<&[u8]>) -> (r: HvcCBox)
        ensures
            r@.general_configuration == Seq::new(12, |_i: int| 0u8),
            r@.num_temporal_layer == 0,
            r@.chroma_idc == 0,
            r@.bit_depth_luma_minus8 == 0,
            r@.bit_depth_chroma_minus8 == 0,
            !r@.temporal_id_nested,
            r@.video_parameter_sets == vps@.map_values(|b: &[u8]| b@),
            r@.sequence_parameter_sets == sps@.map_values(|b: &[u8]| b@),
            r@.picture_parameter_sets == pps@.map_values(|b: &[u8]| b@),
            r@.supplementary_enhancement_information == sei@.map_values(|b: &[u8]| b@),
    {
        let r = HvcCBox {
            general_configuration: [0u8; 12],
            num_temporal_layer: 0,
            chroma_idc: 0,
            bit_depth_luma_minus8: 0,
            bit_depth_chroma_minus8: 0,
            temporal_id_nested: false,
            video_parameter_sets: units_of(&vps),
            sequence_parameter_sets: units_of(&sps),
            picture_parameter_sets: units_of(&pps),
            supplementary_enhancement_information: units_of(&sei),
        };
        assert(r@.general_configuration =~= Seq::new(12, |_i: int| 0u8));
        r
    }

    pub fn box_type(&self) -> (r: BoxType)
        ensures
            r == BoxType::HvcCBox,
    {
        BoxType::HvcCBox
    }

    /// The size of the record's box, header included.
    pub fn box_size(&self) -> (r: u64)
        requires
            self@.well_sized(),
        ensures
            r == self@.size(),
    {
        proof {
            lemma_size_bound(self@);
        }
        HEADER_SIZE + FIXED_PAYLOAD_SIZE + role_size_of(&self.video_parameter_sets) + role_size_of(
            &self.sequence_parameter_sets,
        ) + role_size_of(&self.picture_parameter_sets) + role_size_of(
            &self.supplementary_enhancement_information,
        )
    }

    /// Appends the record's box to `out` and returns its size.
    pub fn write_box(&self, out: &mut Vec<u8>) -> (r: u64)
        requires
            self@.well_sized(),
        ensures
            final(out)@ == old(out)@ + self@.encoding(),
            r == self@.size(),
    {
        let size = self.box_size();
        proof {
            lemma_size_bound(self@);
        }
        BoxHeader::new(self.box_type(), size).write(out);
        self.write_fixed(out);
        let ghost fixed = out@;
        write_group(VPS_NAL_TYPE, &self.video_parameter_sets, out);
        write_group(SPS_NAL_TYPE, &self.sequence_parameter_sets, out);
        write_group(PPS_NAL_TYPE, &self.picture_parameter_sets, out);
        write_group(SEI_NAL_TYPE, &self.supplementary_enhancement_information, out);
        proof {
            let v = self@;
            let g1 = role_group(VPS_NAL_TYPE, v.video_parameter_sets);
            let g2 = role_group(SPS_NAL_TYPE, v.sequence_parameter_sets);
            let g3 = role_group(PPS_NAL_TYPE, v.picture_parameter_sets);
            let g4 = role_group(SEI_NAL_TYPE, v.supplementary_enhancement_information);
            lemma_groups_bytes_concat(g1, g2);
            lemma_groups_bytes_concat(g1 + g2, g3);
            lemma_groups_bytes_concat(g1 + g2 + g3, g4);
            assert(out@ =~= fixed + groups_bytes(v.groups()));
            assert(final(out)@ =~= old(out)@ + v.encoding());
        }
        size
    }
}

impl HvcCBox {
    /// Decodes a record's payload at `pos`: the record and the position where
    /// decoding stopped, or `UnexpectedEof` where the data ends first.
    pub fn parse(data: &[u8], pos: usize) -> (r: Result<(HvcCBox, usize), Error>)
        requires
            pos <= data@.len(),
        ensures
            match parse_hvcc(data@, pos as int) {
                None => r == Err::<(HvcCBox, usize), Error>(Error::UnexpectedEof),
                Some((v, end)) => r matches Ok((b, e)) && b@ == v && e == end,
            },
    {
        if data.len() - pos < 23 {
            return Err(Error::UnexpectedEof);
        }
        let general_configuration: [u8; 12] = [
            data[pos + 1],
            data[pos + 2],
            data[pos + 3],
            data[pos + 4],
            data[pos + 5],
            data[pos + 6],
            data[pos + 7],
            data[pos + 8],
            data[pos + 9],
            data[pos + 10],
            data[pos + 11],
            data[pos + 12],
        ];
        assert(general_configuration@ =~= data@.subrange(pos + 1, pos + 13));
        let chroma_idc = data[pos + 16] & 0x03;
        let bit_depth_luma_minus8 = data[pos + 17] & 0x07;
        let bit_depth_chroma_minus8 = data[pos + 18] & 0x07;
        let stc = data[pos + 21];
        let num_temporal_layer = stc >> 3;
        let temporal_id_nested = (stc & 0x04) == 0x04;
        let total = data[pos + 22] as u32;
        let mut vps: Vec<NalUnit> = Vec::new();
        let mut sps: Vec<NalUnit> = Vec::new();
        let mut pps: Vec<NalUnit> = Vec::new();
        let mut sei: Vec<NalUnit> = Vec::new();
        let ghost start = pos + 23;
        let ghost mut gs: Seq<(u8, Seq<Seq<u8>>)> = Seq::empty();
        let mut p: usize = pos + 23;
        let mut consumed: u32 = 0;
        while consumed < total
            invariant
                start <= p <= data@.len(),
                start == pos + FIXED_PAYLOAD_SIZE,
                total == data@[pos + 22] as u32,
                pos + FIXED_PAYLOAD_SIZE <= data@.len(),
                total <= 255,
                consumed < total + 0x1_0000,
                parse_groups(data@, start, total as int) == match parse_groups(
                    data@,
                    p as int,
                    total - consumed,
                ) {
                    None => None,
                    Some((rest, end)) => Some((gs + rest, end)),
                },
                nal_views(vps@) == role_units(gs, VPS_NAL_TYPE),
                nal_views(sps@) == role_units(gs, SPS_NAL_TYPE),
                nal_views(pps@) == role_units(gs, PPS_NAL_TYPE),
                nal_views(sei@) == role_units(gs, SEI_NAL_TYPE),
            decreases data@.len() - p,
        {
            if data.len() - p < 3 {
                assert(parse_groups(data@, p as int, total - consumed) is None);
                return Err(Error::UnexpectedEof);
            }
            let id = data[p];
            let n = read_u16_at(data, p + 1);
            proof {
                lemma_parse_units_within(data@, p + 3, n as nat);
            }
            let (mut units, next) = match read_units(data, p + 3, n) {
                Err(e) => {
                    assert(parse_groups(data@, p as int, total - consumed) is None);
                    return Err(e);
                },
                Ok(x) => x,
            };
            let ghost g = (id, nal_views(units@));
            let ghost old_vps = vps@;
            let ghost old_sps = sps@;
            let ghost old_pps = pps@;
            let ghost old_sei = sei@;
            if id == VPS_NAL_TYPE {
                vps.append(&mut units);
            } else if id == SPS_NAL_TYPE {
                sps.append(&mut units);
            } else if id == PPS_NAL_TYPE {
                pps.append(&mut units);
            } else if id == SEI_NAL_TYPE {
                sei.append(&mut units);
            }
            proof {
                let gs2 = gs.push(g);
                assert(gs2.drop_last() =~= gs);
                assert(gs2.last() == g);
                assert(nal_views(vps@) =~= role_units(gs2, VPS_NAL_TYPE));
                assert(nal_views(sps@) =~= role_units(gs2, SPS_NAL_TYPE));
                assert(nal_views(pps@) =~= role_units(gs2, PPS_NAL_TYPE));
                assert(nal_views(sei@) =~= role_units(gs2, SEI_NAL_TYPE));
                match parse_groups(data@, next as int, total - consumed - n) {
                    None => {},
                    Some((rest, end)) => {
                        assert(gs + (seq![g] + rest) =~= gs2 + rest);
                    },
                }
                gs = gs2;
            }
            consumed = consumed + n as u32;
            p = next;
        }
        assert(gs + Seq::<(u8, Seq<Seq<u8>>)>::empty() =~= gs);
        let b = HvcCBox {
            general_configuration,
            num_temporal_layer,
            chroma_idc,
            bit_depth_luma_minus8,
            bit_depth_chroma_minus8,
            temporal_id_nested,
            video_parameter_sets: vps,
            sequence_parameter_sets: sps,
            picture_parameter_sets: pps,
            supplementary_enhancement_information: sei,
        };
        Ok((b, p))
    }

    /// Decodes the record whose box header ends at `pos` and declares `size`
    /// bytes: the record and the position `size` bytes after the header's
    /// start, whatever the payload took; or `UnexpectedEof` where the data
    /// ends first.
    pub fn read_box(data: &[u8], pos: usize, size: u64) -> (r: Result<(HvcCBox, u64), Error>)
        requires
            HEADER_SIZE <= pos <= data@.len(),
            pos - HEADER_SIZE + size <= u64::MAX,
        ensures
            match parse_hvcc(data@, pos as int) {
                None => r == Err::<(HvcCBox, u64), Error>(Error::UnexpectedEof),
                Some((v, _)) => r matches Ok((b, e)) && b@ == v && e == pos - HEADER_SIZE + size,
            },
    {
        let start = pos as u64 - HEADER_SIZE;
        match HvcCBox::parse(data, pos) {
            Err(e) => Err(e),
            Ok((b, _)) => Ok((b, start + size)),
        }
    }
}

/// One unit for each slice of `parts`, in order.
fn units_of(parts: &Vec<&[u8]>) -> (r: Vec<NalUnit>)
    ensures
        nal_views(r@) == parts@.map_values(|b: &[u8]| b@),
{
    let mut r: Vec<NalUnit> = Vec::new();
    let mut i: usize = 0;
    while i < parts.len()
        invariant
            i <= parts@.len(),
            nal_views(r@) =~= parts@.subrange(0, i as int).map_values(|b: &[u8]| b@),
        decreases parts@.len() - i,
    {
        let ghost before = r@;
        r.push(NalUnit::new(parts[i]));
        assert(nal_views(r@) =~= nal_views(before).push(parts@[i as int]@));
        assert(parts@.subrange(0, i + 1) =~= parts@.subrange(0, i as int).push(parts@[i as int]));
        i = i + 1;
    }
    assert(parts@.subrange(0, parts@.len() as int) =~= parts@);
    r
}

} // verus!
