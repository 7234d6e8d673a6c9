use crate::bytes::{be16, be16_at, be32, be32_at, push_u16, push_u32, push_zeros, read_u16_at, read_u32_at};
use crate::fixed::FixedPointU16;
use crate::header::{header_bytes, BoxHeader, BoxType, Error, HEADER_SIZE, HVC1_TAG, HVCC_TAG};
use crate::hvcc::{parse_hvcc, HvcCBox, HvcCView};
use vstd::prelude::*;

verus! {

/// The bytes of a sample entry between its header and its `hvcC` box.
pub const SAMPLE_ENTRY_FIXED_SIZE: u64 = 78;

/// The integer part of the default resolution: 1.0 in 16.16 fixed point.
pub const DEFAULT_RESOLUTION: u16 = 1;

/// The default colour depth, 24 bits.
pub const DEFAULT_DEPTH: u16 = 0x0018;

/// What a sample entry is built from: the picture size and the raw parameter
/// sets of each role.
#[derive(Debug, Clone, PartialEq, Eq, Default)]
pub struct HvcConfig {
    pub width: u16,
    pub height: u16,
    pub video_param_sets: Vec<Vec<u8>>,
    pub seq_param_sets: Vec<Vec<u8>>,
    pub pic_param_sets: Vec<Vec<u8>>,
    pub supplementary_enhancement_information: Vec<Vec<u8>>,
}

/// The HEVC visual sample entry (`hvc1`).
#[derive(Debug, Clone, PartialEq, Eq)]
pub struct Hvc1Box {
    pub data_reference_index: u16,
    pub width: u16,
    pub height: u16,
    pub horizresolution: FixedPointU16,
    pub vertresolution: FixedPointU16,
    pub frame_count: u16,
    pub depth: u16,
    pub hvcc: HvcCBox,
}

/// The mathematical content of an `Hvc1Box`; resolutions as raw bits.
pub struct Hvc1View {
    pub data_reference_index: u16,
    pub width: u16,
    pub height: u16,
    pub horizresolution: u32,
    pub vertresolution: u32,
    pub frame_count: u16,
    pub depth: u16,
    pub hvcc: HvcCView,
}

impl View for Hvc1Box {
    type V = Hvc1View;

    open spec fn view(&self) -> Hvc1View {
        Hvc1View {
            data_reference_index: self.data_reference_index,
            width: self.width,
            height: self.height,
            horizresolution: self.horizresolution@,
            vertresolution: self.vertresolution@,
            frame_count: self.frame_count,
            depth: self.depth,
            hvcc: self.hvcc@,
        }
    }
}

/// The raw contents of each byte string of `v`, in order.
pub open spec fn byte_views(v: Seq<Vec<u8>>) -> Seq<Seq<u8>> {
    v.map_values(|b: Vec<u8>| b@)
}

impl Hvc1View {
    /// The size of the sample entry's box, header included.
    pub open spec fn size(self) -> nat {
        (HEADER_SIZE + SAMPLE_ENTRY_FIXED_SIZE + self.hvcc.size()) as nat
    }

    /// The fields between the header and the `hvcC` box.
    #[verifier::opaque]
    pub open spec fn fixed_fields(self) -> Seq<u8> {
        be32(0) + be16(0) + be16(self.data_reference_index) + be32(0) + be32(0) + be32(0) + be32(0)
            + be16(self.width) + be16(self.height) + be32(self.horizresolution) + be32(
            self.vertresolution,
        ) + be32(0) + be16(self.frame_count) + Seq::new(32, |_i: int| 0u8) + be16(self.depth)
            + be16(0xFFFF)
    }

    /// The sample entry's box: header, fixed fields, then the `hvcC` box.
    pub open spec fn encoding(self) -> Seq<u8> {
        header_bytes(self.size() as u32, HVC1_TAG) + self.fixed_fields() + self.hvcc.encoding()
    }
}

/// The fixed fields of a sample entry take `SAMPLE_ENTRY_FIXED_SIZE` bytes.
pub proof fn lemma_fixed_fields_len(v: Hvc1View)
    ensures
        v.fixed_fields().len() == SAMPLE_ENTRY_FIXED_SIZE,
{
    reveal(Hvc1View::fixed_fields);
    assert(Seq::new(32, |_i: int| 0u8).len() == 32);
}

/// Decodes a sample entry whose header ends at `pos`: `UnexpectedEof` where
/// the data ends first, `InvalidData` where the box after the fixed fields
/// is not an `hvcC` box.
pub open spec fn decode_hvc1(data: Seq<u8>, pos: int) -> Result<Hvc1View, Error> {
    let c = pos + SAMPLE_ENTRY_FIXED_SIZE;
    if pos < 0 || c + HEADER_SIZE > data.len() {
        Err(Error::UnexpectedEof)
    } else if be32_at(data, c + 4) != HVCC_TAG {
        Err(Error::InvalidData)
    } else {
        match parse_hvcc(data, c + HEADER_SIZE) {
            None => Err(Error::UnexpectedEof),
            Some((hvcc, _)) => Ok(
                Hvc1View {
                    data_reference_index: be16_at(data, pos + 6),
                    width: be16_at(data, pos + 24),
                    height: be16_at(data, pos + 26),
                    horizresolution: be32_at(data, pos + 28),
                    vertresolution: be32_at(data, pos + 32),
                    frame_count: be16_at(data, pos + 40),
                    depth: be16_at(data, pos + 74),
                    hvcc,
                },
            ),
        }
    }
}

/// Borrows each byte string of `v`, in order.
fn slices_of(v: &Vec<Vec<u8>>) -> (r: Vec<&[u8]>)
    ensures
        r@.map_values(|b: &[u8]| b@) == byte_views(v@),
{
    let mut r: Vec<&[u8]> = Vec::new();
    let mut i: usize = 0;
    while i < v.len()
        invariant
            i <= v@.len(),
            r@.map_values(|b: &[u8]| b@) =~= byte_views(v@.subrange(0, i as int)),
        decreases v@.len() - i,
    {
        let ghost before = r@;
        r.push(v[i].as_slice());
        assert(r@.map_values(|b: &[u8]| b@) =~= before.map_values(|b: &[u8]| b@).push(v@[i as int]@));
        assert(v@.subrange(0, i + 1) =~= v@.subrange(0, i as int).push(v@[i as int]));
        i = i + 1;
    }
    assert(v@.subrange(0, v@.len() as int) =~= v@);
    r
}

impl Hvc1Box {
    /// A sample entry of the configured size whose record holds each
    /// configured parameter set, role by role, in order; the other fields
    /// take their defaults.
    pub fn new(config: &HvcConfig) -> (r: Hvc1Box)
        ensures
            r@.data_reference_index == 1,
            r@.width == config.width,
            r@.height == config.height,
            r@.horizresolution == 0x0001_0000,
            r@.vertresolution == 0x0001_0000,
            r@.frame_count == 1,
            r@.depth == DEFAULT_DEPTH,
            r@.hvcc.general_configuration == Seq::new(12, |_i: int| 0u8),
            r@.hvcc.num_temporal_layer == 0,
            r@.hvcc.chroma_idc == 0,
            r@.hvcc.bit_depth_luma_minus8 == 0,
            r@.hvcc.bit_depth_chroma_minus8 == 0,
            !r@.hvcc.temporal_id_nested,
            r@.hvcc.video_parameter_sets == byte_views(config.video_param_sets@),
            r@.hvcc.sequence_parameter_sets == byte_views(config.seq_param_sets@),
            r@.hvcc.picture_parameter_sets == byte_views(config.pic_param_sets@),
            r@.hvcc.supplementary_enhancement_information == byte_views(
                config.supplementary_enhancement_information@,
            ),
    {
        Hvc1Box {
            data_reference_index: 1,
            width: config.width,
            height: config.height,
            horizresolution: FixedPointU16::new(DEFAULT_RESOLUTION),
            vertresolution: FixedPointU16::new(DEFAULT_RESOLUTION),
            frame_count: 1,
            depth: DEFAULT_DEPTH,
            hvcc: HvcCBox::new(
                slices_of(&config.video_param_sets),
                slices_of(&config.seq_param_sets),
                slices_of(&config.pic_param_sets),
                slices_of(&config.supplementary_enhancement_information),
            ),
        }
    }

    pub fn get_type(&self) -> (r: BoxType)
        ensures
            r == BoxType::Hvc1Box,
    {
        BoxType::Hvc1Box
    }

    /// The size of the sample entry's box, header included.
    pub fn get_size(&self) -> (r: u64)
        requires
            self@.hvcc.well_sized(),
        ensures
            r == self@.size(),
    {
        proof {
            crate::hvcc::lemma_size_bound(self@.hvcc);
        }
        HEADER_SIZE + SAMPLE_ENTRY_FIXED_SIZE + self.hvcc.box_size()
    }

    /// Appends the fields between the header and the `hvcC` box.
    fn write_fixed(&self, out: &mut Vec<u8>)
        ensures
            final(out)@ == old(out)@ + self@.fixed_fields(),
    {
        push_u32(out, 0);
        push_u16(out, 0);
        push_u16(out, self.data_reference_index);
        push_u32(out, 0);
        push_u32(out, 0);
        push_u32(out, 0);
        push_u32(out, 0);
        push_u16(out, self.width);
        push_u16(out, self.height);
        push_u32(out, self.horizresolution.raw_value());
        push_u32(out, self.vertresolution.raw_value());
        push_u32(out, 0);
        push_u16(out, self.frame_count);
        push_zeros(out, 32);
        push_u16(out, self.depth);
        push_u16(out, 0xFFFF);
        reveal(Hvc1View::fixed_fields);
        assert(final(out)@ =~= old(out)@ + self@.fixed_fields());
    }

    /// Appends the sample entry's box to `out` and returns its size.
    pub fn write_box(&self, out: &mut Vec<u8>) -> (r: u64)
        requires
            self@.hvcc.well_sized(),
        ensures
            final(out)@ == old(out)@ + self@.encoding(),
            r == self@.size(),
    {
        let size = self.get_size();
        proof {
            crate::hvcc::lemma_size_bound(self@.hvcc);
        }
        BoxHeader::new(self.get_type(), size).write(out);
        self.write_fixed(out);
        self.hvcc.write_box(out);
        assert(final(out)@ =~= old(out)@ + self@.encoding());
        size
    }

    /// Decodes the sample entry whose box header ends at `pos` and declares
    /// `size` bytes: the entry and the position `size` bytes after the
    /// header's start; `UnexpectedEof` where the data ends first;
    /// `InvalidData` where the box after the fixed fields is not an `hvcC`
    /// box.
    pub fn read_box(data: &[u8], pos: usize, size: u64) -> (r: Result<(Hvc1Box, u64), Error>)
        requires
            HEADER_SIZE <= pos <= data@.len(),
            pos - HEADER_SIZE + size <= u64::MAX,
        ensures
            match decode_hvc1(data@, pos as int) {
                Err(e) => r == Err::<(Hvc1Box, u64), Error>(e),
                Ok(v) => r matches Ok((b, end)) && b@ == v && end == pos - HEADER_SIZE + size,
            },
    {
        let start = pos as u64 - HEADER_SIZE;
        if data.len() - pos < 78 {
            return Err(Error::UnexpectedEof);
        }
        let data_reference_index = read_u16_at(data, pos + 6);
        let width = read_u16_at(data, pos + 24);
        let height = read_u16_at(data, pos + 26);
        let horizresolution = FixedPointU16::new_raw(read_u32_at(data, pos + 28));
        let vertresolution = FixedPointU16::new_raw(read_u32_at(data, pos + 32));
        let frame_count = read_u16_at(data, pos + 40);
        let depth = read_u16_at(data, pos + 74);
        let header = match BoxHeader::read(data, pos + 78) {
            Err(e) => {
                return Err(e);
            },
            Ok(h) => h,
        };
        if header.name != BoxType::HvcCBox {
            return Err(Error::InvalidData);
        }
        let hvcc = match HvcCBox::parse(data, pos + 86) {
            Err(e) => {
                return Err(e);
            },
            Ok((c, _)) => c,
        };
        Ok(
            (
                Hvc1Box {
                    data_reference_index,
                    width,
                    height,
                    horizresolution,
                    vertresolution,
                    frame_count,
                    depth,
                    hvcc,
                },
                start + size,
            ),
        )
    }
}

impl Default for Hvc1Box {
    fn default() -> (r: Hvc1Box)
        ensures
            r@.data_reference_index == 0,
            r@.width == 0,
            r@.height == 0,
            r@.horizresolution == 0x0001_0000,
            r@.vertresolution == 0x0001_0000,
            r@.frame_count == 1,
            r@.depth == DEFAULT_DEPTH,
            r@.hvcc.general_configuration == Seq::new(12, |_i: int| 0u8),
            r@.hvcc.num_temporal_layer == 0,
            r@.hvcc.chroma_idc == 0,
            r@.hvcc.bit_depth_luma_minus8 == 0,
            r@.hvcc.bit_depth_chroma_minus8 == 0,
            !r@.hvcc.temporal_id_nested,
            r@.hvcc.total_units() == 0,
    {
        Hvc1Box {
            data_reference_index: 0,
            width: 0,
            height: 0,
            horizresolution: FixedPointU16::new(DEFAULT_RESOLUTION),
            vertresolution: FixedPointU16::new(DEFAULT_RESOLUTION),
            frame_count: 1,
            depth: DEFAULT_DEPTH,
            hvcc: HvcCBox::new(Vec::new(), Vec::new(), Vec::new(), Vec::new()),
        }
    }
}

} // verus!
