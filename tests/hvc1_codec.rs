use mp4box::bytes::{push_u16, push_u32, read_u16_at, read_u32_at};
use mp4box::{BoxHeader, BoxType, Error, FixedPointU16, Hvc1Box, HvcCBox, HvcConfig, NalUnit};

fn sps() -> Vec<u8> {
    vec![
        0x67, 0x64, 0x00, 0x0D, 0xAC, 0xD9, 0x41, 0x41, 0xFA, 0x10, 0x00, 0x00, 0x03, 0x00, 0x10,
        0x00, 0x00, 0x03, 0x03, 0x20, 0xF1, 0x42, 0x99, 0x60,
    ]
}

fn pps() -> Vec<u8> {
    vec![0x68, 0xEB, 0xE3, 0xCB, 0x22, 0xC0]
}

fn worked_config() -> HvcConfig {
    HvcConfig {
        width: 1920,
        height: 1080,
        video_param_sets: vec![],
        seq_param_sets: vec![sps()],
        pic_param_sets: vec![pps()],
        supplementary_enhancement_information: vec![],
    }
}

fn encode(b: &Hvc1Box) -> Vec<u8> {
    let mut buf = Vec::new();
    let n = b.write_box(&mut buf);
    assert_eq!(n as usize, buf.len());
    buf
}

fn decode(buf: &[u8]) -> Result<Hvc1Box, Error> {
    let header = BoxHeader::read(buf, 0)?;
    assert_eq!(header.name, BoxType::Hvc1Box);
    let (b, end) = Hvc1Box::read_box(buf, 8, header.size)?;
    assert_eq!(end, header.size);
    Ok(b)
}

fn full_box() -> Hvc1Box {
    let mut b = Hvc1Box::new(&HvcConfig {
        width: 320,
        height: 240,
        video_param_sets: vec![vec![0x40, 0x01, 0x0C]],
        seq_param_sets: vec![sps(), vec![0x42, 0x01]],
        pic_param_sets: vec![pps()],
        supplementary_enhancement_information: vec![vec![0x4E, 0x01, 0x05, 0xFF], vec![]],
    });
    b.hvcc.general_configuration = [1, 2, 3, 4, 5, 6, 7, 8, 9, 10, 11, 12];
    b.hvcc.num_temporal_layer = 5;
    b.hvcc.chroma_idc = 2;
    b.hvcc.bit_depth_luma_minus8 = 6;
    b.hvcc.bit_depth_chroma_minus8 = 1;
    b.hvcc.temporal_id_nested = true;
    b
}

#[test]
fn worked_example_sizes() {
    let b = Hvc1Box::new(&worked_config());
    assert_eq!(b.hvcc.box_size(), 8 + 23 + 3 + (2 + 24) + 3 + (2 + 6));
    assert_eq!(b.hvcc.box_size(), 8 + 63);
    assert_eq!(b.get_size(), 8 + 8 + 70 + (8 + 63));
    let buf = encode(&b);
    assert_eq!(buf.len() as u64, b.get_size());
}

#[test]
fn worked_example_round_trip() {
    let b = Hvc1Box::new(&worked_config());
    let buf = encode(&b);
    let d = decode(&buf).unwrap();
    assert_eq!(d, b);
    assert_eq!(d.width, 1920);
    assert_eq!(d.height, 1080);
    assert_eq!(d.hvcc.sequence_parameter_sets, vec![NalUnit { bytes: sps() }]);
    assert_eq!(d.hvcc.picture_parameter_sets, vec![NalUnit { bytes: pps() }]);
    assert!(d.hvcc.video_parameter_sets.is_empty());
    assert!(d.hvcc.supplementary_enhancement_information.is_empty());
    assert_eq!(encode(&d).len(), buf.len());
}

#[test]
fn new_takes_defaults() {
    let b = Hvc1Box::new(&worked_config());
    assert_eq!(b.data_reference_index, 1);
    assert_eq!(b.horizresolution.raw_value(), 0x0001_0000);
    assert_eq!(b.vertresolution.raw_value(), 0x0001_0000);
    assert_eq!(b.vertresolution.value(), 1);
    assert_eq!(b.frame_count, 1);
    assert_eq!(b.depth, 0x0018);
    assert_eq!(b.get_type(), BoxType::Hvc1Box);
    assert_eq!(b.hvcc.box_type(), BoxType::HvcCBox);
    let d = Hvc1Box::default();
    assert_eq!(d.data_reference_index, 0);
    assert_eq!(d.horizresolution.raw_value(), 0x0001_0000);
    assert_eq!(d.vertresolution.raw_value(), 0x0001_0000);
    assert_eq!(d.frame_count, 1);
    assert_eq!(d.hvcc, HvcCBox::default());
}

#[test]
fn round_trip_all_roles_and_fields() {
    let b = full_box();
    let buf = encode(&b);
    assert_eq!(decode(&buf).unwrap(), b);
}

#[test]
fn order_within_role_is_kept() {
    let units: Vec<Vec<u8>> = (0u8..10).map(|i| vec![i; i as usize]).collect();
    let b = Hvc1Box::new(&HvcConfig {
        width: 16,
        height: 16,
        video_param_sets: vec![],
        seq_param_sets: units.clone(),
        pic_param_sets: vec![],
        supplementary_enhancement_information: vec![],
    });
    let d = decode(&encode(&b)).unwrap();
    let got: Vec<Vec<u8>> = d.hvcc.sequence_parameter_sets.iter().map(|u| u.bytes.clone()).collect();
    assert_eq!(got, units);
}

#[test]
fn encoded_record_layout() {
    let b = full_box();
    let mut buf = Vec::new();
    b.hvcc.write_box(&mut buf);
    assert_eq!(&buf[4..8], b"hvcC");
    assert_eq!(buf[8], 1);
    assert_eq!(&buf[9..21], &[1, 2, 3, 4, 5, 6, 7, 8, 9, 10, 11, 12]);
    assert_eq!(&buf[21..24], &[0xF0, 0x00, 0xFC]);
    assert_eq!(buf[24], 0xFE);
    assert_eq!(buf[25], 0xFE);
    assert_eq!(buf[26], 0xF9);
    assert_eq!(&buf[27..29], &[0, 0]);
    assert_eq!(buf[29], (5 << 3) | 0x04 | 0x03);
    assert_eq!(buf[30], 6);
    assert_eq!(&buf[31..34], &[32, 0, 1]);
    assert_eq!(&buf[34..39], &[0, 3, 0x40, 0x01, 0x0C]);
    assert_eq!(buf[39], 33);
}

#[test]
fn empty_roles_are_omitted() {
    let b = Hvc1Box::new(&worked_config());
    let mut buf = Vec::new();
    b.hvcc.write_box(&mut buf);
    assert_eq!(buf[30], 2);
    assert_eq!(&buf[31..34], &[33, 0, 1]);
    let pps_at = 34 + 2 + 24;
    assert_eq!(&buf[pps_at..pps_at + 3], &[34, 0, 1]);
    assert_eq!(buf.len(), pps_at + 3 + 2 + 6);
}

#[test]
fn empty_record_has_no_arrays() {
    let b = HvcCBox::new(vec![], vec![], vec![], vec![]);
    let mut buf = Vec::new();
    assert_eq!(b.write_box(&mut buf), 31);
    assert_eq!(buf.len(), 31);
    assert_eq!(buf[30], 0);
    let (d, end) = HvcCBox::read_box(&buf, 8, 31).unwrap();
    assert_eq!(d, b);
    assert_eq!(end, 31);
}

fn record_payload(chroma: u8, luma: u8, chroma_depth: u8, stc: u8) -> Vec<u8> {
    let mut p = vec![1u8];
    p.extend_from_slice(&[0; 12]);
    p.extend_from_slice(&[0xF0, 0x00, 0xFC, chroma, luma, chroma_depth, 0, 0, stc, 0]);
    p
}

#[test]
fn packed_bytes_are_masked() {
    let p = record_payload(0xFF, 0xFF, 0xFF, 0xFF);
    let (d, end) = HvcCBox::parse(&p, 0).unwrap();
    assert_eq!(end, 23);
    assert_eq!(d.chroma_idc, 3);
    assert_eq!(d.bit_depth_luma_minus8, 7);
    assert_eq!(d.bit_depth_chroma_minus8, 7);
    assert_eq!(d.num_temporal_layer, 31);
    assert!(d.temporal_id_nested);
    let p = record_payload(0xFD, 0xFA, 0x0B, 0x13);
    let (d, _) = HvcCBox::parse(&p, 0).unwrap();
    assert_eq!(d.chroma_idc, 1);
    assert_eq!(d.bit_depth_luma_minus8, 2);
    assert_eq!(d.bit_depth_chroma_minus8, 3);
    assert_eq!(d.num_temporal_layer, 2);
    assert!(!d.temporal_id_nested);
}

#[test]
fn unknown_array_types_are_skipped() {
    let mut p = record_payload(0xFC, 0xF8, 0xF8, 0x03);
    p[22] = 3;
    p.extend_from_slice(&[40, 0, 1, 0, 2, 0xAA, 0xBB]);
    p.extend_from_slice(&[33, 0, 2, 0, 1, 0x11, 0, 0]);
    p.extend_from_slice(&[0xEE]);
    let (d, end) = HvcCBox::parse(&p, 0).unwrap();
    assert_eq!(end, p.len() - 1);
    assert_eq!(
        d.sequence_parameter_sets,
        vec![NalUnit { bytes: vec![0x11] }, NalUnit { bytes: vec![] }]
    );
    assert!(d.video_parameter_sets.is_empty());
    assert!(d.picture_parameter_sets.is_empty());
    assert!(d.supplementary_enhancement_information.is_empty());
}

#[test]
fn decoding_stops_at_declared_total() {
    let mut p = record_payload(0xFC, 0xF8, 0xF8, 0x03);
    p[22] = 1;
    p.extend_from_slice(&[32, 0, 2, 0, 1, 0x01, 0, 1, 0x02]);
    p.extend_from_slice(&[34, 0, 1, 0, 1, 0x03]);
    let (d, end) = HvcCBox::parse(&p, 0).unwrap();
    assert_eq!(d.video_parameter_sets.len(), 2);
    assert!(d.picture_parameter_sets.is_empty());
    assert_eq!(end, 23 + 9);
}

#[test]
fn nested_type_mismatch_is_invalid_data() {
    let mut buf = encode(&Hvc1Box::new(&worked_config()));
    buf[90..94].copy_from_slice(b"avcC");
    assert_eq!(decode(&buf), Err(Error::InvalidData));
}

#[test]
fn truncated_stream_is_eof() {
    let buf = encode(&full_box());
    for cut in [0usize, 10, 85, 93, 100, buf.len() - 1] {
        let short = &buf[..cut.max(8)];
        assert_eq!(
            Hvc1Box::read_box(short, 8, buf.len() as u64).map(|r| r.0),
            Err(Error::UnexpectedEof)
        );
    }
}

#[test]
fn short_unit_is_eof_not_truncated() {
    let data = [0u8, 4, 1, 2, 3];
    assert_eq!(NalUnit::read(&data, 0), Err(Error::UnexpectedEof));
    assert_eq!(NalUnit::read(&data[..1], 0), Err(Error::UnexpectedEof));
    let (u, next) = NalUnit::read(&[0u8, 2, 9, 8, 7], 0).unwrap();
    assert_eq!(u.bytes, vec![9, 8]);
    assert_eq!(next, 4);
}

#[test]
fn nal_unit_size_and_write() {
    let u = NalUnit::new(&[0xAB, 0xCD, 0xEF]);
    assert_eq!(u.size(), 5);
    let mut out = vec![0x77];
    assert_eq!(u.write(&mut out), 5);
    assert_eq!(out, vec![0x77, 0, 3, 0xAB, 0xCD, 0xEF]);
}

#[test]
fn declared_size_skips_trailing_data() {
    let b = Hvc1Box::new(&worked_config());
    let mut buf = encode(&b);
    let declared = buf.len() as u64 + 5;
    buf.extend_from_slice(&[9, 9, 9, 9, 9]);
    let (d, end) = Hvc1Box::read_box(&buf, 8, declared).unwrap();
    assert_eq!(d, b);
    assert_eq!(end, declared);
}

#[test]
fn box_header_read_and_write() {
    let mut out = Vec::new();
    BoxHeader::new(BoxType::HvcCBox, 71).write(&mut out);
    assert_eq!(out, vec![0, 0, 0, 71, b'h', b'v', b'c', b'C']);
    let h = BoxHeader::read(&out, 0).unwrap();
    assert_eq!(h, BoxHeader { name: BoxType::HvcCBox, size: 71 });
    assert_eq!(BoxHeader::read(&out, 1), Err(Error::UnexpectedEof));
    assert_eq!(BoxType::from_tag(0x61766331), BoxType::Other(0x61766331));
    assert_eq!(BoxType::Hvc1Box.tag(), u32::from_be_bytes(*b"hvc1"));
}

#[test]
fn big_endian_helpers() {
    let mut out = Vec::new();
    push_u16(&mut out, 0x1234);
    push_u32(&mut out, 0xA1B2C3D4);
    assert_eq!(out, vec![0x12, 0x34, 0xA1, 0xB2, 0xC3, 0xD4]);
    assert_eq!(read_u16_at(&out, 0), 0x1234);
    assert_eq!(read_u16_at(&out, 1), 0x34A1);
    assert_eq!(read_u32_at(&out, 2), 0xA1B2C3D4);
}

#[test]
fn fixed_point_values() {
    let f = FixedPointU16::new(0x48);
    assert_eq!(f.raw_value(), 0x0048_0000);
    assert_eq!(f.value(), 0x48);
    let g = FixedPointU16::new_raw(0x0001_8000);
    assert_eq!(g.value(), 1);
    assert_eq!(g.raw_value(), 0x0001_8000);
}

#[test]
fn largest_unit_round_trips() {
    let big = vec![0x5A; 0xFFFF];
    let b = Hvc1Box::new(&HvcConfig {
        width: 1,
        height: 1,
        video_param_sets: vec![big.clone()],
        seq_param_sets: vec![],
        pic_param_sets: vec![],
        supplementary_enhancement_information: vec![],
    });
    assert_eq!(b.hvcc.box_size(), 31 + 3 + 2 + 0xFFFF);
    let d = decode(&encode(&b)).unwrap();
    assert_eq!(d.hvcc.video_parameter_sets[0].bytes.len(), 0xFFFF);
    assert_eq!(d, b);
}

#[test]
fn most_units_round_trip() {
    let b = Hvc1Box::new(&HvcConfig {
        width: 2,
        height: 2,
        video_param_sets: vec![vec![1]; 100],
        seq_param_sets: vec![vec![2, 2]; 100],
        pic_param_sets: vec![vec![3]; 50],
        supplementary_enhancement_information: vec![vec![]; 5],
    });
    let buf = encode(&b);
    assert_eq!(buf[8 + 78 + 8 + 22], 255);
    assert_eq!(decode(&buf).unwrap(), b);
}

#[test]
fn arrays_of_one_type_concatenate_in_stream_order() {
    let mut p = record_payload(0xFC, 0xF8, 0xF8, 0x03);
    p[22] = 3;
    p.extend_from_slice(&[33, 0, 1, 0, 1, 0x01]);
    p.extend_from_slice(&[34, 0, 1, 0, 1, 0x0A]);
    p.extend_from_slice(&[33, 0, 1, 0, 2, 0x02, 0x03]);
    let (d, end) = HvcCBox::parse(&p, 0).unwrap();
    assert_eq!(end, p.len());
    assert_eq!(
        d.sequence_parameter_sets,
        vec![NalUnit { bytes: vec![0x01] }, NalUnit { bytes: vec![0x02, 0x03] }]
    );
    assert_eq!(d.picture_parameter_sets, vec![NalUnit { bytes: vec![0x0A] }]);
}

#[test]
fn zero_declared_units_reads_no_array() {
    let mut p = record_payload(0xFC, 0xF8, 0xF8, 0x03);
    p.extend_from_slice(&[33, 0, 1, 0, 1, 0x01]);
    let (d, end) = HvcCBox::parse(&p, 0).unwrap();
    assert_eq!(end, 23);
    assert!(d.sequence_parameter_sets.is_empty());
    assert!(d.video_parameter_sets.is_empty());
}
