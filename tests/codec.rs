use mp4box::boxes::BoxData;
use mp4box::header::read_box_header_ext;
use mp4box::types::{FixedPointI8, FixedPointU16, FixedPointU8};
use mp4box::{read_box_header, BoxHeader, BoxType, Error, FourCC, Reason, HEADER_SIZE, HEADER_SIZE_LARGE};

#[test]
fn plain_header() {
    let bytes = [0, 0, 0x01, 0x02, b'm', b'o', b'o', b'v'];
    let h = read_box_header(&bytes, 0).unwrap();
    assert_eq!(h, BoxHeader::new(BoxType::Moov, 0x102, 0));
    assert_eq!(h.box_start(), 0);
    assert_eq!(h.skip_box(), Some(0x102));
}

#[test]
fn header_at_an_offset() {
    let bytes = [9, 9, 0, 0, 0, 8, b'a', b'b', b'c', b'd'];
    let h = read_box_header(&bytes, 2).unwrap();
    assert_eq!(h.typ, BoxType::UnKnown(0x61626364));
    assert_eq!(h.size, 8);
    assert_eq!(h.offset, 2);
}

#[test]
fn large_header() {
    let mut bytes = vec![0, 0, 0, 1, b'f', b't', b'y', b'p'];
    bytes.extend_from_slice(&0x1_0000_0010u64.to_be_bytes());
    let h = read_box_header(&bytes, 0).unwrap();
    assert_eq!(h.size, 0x1_0000_0010);
    assert_eq!(h.typ, BoxType::Ftyp);
}

#[test]
fn large_size_zero_is_kept() {
    let mut bytes = vec![0, 0, 0, 1, b'f', b'r', b'e', b'e'];
    bytes.extend_from_slice(&0u64.to_be_bytes());
    assert_eq!(read_box_header(&bytes, 0).unwrap().size, 0);
}

#[test]
fn large_sizes_below_sixteen_are_rejected() {
    for large in 1u64..=15 {
        let mut bytes = vec![0, 0, 0, 1, b'f', b'r', b'e', b'e'];
        bytes.extend_from_slice(&large.to_be_bytes());
        assert_eq!(read_box_header(&bytes, 0), Err(Error::InvalidData(Reason::LargeSizeTooSmall)));
    }
}

#[test]
fn short_headers_are_eof() {
    assert_eq!(read_box_header(&[0, 0, 0], 0), Err(Error::UnexpectedEof));
    assert_eq!(read_box_header(&[0, 0, 0, 1, b'a', b'b', b'c', b'd', 0], 0), Err(Error::UnexpectedEof));
    assert_eq!(read_box_header(&[0, 0, 0, 8, b'a', b'b', b'c', b'd'], 9), Err(Error::UnexpectedEof));
}

#[test]
fn version_and_flags() {
    assert_eq!(read_box_header_ext(&[1, 0x00, 0x02, 0x03], 0), Ok((1, 0x0203)));
    assert_eq!(read_box_header_ext(&[1, 0x00, 0x02], 0), Err(Error::UnexpectedEof));
}

#[test]
fn header_sizes() {
    assert_eq!(HEADER_SIZE, 8);
    assert_eq!(HEADER_SIZE_LARGE, 16);
}

#[test]
fn tags_round_trip() {
    assert_eq!(BoxType::from_tag(0x6d6f6f76), BoxType::Moov);
    assert_eq!(BoxType::Moov.tag(), 0x6d6f6f76);
    assert_eq!(BoxType::from_tag(0x75726c20), BoxType::Url);
    assert_eq!(BoxType::from_tag(0x61766343), BoxType::AvcC);
    assert_eq!(BoxType::from_tag(0x12345678), BoxType::UnKnown(0x12345678));
    assert_eq!(BoxType::from_tag(0x12345678).tag(), 0x12345678);
}

#[test]
fn fourcc_conversions() {
    let f = FourCC::from_u32(0x69736f6d);
    assert_eq!(&f.value, b"isom");
    assert_eq!(f.to_u32(), 0x69736f6d);
}

#[test]
fn fixed_point_values() {
    assert_eq!(FixedPointU8::new(3).raw_value(), 0x300);
    assert_eq!(FixedPointU8::new_raw(0x1FF).value(), 1);
    assert_eq!(FixedPointI8::new(-2).raw_value(), -512);
    assert_eq!(FixedPointI8::new_raw(-0x180).value(), -1);
    assert_eq!(FixedPointI8::new_raw(0x180).value(), 1);
    assert_eq!(FixedPointI8::new_raw(i16::MIN).value(), -128);
    assert_eq!(FixedPointU16::new(640).raw_value(), 640 << 16);
    assert_eq!(FixedPointU16::new_raw(0xFFFF_FFFF).value(), 0xFFFF);
}

#[test]
fn payload_kinds() {
    let d = BoxData::Moov(mp4box::boxes::MoovBox);
    assert_eq!(d.typ(), BoxType::Moov);
    assert_eq!(d.effective_size(), 8);
}

#[test]
fn header_encoding_round_trips() {
    let mut out = Vec::new();
    let h = BoxHeader::new(BoxType::Moov, 0x1234, 0);
    assert_eq!(mp4box::write_box_header(&h, &mut out), 8);
    assert_eq!(out, vec![0, 0, 0x12, 0x34, b'm', b'o', b'o', b'v']);
    assert_eq!(read_box_header(&out, 0).unwrap(), h);
}

#[test]
fn large_header_encoding_round_trips() {
    let mut out = vec![0xAA];
    let h = BoxHeader::new(BoxType::UnKnown(0x6d646174), 0x1_0000_0000, 1);
    assert_eq!(mp4box::write_box_header(&h, &mut out), 16);
    assert_eq!(out.len(), 17);
    assert_eq!(&out[1..9], &[0, 0, 0, 1, b'm', b'd', b'a', b't']);
    assert_eq!(read_box_header(&out, 1).unwrap(), h);
}

#[test]
fn header_ext_encoding_round_trips() {
    let mut out = Vec::new();
    assert_eq!(mp4box::write_box_header_ext(&mut out, 1, 0x0A0B0C), 4);
    assert_eq!(out, vec![1, 0x0A, 0x0B, 0x0C]);
    assert_eq!(read_box_header_ext(&out, 0), Ok((1, 0x0A0B0C)));
}

#[test]
fn from_conversions() {
    assert_eq!(BoxType::from(0x66747970u32), BoxType::Ftyp);
    assert_eq!(u32::from(BoxType::Stsz), 0x7374737A);
    assert_eq!(u32::from(BoxType::UnKnown(7)), 7);
    assert_eq!(&FourCC::from(0x61766331u32).value, b"avc1");
    assert_eq!(u32::from(FourCC { value: *b"avcC" }), 0x61766343);
}
