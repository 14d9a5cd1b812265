use mp4box::{read_mp4_box, BoxType, Error, FourCC, FtypBox, Ibox, Mp4BoxTree, Reason, StszBox, UrlBox};

fn boxed(tag: &[u8; 4], payload: &[u8]) -> Vec<u8> {
    let mut v = ((payload.len() + 8) as u32).to_be_bytes().to_vec();
    v.extend_from_slice(tag);
    v.extend_from_slice(payload);
    v
}

fn full(version: u8, flags: u32, rest: &[u8]) -> Vec<u8> {
    let mut v = vec![version];
    v.extend_from_slice(&flags.to_be_bytes()[1..]);
    v.extend_from_slice(rest);
    v
}

fn one(bytes: &[u8]) -> Mp4BoxTree {
    let mut trees = read_mp4_box(bytes, bytes.len() as u64).unwrap();
    assert_eq!(trees.len(), 1);
    trees.remove(0)
}

fn matrix_bytes() -> Vec<u8> {
    let mut v = Vec::new();
    for x in [0x10000i32, 0, 0, 0, 0x10000, 0, 0, 0, -0x40000000] {
        v.extend_from_slice(&x.to_be_bytes());
    }
    v
}

#[test]
fn mvhd_version_zero() {
    let mut rest = Vec::new();
    for x in [1u32, 2, 600, 1200] {
        rest.extend_from_slice(&x.to_be_bytes());
    }
    rest.extend_from_slice(&0x0001_8000u32.to_be_bytes());
    rest.extend_from_slice(&0x0100u16.to_be_bytes());
    rest.extend_from_slice(&[0u8; 10]);
    rest.extend(matrix_bytes());
    rest.extend_from_slice(&[0u8; 24]);
    rest.extend_from_slice(&7u32.to_be_bytes());
    let bytes = boxed(b"mvhd", &full(0, 0, &rest));
    let t = one(&bytes);
    let m = t.node.data.as_mvhd().unwrap();
    assert_eq!((m.creation_time, m.modification_time, m.timescale, m.duration), (1, 2, 600, 1200));
    assert_eq!(m.rate.value(), 1);
    assert_eq!(m.rate.raw_value(), 0x0001_8000);
    assert_eq!(m.volume.value(), 1);
    assert_eq!(m.matrix.a, 0x10000);
    assert_eq!(m.matrix.w, -0x40000000);
    assert_eq!(m.next_track_id, 7);
    assert_eq!(t.node.data.effective_size(), 108);
}

#[test]
fn mvhd_bad_version() {
    let bytes = boxed(b"mvhd", &full(2, 0, &[0u8; 120]));
    let r = read_mp4_box(&bytes, bytes.len() as u64);
    assert_eq!(r.unwrap_err(), Error::InvalidData(Reason::BadVersion));
}

#[test]
fn tkhd_version_one() {
    let mut rest = Vec::new();
    rest.extend_from_slice(&10u64.to_be_bytes());
    rest.extend_from_slice(&11u64.to_be_bytes());
    rest.extend_from_slice(&3u32.to_be_bytes());
    rest.extend_from_slice(&0u32.to_be_bytes());
    rest.extend_from_slice(&99u64.to_be_bytes());
    rest.extend_from_slice(&[0u8; 8]);
    rest.extend_from_slice(&1u16.to_be_bytes());
    rest.extend_from_slice(&2u16.to_be_bytes());
    rest.extend_from_slice(&0x0100u16.to_be_bytes());
    rest.extend_from_slice(&[0u8; 2]);
    rest.extend(matrix_bytes());
    rest.extend_from_slice(&(640u32 << 16).to_be_bytes());
    rest.extend_from_slice(&(480u32 << 16).to_be_bytes());
    let bytes = boxed(b"tkhd", &full(1, 3, &rest));
    let t = one(&bytes);
    let k = t.node.data.as_tkhd().unwrap();
    assert_eq!((k.version, k.flags), (1, 3));
    assert_eq!((k.creation_time, k.modification_time, k.track_id, k.duration), (10, 11, 3, 99));
    assert_eq!((k.layer, k.alternate_group), (1, 2));
    assert_eq!(k.width.value(), 640);
    assert_eq!(k.height.value(), 480);
    assert_eq!(t.node.data.effective_size(), 104);
    assert_eq!(bytes.len(), 104);
}

#[test]
fn mdhd_language() {
    let mut rest = Vec::new();
    for x in [0u32, 0, 1000, 5000] {
        rest.extend_from_slice(&x.to_be_bytes());
    }
    rest.extend_from_slice(&0x55C4u16.to_be_bytes());
    rest.extend_from_slice(&[0u8; 2]);
    let bytes = boxed(b"mdhd", &full(0, 0, &rest));
    let t = one(&bytes);
    let m = t.node.data.as_mdhd().unwrap();
    assert_eq!(m.language, "und");
    assert_eq!(m.timescale, 1000);
    assert_eq!(m.duration, 5000);
}

#[test]
fn hdlr_name() {
    let mut rest = vec![0u8; 4];
    rest.extend_from_slice(b"vide");
    rest.extend_from_slice(&[0u8; 12]);
    rest.extend_from_slice(b"Video\0");
    let bytes = boxed(b"hdlr", &full(0, 0, &rest));
    let t = one(&bytes);
    let h = t.node.data.as_hdlr().unwrap();
    assert_eq!(&h.handler_type.value, b"vide");
    assert_eq!(h.name, "Video");
    assert_eq!(t.node.data.effective_size(), bytes.len() as u64);
}

#[test]
fn hdlr_invalid_utf8_name() {
    let mut rest = vec![0u8; 4];
    rest.extend_from_slice(b"soun");
    rest.extend_from_slice(&[0u8; 12]);
    rest.extend_from_slice(&[0xFF, 0xFE, 0x00, 0x00, 0x00]);
    let bytes = boxed(b"hdlr", &full(0, 0, &rest));
    let t = one(&bytes);
    assert_eq!(t.node.data.as_hdlr().unwrap().name, "null");
}

#[test]
fn hdlr_too_small() {
    let bytes = boxed(b"hdlr", &full(0, 0, &[0u8; 20]));
    let r = read_mp4_box(&bytes, bytes.len() as u64);
    assert_eq!(r.unwrap_err(), Error::InvalidData(Reason::HdlrSizeTooSmall));
}

#[test]
fn url_local_and_remote() {
    let local = boxed(b"url ", &full(0, 1, &[]));
    let t = one(&local);
    assert_eq!(t.node.data.as_url().unwrap().location, "local to file");
    let remote = boxed(b"url ", &full(0, 0, b"http://a\0"));
    let t = one(&remote);
    assert_eq!(t.node.data.as_url().unwrap().location, "http://a");
    let short = boxed(b"url ", &full(0, 0, &[]));
    let r = read_mp4_box(&short, short.len() as u64);
    assert_eq!(r.unwrap_err(), Error::InvalidData(Reason::UrlSizeTooSmall));
}

#[test]
fn ftyp_bad_size() {
    let bytes = boxed(b"ftyp", &[0u8; 10]);
    let r = read_mp4_box(&bytes, bytes.len() as u64);
    assert_eq!(r.unwrap_err(), Error::InvalidData(Reason::FtypSize));
}

#[test]
fn vmhd_smhd_dref_stsd() {
    let vmhd = boxed(b"vmhd", &full(0, 1, &[0, 2, 0, 3, 0, 4, 0, 5]));
    let v = one(&vmhd);
    let v = v.node.data.as_vmhd().unwrap();
    assert_eq!(v.graphics_mode, 2);
    assert_eq!((v.op_color.red, v.op_color.green, v.op_color.blue), (3, 4, 5));
    let smhd = boxed(b"smhd", &full(0, 0, &[0xFF, 0x00, 0, 0]));
    let s = one(&smhd);
    let s = s.node.data.as_smhd().unwrap();
    assert_eq!(s.balance.raw_value(), -256);
    assert_eq!(s.balance.value(), -1);
    let dref = boxed(b"dref", &full(0, 0, &[0, 0, 0, 1]));
    assert_eq!(one(&dref).node.data.as_dref().unwrap().entry_count, 1);
    let stsd = boxed(b"stsd", &full(0, 0, &[0, 0, 0, 2]));
    assert_eq!(one(&stsd).node.data.as_stsd().unwrap().entry_count, 2);
}

#[test]
fn dref_children_are_decoded() {
    let url = boxed(b"url ", &full(0, 1, &[]));
    let dref = boxed(b"dref", &[full(0, 0, &[0, 0, 0, 1]), url].concat());
    let t = one(&dref);
    assert_eq!(t.children.len(), 1);
    assert_eq!(t.children[0].node.header.typ, BoxType::Url);
}

#[test]
fn sample_tables() {
    let stts = boxed(b"stts", &full(0, 0, &[0, 0, 0, 1, 0, 0, 0, 5, 0, 0, 2, 0]));
    let t = one(&stts);
    let e = &t.node.data.as_stts().unwrap().entries;
    assert_eq!((e[0].sample_count, e[0].sample_delta), (5, 512));
    let ctts = boxed(b"ctts", &full(0, 0, &[0, 0, 0, 1, 0, 0, 0, 2, 0xFF, 0xFF, 0xFF, 0xFE]));
    let t = one(&ctts);
    let e = &t.node.data.as_ctts().unwrap().entries;
    assert_eq!((e[0].sample_count, e[0].sample_offset), (2, -2));
    let stss = boxed(b"stss", &full(0, 0, &[0, 0, 0, 2, 0, 0, 0, 1, 0, 0, 0, 9]));
    assert_eq!(one(&stss).node.data.as_stss().unwrap().entries, vec![1, 9]);
    let stco = boxed(b"stco", &full(0, 0, &[0, 0, 0, 1, 0x80, 0, 0, 0]));
    assert_eq!(one(&stco).node.data.as_stco().unwrap().chunk_offsets, vec![i32::MIN]);
    let stsz = boxed(b"stsz", &full(0, 0, &[0, 0, 0, 0, 0, 0, 0, 2, 0, 0, 0, 7, 0, 0, 0, 8]));
    let t = one(&stsz);
    let z = t.node.data.as_stsz().unwrap();
    assert_eq!((z.sample_size, z.sample_count), (0, 2));
    assert_eq!(z.sample_sizes, vec![7, 8]);
    let fixed = boxed(b"stsz", &full(0, 0, &[0, 0, 0, 4, 0, 0, 0, 100]));
    let t = one(&fixed);
    let z = t.node.data.as_stsz().unwrap();
    assert_eq!((z.sample_size, z.sample_count), (4, 100));
    assert!(z.sample_sizes.is_empty());
}

#[test]
fn stsc_first_samples() {
    let mut rest = vec![0, 0, 0, 3];
    for x in [1u32, 4, 1, 3, 2, 1, 10, 5, 1] {
        rest.extend_from_slice(&x.to_be_bytes());
    }
    let bytes = boxed(b"stsc", &full(0, 0, &rest));
    let t = one(&bytes);
    let e = &t.node.data.as_stsc().unwrap().entries;
    assert_eq!(e.len(), 3);
    assert_eq!(e[0].first_sample, 1);
    assert_eq!(e[1].first_sample, 1 + 2 * 4);
    assert_eq!(e[2].first_sample, 9 + 7 * 2);
    assert_eq!((e[2].first_chunk, e[2].sample_per_chunk, e[2].sample_description_index), (10, 5, 1));
}

#[test]
fn stsc_overflow() {
    let mut rest = vec![0, 0, 0, 2];
    for x in [1u32, 0x10000, 1, 0x10002, 1, 1] {
        rest.extend_from_slice(&x.to_be_bytes());
    }
    let bytes = boxed(b"stsc", &full(0, 0, &rest));
    let r = read_mp4_box(&bytes, bytes.len() as u64);
    assert_eq!(r.unwrap_err(), Error::InvalidData(Reason::StscOverflow));
}

#[test]
fn stsc_decreasing_chunks_overflow() {
    let mut rest = vec![0, 0, 0, 2];
    for x in [5u32, 1, 1, 4, 1, 1] {
        rest.extend_from_slice(&x.to_be_bytes());
    }
    let bytes = boxed(b"stsc", &full(0, 0, &rest));
    let r = read_mp4_box(&bytes, bytes.len() as u64);
    assert_eq!(r.unwrap_err(), Error::InvalidData(Reason::StscOverflow));
}

#[test]
fn table_running_past_input_is_an_eof() {
    let bytes = boxed(b"stco", &full(0, 0, &[0, 0, 0, 5, 0, 0, 0, 1]));
    let r = read_mp4_box(&bytes, bytes.len() as u64);
    assert_eq!(r.unwrap_err(), Error::UnexpectedEof);
}

#[test]
fn avc1_and_avcc() {
    let mut avc1 = vec![0u8; 6];
    avc1.extend_from_slice(&1u16.to_be_bytes());
    avc1.extend_from_slice(&[0u8; 16]);
    avc1.extend_from_slice(&1920u16.to_be_bytes());
    avc1.extend_from_slice(&1080u16.to_be_bytes());
    avc1.extend_from_slice(&0x0048_0000u32.to_be_bytes());
    avc1.extend_from_slice(&0x0048_0000u32.to_be_bytes());
    avc1.extend_from_slice(&[0u8; 4]);
    avc1.extend_from_slice(&1u16.to_be_bytes());
    avc1.extend_from_slice(&[0u8; 32]);
    avc1.extend_from_slice(&24u16.to_be_bytes());
    avc1.extend_from_slice(&[0xFF, 0xFF]);
    let avcc = [1u8, 0x64, 0, 0x1F, 0xFF, 0xE1, 0, 3, 0x67, 0x64, 0x00, 1, 0, 2, 0x68, 0xEE];
    avc1.extend(boxed(b"avcC", &avcc));
    let bytes = boxed(b"avc1", &avc1);
    let t = one(&bytes);
    let a = t.node.data.as_avc1().unwrap();
    assert_eq!((a.data_reference_index, a.width, a.height), (1, 1920, 1080));
    assert_eq!(a.horizresolution.value(), 72);
    assert_eq!((a.frame_count, a.depth), (1, 24));
    assert_eq!(t.children.len(), 1);
    let c = t.children[0].node.data.as_avcc().unwrap();
    assert_eq!(c.avc_profile_indication, 0x64);
    assert_eq!(c.avc_level_indication, 0x1F);
    assert_eq!(c.length_size_minus_one, 3);
    assert_eq!(c.sequence_parameter_sets.len(), 1);
    assert_eq!(c.sequence_parameter_sets[0].bytes, vec![0x67, 0x64, 0x00]);
    assert_eq!(c.picture_parameter_sets[0].bytes, vec![0x68, 0xEE]);
    assert_eq!(c.sequence_parameter_sets[0].size(), 5);
    assert_eq!(t.children[0].node.data.effective_size(), 24);
}

#[test]
fn avcc_truncated_unit_is_an_eof() {
    let avcc = [1u8, 0x64, 0, 0x1F, 0xFF, 0xE1, 0, 9, 0x67];
    let bytes = boxed(b"avcC", &avcc);
    let r = read_mp4_box(&bytes, bytes.len() as u64);
    assert_eq!(r.unwrap_err(), Error::UnexpectedEof);
}

#[test]
fn reported_sizes() {
    let ftyp = FtypBox {
        major_brand: FourCC { value: *b"isom" },
        minor_version: 0,
        compatible_brands: vec![FourCC { value: *b"isom" }, FourCC { value: *b"mp41" }],
    };
    assert_eq!((ftyp.header_size(), ftyp.data_size()), (8, 16));
    assert_eq!(ftyp.typ(), BoxType::Ftyp);
    let local = UrlBox { version: 0, flags: 1, location: "local to file".to_string() };
    assert_eq!((local.header_size(), local.data_size()), (12, 0));
    let remote = UrlBox { version: 0, flags: 0, location: "héllo".to_string() };
    assert_eq!(remote.data_size(), 7);
    let stsz = StszBox { version: 0, flags: 0, sample_size: 0, sample_count: 3, sample_sizes: vec![1, 2, 3] };
    assert_eq!((stsz.header_size(), stsz.data_size()), (12, 20));
}
