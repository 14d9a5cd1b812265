use mp4box::{read_mp4_box, scan_mp4_box, BoxData, BoxType, Error, Mp4BoxTree, Reason, Scanning};

fn boxed(tag: &[u8; 4], payload: &[u8]) -> Vec<u8> {
    let mut v = ((payload.len() + 8) as u32).to_be_bytes().to_vec();
    v.extend_from_slice(tag);
    v.extend_from_slice(payload);
    v
}

fn decode(bytes: &[u8]) -> Result<Vec<Mp4BoxTree>, Error> {
    read_mp4_box(bytes, bytes.len() as u64)
}

fn kinds(trees: &[Mp4BoxTree]) -> Vec<BoxType> {
    trees.iter().map(|t| t.node.header.typ).collect()
}

#[test]
fn ftyp_scenario() {
    let bytes = [
        0x00, 0x00, 0x00, 0x14, 0x66, 0x74, 0x79, 0x70, 0x69, 0x73, 0x6F, 0x6D, 0x00, 0x00, 0x02, 0x00, 0x69,
        0x73, 0x6F, 0x6D,
    ];
    let trees = decode(&bytes).unwrap();
    assert_eq!(trees.len(), 1);
    assert!(trees[0].children.is_empty());
    assert_eq!(trees[0].node.header.typ, BoxType::Ftyp);
    assert_eq!(trees[0].node.header.size, 20);
    assert_eq!(trees[0].node.header.offset, 0);
    let ftyp = trees[0].node.data.as_ftyp().unwrap();
    assert_eq!(&ftyp.major_brand.value, b"isom");
    assert_eq!(ftyp.minor_version, 512);
    assert_eq!(ftyp.compatible_brands.len(), 1);
    assert_eq!(&ftyp.compatible_brands[0].value, b"isom");
}

#[test]
fn unknown_box_then_eof_gives_empty_forest() {
    let bytes = [0x00, 0x00, 0x00, 0x08, b'z', b'z', b'z', b'z'];
    let trees = decode(&bytes).unwrap();
    assert!(trees.is_empty());
}

#[test]
fn empty_input_gives_empty_forest() {
    assert!(decode(&[]).unwrap().is_empty());
}

#[test]
fn every_small_extended_size_is_rejected() {
    for large in 1u64..=15 {
        let mut bytes = vec![0, 0, 0, 1];
        bytes.extend_from_slice(b"moov");
        bytes.extend_from_slice(&large.to_be_bytes());
        bytes.extend_from_slice(&[0u8; 16]);
        assert_eq!(decode(&bytes).unwrap_err(), Error::InvalidData(Reason::LargeSizeTooSmall));
    }
}

#[test]
fn extended_size_of_sixteen_is_accepted() {
    let mut bytes = vec![0, 0, 0, 1];
    bytes.extend_from_slice(b"moov");
    bytes.extend_from_slice(&16u64.to_be_bytes());
    let trees = decode(&bytes).unwrap();
    assert_eq!(trees.len(), 1);
    assert_eq!(trees[0].node.header.size, 16);
    assert_eq!(trees[0].node.header.typ, BoxType::Moov);
}

#[test]
fn box_larger_than_input_is_rejected() {
    let mut bytes = boxed(b"free", &[0u8; 8]);
    bytes[3] = 40;
    assert_eq!(decode(&bytes).unwrap_err(), Error::InvalidData(Reason::BoxLargerThanRegion));
}

#[test]
fn child_larger_than_parent_is_rejected() {
    let mut child = boxed(b"trak", &[0u8; 16]);
    child[3] = 30;
    let mut bytes = boxed(b"moov", &child);
    bytes.extend_from_slice(&[0u8; 16]);
    assert_eq!(decode(&bytes).unwrap_err(), Error::InvalidData(Reason::BoxLargerThanRegion));
}

#[test]
fn region_end_bounds_the_walk() {
    let bytes = boxed(b"moov", &[0u8; 8]);
    assert_eq!(read_mp4_box(&bytes, 12).unwrap_err(), Error::InvalidData(Reason::BoxLargerThanRegion));
    assert!(read_mp4_box(&bytes, 0).unwrap().is_empty());
}

#[test]
fn truncated_header_is_an_eof() {
    let bytes = [0u8, 0, 0, 8, b'm'];
    assert_eq!(decode(&bytes).unwrap_err(), Error::UnexpectedEof);
    assert_eq!(read_mp4_box(&[], 8).unwrap_err(), Error::UnexpectedEof);
}

#[test]
fn known_box_between_unknown_boxes() {
    let mut bytes = boxed(b"free", &[1, 2, 3, 4]);
    bytes.extend(boxed(b"pasp", &[0, 0, 0, 1, 0, 0, 0, 2]));
    bytes.extend(boxed(b"skip", &[9u8; 12]));
    let trees = decode(&bytes).unwrap();
    assert_eq!(trees.len(), 1);
    assert_eq!(trees[0].node.header.offset, 12);
    let pasp = trees[0].node.data.as_pasp().unwrap();
    assert_eq!((pasp.h_spacing, pasp.v_spacing), (1, 2));
}

#[test]
fn zero_size_header_ends_the_region() {
    let mut bytes = boxed(b"moov", &[]);
    bytes.extend_from_slice(&[0, 0, 0, 0, b'f', b'r', b'e', b'e']);
    // What follows would be rejected if it were read.
    bytes.extend_from_slice(&[0xFF, 0xFF, 0xFF, 0xFF, b'm', b'o', b'o', b'v']);
    let trees = decode(&bytes).unwrap();
    assert_eq!(kinds(&trees), vec![BoxType::Moov]);
}

#[test]
fn zero_size_header_ends_only_its_own_region() {
    let mut inner = vec![0, 0, 0, 0, b'f', b'r', b'e', b'e'];
    inner.extend(boxed(b"trak", &[]));
    let mut bytes = boxed(b"moov", &inner);
    bytes.extend(boxed(b"mdia", &[]));
    let trees = decode(&bytes).unwrap();
    assert_eq!(kinds(&trees), vec![BoxType::Moov, BoxType::Mdia]);
    assert!(trees[0].children.is_empty());
}

#[test]
fn nesting_and_order_follow_the_sizes() {
    // A nested region needs more than a header's worth of bytes, hence the
    // byte of padding inside `minf`.
    let edts = boxed(b"edts", &[]);
    let trak = boxed(b"trak", &[edts, boxed(b"mdia", &boxed(b"minf", &[0]))].concat());
    let moov = boxed(b"moov", &[trak, boxed(b"trak", &[])].concat());
    let mut bytes = moov;
    bytes.extend(boxed(b"moov", &[]));
    let trees = decode(&bytes).unwrap();
    assert_eq!(kinds(&trees), vec![BoxType::Moov, BoxType::Moov]);
    let moov = &trees[0];
    assert_eq!(moov.node.header.size, 8 + (8 + 8 + (8 + 9)) + 8);
    assert_eq!(kinds(&moov.children), vec![BoxType::Trak, BoxType::Trak]);
    let trak = &moov.children[0];
    assert_eq!(trak.node.header.offset, 8);
    assert_eq!(kinds(&trak.children), vec![BoxType::Edts, BoxType::Mdia]);
    assert_eq!(kinds(&trak.children[1].children), vec![BoxType::Minf]);
    assert!(trak.children[1].children[0].children.is_empty());
    assert!(moov.children[1].children.is_empty());
}

#[test]
fn single_empty_child_is_padding() {
    let bytes = boxed(b"mdia", &boxed(b"minf", &[]));
    let trees = decode(&bytes).unwrap();
    assert_eq!(kinds(&trees), vec![BoxType::Mdia]);
    assert!(trees[0].children.is_empty());
}

#[test]
fn short_remainder_is_padding() {
    // A pasp box with four bytes after its payload: too few for a child.
    let bytes = boxed(b"pasp", &[0, 0, 0, 3, 0, 0, 0, 4, 0xAA, 0xBB, 0xCC, 0xDD]);
    let trees = decode(&bytes).unwrap();
    assert_eq!(trees.len(), 1);
    assert!(trees[0].children.is_empty());
}

#[test]
fn remainder_of_exactly_a_header_is_padding() {
    let bytes = boxed(b"pasp", &[[0u8; 8].to_vec(), boxed(b"moov", &[])].concat());
    let trees = decode(&bytes).unwrap();
    assert!(trees[0].children.is_empty());
}

#[test]
fn longer_remainder_holds_children() {
    let bytes = boxed(b"pasp", &[[0u8; 8].to_vec(), boxed(b"moov", &[0u8; 1])].concat());
    let trees = decode(&bytes).unwrap();
    assert_eq!(kinds(&trees[0].children), vec![BoxType::Moov]);
}

#[test]
fn payload_larger_than_its_box_is_rejected() {
    let mut bytes = boxed(b"pasp", &[]);
    bytes.extend_from_slice(&[0u8; 8]);
    assert_eq!(
        read_mp4_box(&bytes, 8).unwrap_err(),
        Error::InvalidData(Reason::PayloadLargerThanBox)
    );
}

#[test]
fn scan_stopping_at_first_box_visits_nothing_else() {
    let inner = boxed(b"trak", &boxed(b"edts", &[]));
    let mut bytes = boxed(b"moov", &inner);
    bytes.extend(boxed(b"moov", &[]));
    // Malformed bytes after the stop point are never read.
    bytes.extend_from_slice(&[0xFF, 0xFF, 0xFF, 0xFF, b'm', b'o', b'o', b'v']);
    let mut seen = Vec::new();
    let r = scan_mp4_box(&bytes, bytes.len() as u64, &mut |d: &BoxData| {
        seen.push(d.typ());
        Scanning::Stop
    });
    assert_eq!(r, Ok(()));
    assert_eq!(seen, vec![BoxType::Moov]);
}

#[test]
fn scan_stop_deep_ends_all_levels() {
    let trak = boxed(b"trak", &[boxed(b"edts", &[]), boxed(b"mdia", &[])].concat());
    let mut bytes = boxed(b"moov", &trak);
    bytes.extend(boxed(b"moov", &[]));
    let mut seen = Vec::new();
    let r = scan_mp4_box(&bytes, bytes.len() as u64, &mut |d: &BoxData| {
        seen.push(d.typ());
        if d.typ() == BoxType::Edts {
            Scanning::Stop
        } else {
            Scanning::Continue
        }
    });
    assert_eq!(r, Ok(()));
    assert_eq!(seen, vec![BoxType::Moov, BoxType::Trak, BoxType::Edts]);
}

#[test]
fn scan_without_stop_visits_in_stream_order() {
    let trak = boxed(b"trak", &[boxed(b"edts", &[]), boxed(b"free", &[]), boxed(b"mdia", &[])].concat());
    let mut bytes = boxed(b"moov", &trak);
    bytes.extend(boxed(b"dinf", &[]));
    let mut seen = Vec::new();
    let r = scan_mp4_box(&bytes, bytes.len() as u64, &mut |d: &BoxData| {
        seen.push(d.typ());
        Scanning::Continue
    });
    assert_eq!(r, Ok(()));
    assert_eq!(
        seen,
        vec![BoxType::Moov, BoxType::Trak, BoxType::Edts, BoxType::Mdia, BoxType::Dinf]
    );
}

#[test]
fn scan_reports_errors_met_before_a_stop() {
    let mut bytes = boxed(b"moov", &[]);
    bytes.extend_from_slice(&[0, 0, 0, 1, b'm', b'o', b'o', b'v', 0, 0, 0, 0, 0, 0, 0, 3]);
    let mut calls = 0;
    let r = scan_mp4_box(&bytes, bytes.len() as u64, &mut |_d: &BoxData| {
        calls += 1;
        Scanning::Continue
    });
    assert_eq!(r, Err(Error::InvalidData(Reason::LargeSizeTooSmall)));
    assert_eq!(calls, 1);
}

#[test]
fn phantom_tag_is_skipped_like_an_unknown() {
    let bytes = boxed(b"----", &[1, 2, 3]);
    assert!(decode(&bytes).unwrap().is_empty());
}

#[test]
fn tree_accessors() {
    let bytes = boxed(b"moov", &[]);
    let trees = decode(&bytes).unwrap();
    assert_eq!(trees[0].node_header_ref().size, 8);
    assert_eq!(trees[0].node_data_ref().typ(), BoxType::Moov);
    assert_eq!(trees[0].node_data_ref().effective_size(), 8);
}

#[test]
fn downcast_to_another_kind_fails() {
    let bytes = boxed(b"moov", &[]);
    let trees = decode(&bytes).unwrap();
    assert_eq!(trees[0].node.data.as_ftyp().unwrap_err(), Error::BoxNotFound);
    assert!(trees[0].node.data.as_moov().is_ok());
}

#[test]
fn phantom_root_is_not_exposed() {
    let root = mp4box::Mp4Box::phtm();
    assert_eq!(root.header.typ, BoxType::Phtm);
    assert_eq!(root.header.size, 0);
    let bytes = boxed(b"moov", &[]);
    let trees = decode(&bytes).unwrap();
    assert_eq!(kinds(&trees), vec![BoxType::Moov]);
}

const FTYP_ISOM: [u8; 20] = [
    0x00, 0x00, 0x00, 0x14, 0x66, 0x74, 0x79, 0x70, 0x69, 0x73, 0x6F, 0x6D, 0x00, 0x00, 0x02, 0x00, 0x69, 0x73,
    0x6F, 0x6D,
];

#[test]
fn nested_moov_holding_two_ftyp() {
    let g = [
        0x00, 0x00, 0x00, 0x18, 0x66, 0x74, 0x79, 0x70, 0x6D, 0x70, 0x34, 0x32, 0, 0, 0, 0, 0x69, 0x73, 0x6F, 0x6D,
        0x6D, 0x70, 0x34, 0x31,
    ];
    let mut bytes = vec![0x00, 0x00, 0x00, 0x3C, b'm', b'o', b'o', b'v', 0x00, 0x00, 0x00, 0x34, b'm', b'o', b'o', b'v'];
    bytes.extend_from_slice(&FTYP_ISOM);
    bytes.extend_from_slice(&g);
    let trees = decode(&bytes).unwrap();
    assert_eq!(trees.len(), 1);
    assert_eq!((trees[0].node.header.size, trees[0].node.header.offset), (60, 0));
    let inner = &trees[0].children;
    assert_eq!(inner.len(), 1);
    assert_eq!((inner[0].node.header.size, inner[0].node.header.offset), (52, 8));
    let leaves = &inner[0].children;
    assert_eq!(kinds(leaves), vec![BoxType::Ftyp, BoxType::Ftyp]);
    assert_eq!((leaves[0].node.header.offset, leaves[1].node.header.offset), (16, 36));
    let second = leaves[1].node.data.as_ftyp().unwrap();
    assert_eq!(&second.major_brand.value, b"mp42");
    assert_eq!(second.compatible_brands.len(), 2);
    assert!(leaves[0].children.is_empty() && leaves[1].children.is_empty());
}

#[test]
fn child_overrunning_its_parent_region_is_rejected() {
    let mut bytes = vec![0x00, 0x00, 0x00, 0x1C, b'm', b'o', b'o', b'v', 0x00, 0x00, 0x00, 0x18, b'f', b'r', b'e', b'e'];
    bytes.extend_from_slice(&[0u8; 12]);
    assert_eq!(decode(&bytes).unwrap_err(), Error::InvalidData(Reason::BoxLargerThanRegion));
}

#[test]
fn zero_header_inside_moov_ends_only_the_moov() {
    let mut bytes = vec![0x00, 0x00, 0x00, 0x34, b'm', b'o', b'o', b'v'];
    bytes.extend_from_slice(&FTYP_ISOM);
    bytes.extend_from_slice(&[0, 0, 0, 0, b'f', b'r', b'e', b'e', 0, 0, 0, 0x10, b'p', b'a', b's', b'p', 0, 0, 0, 1, 0, 0, 0, 1]);
    bytes.extend_from_slice(&FTYP_ISOM);
    let trees = decode(&bytes).unwrap();
    assert_eq!(kinds(&trees), vec![BoxType::Moov, BoxType::Ftyp]);
    assert_eq!(kinds(&trees[0].children), vec![BoxType::Ftyp]);
    assert_eq!(trees[1].node.header.offset, 52);
}

#[test]
fn scan_stop_on_first_ftyp_before_an_overrun() {
    let mut bytes = FTYP_ISOM.to_vec();
    bytes.extend_from_slice(&[0, 0, 0, 0xFF, b'm', b'o', b'o', b'v']);
    let mut seen = Vec::new();
    let r = scan_mp4_box(&bytes, bytes.len() as u64, &mut |d: &BoxData| {
        seen.push(d.typ());
        Scanning::Stop
    });
    assert_eq!(r, Ok(()));
    assert_eq!(seen, vec![BoxType::Ftyp]);
}

#[test]
fn tkhd_version_two_aborts_the_call() {
    let bytes = [0x00, 0x00, 0x00, 0x0C, b't', b'k', b'h', b'd', 0x02, 0, 0, 0];
    assert_eq!(decode(&bytes).unwrap_err(), Error::InvalidData(Reason::BadVersion));
}

#[test]
fn trees_clone_deeply() {
    let mut bytes = vec![0x00, 0x00, 0x00, 0x1C, b'm', b'o', b'o', b'v'];
    bytes.extend_from_slice(&FTYP_ISOM);
    let trees = decode(&bytes).unwrap();
    let copy = trees[0].clone();
    assert_eq!(copy.node.header, trees[0].node.header);
    assert_eq!(kinds(&copy.children), vec![BoxType::Ftyp]);
    assert_eq!(copy.children[0].node.data.as_ftyp().unwrap().minor_version, 512);
}
