use voxtree::ply::{
    cantor_pair, expect, parse_i32_bytes, parse_ply, parse_u64_bytes, parse_u8_bytes,
    parse_usize_bytes, seek_end_of_line, seek_end_word, HeaderSubstate, ParseError, ReadState,
    Rgb, CR, NL, SPACE,
};

#[test]
fn expect_reports_first_mismatch() {
    assert_eq!(expect("ply", b"ply"), None);
    assert_eq!(expect("ply", b"plz"), Some(2));
    assert_eq!(expect("ply", b"qqq"), Some(0));
    // comparison runs over the shorter of the two
    assert_eq!(expect("property", b"prop"), None);
    assert_eq!(expect("pro", b"property"), None);
    assert_eq!(expect("", b"anything"), None);
}

#[test]
fn seeks_find_the_first_terminator() {
    assert_eq!(seek_end_of_line(b"abc\r\ndef"), Some(3));
    assert_eq!(seek_end_of_line(b"\nabc"), Some(0));
    assert_eq!(seek_end_of_line(b"abc def"), None);
    assert_eq!(seek_end_word(b"abc def"), Some(3));
    assert_eq!(seek_end_word(b"abc\rdef"), Some(3));
    assert_eq!(seek_end_word(b"abcdef"), None);
    assert_eq!(CR, 0x0D);
    assert_eq!(NL, 0x0A);
    assert_eq!(SPACE, 0x20);
}

#[test]
fn decimal_parsers_are_exact() {
    assert_eq!(parse_u64_bytes(b"0"), Some(0));
    assert_eq!(parse_u64_bytes(b"18446744073709551615"), Some(u64::MAX));
    assert_eq!(parse_u64_bytes(b"18446744073709551616"), None);
    assert_eq!(parse_u64_bytes(b""), None);
    assert_eq!(parse_u64_bytes(b"12a"), None);
    assert_eq!(parse_usize_bytes(b"100000"), Some(100000));
    assert_eq!(parse_u8_bytes(b"255"), Some(255));
    assert_eq!(parse_u8_bytes(b"256"), None);
    assert_eq!(parse_i32_bytes(b"42"), Some(42));
    assert_eq!(parse_i32_bytes(b"-42"), Some(-42));
    assert_eq!(parse_i32_bytes(b"2147483647"), Some(i32::MAX));
    assert_eq!(parse_i32_bytes(b"2147483648"), None);
    assert_eq!(parse_i32_bytes(b"-2147483648"), Some(i32::MIN));
    assert_eq!(parse_i32_bytes(b"-2147483649"), None);
    assert_eq!(parse_i32_bytes(b"-"), None);
    assert_eq!(parse_i32_bytes(b"4-2"), None);
}

#[test]
fn cantor_pairing_is_exact_and_saturates() {
    // pair(0,0) twice is 0
    assert_eq!(cantor_pair(Rgb { r: 0, g: 0, b: 0 }), 0);
    // pair(1,2) = 8; pair(8,3) = 69
    assert_eq!(cantor_pair(Rgb { r: 1, g: 2, b: 3 }), 69);
    // the full-white key exceeds 32 bits and saturates
    assert_eq!(cantor_pair(Rgb { r: 255, g: 255, b: 255 }), u32::MAX);
}

fn sample_file() -> Vec<u8> {
    let mut f = Vec::new();
    f.extend_from_slice(b"ply\r\n");
    f.extend_from_slice(b"format ascii 1.0\r\n");
    f.extend_from_slice(b"comment made by hand\r\n");
    f.extend_from_slice(b"element vertex 2\r\n");
    f.extend_from_slice(b"property float x\r\n");
    f.extend_from_slice(b"property float y\r\n");
    f.extend_from_slice(b"property float z\r\n");
    f.extend_from_slice(b"property uchar r\r\n");
    f.extend_from_slice(b"end_header\r\n");
    f.extend_from_slice(b"4 5 6 1\r\n");
    f.extend_from_slice(b"-1 2 3 0\r\n");
    f
}

#[test]
fn parse_ply_loads_points_and_albedos() {
    let content = parse_ply(&sample_file()).unwrap();
    assert_eq!(content.header.vertex, 2);
    assert_eq!(content.header.properties.len(), 4);
    assert_eq!(content.voxels.len(), 2);
    assert_eq!(
        (content.voxels[0].pos.x, content.voxels[0].pos.y, content.voxels[0].pos.z),
        (4, 5, 6)
    );
    assert_eq!(
        (content.voxels[1].pos.x, content.voxels[1].pos.y, content.voxels[1].pos.z),
        (-1, 2, 3)
    );
    // the minimum corner tracks every axis independently
    assert_eq!(
        (content.min_point.x, content.min_point.y, content.min_point.z),
        (-1, 2, 3)
    );
    // both albedo keys are filed in the table
    let k0 = content.voxels[0].albedo_key;
    let k1 = content.voxels[1].albedo_key;
    assert_eq!(k0, cantor_pair(Rgb { r: 1, g: 0, b: 0 }));
    assert_eq!(k1, cantor_pair(Rgb { r: 0, g: 0, b: 0 }));
    assert_eq!(content.albedos.get(&k0), Some(&Rgb { r: 1, g: 0, b: 0 }));
    assert_eq!(content.albedos.get(&k1), Some(&Rgb { r: 0, g: 0, b: 0 }));
}

#[test]
fn parse_ply_rejects_bad_magic_and_format() {
    let e = parse_ply(b"plz\r\nformat ascii 1.0\r\nend_header\r\n").unwrap_err();
    assert!(matches!(
        e,
        ParseError::Unexpected(_, ReadState::ReadHeader(HeaderSubstate::Ply), 2)
    ));
    let e = parse_ply(b"ply\r\nformat binary 1.0\r\nxxxxxxxxxxxxxxxxx").unwrap_err();
    assert!(matches!(
        e,
        ParseError::Unexpected(_, ReadState::ReadHeader(HeaderSubstate::Format), _)
    ));
    let e = parse_ply(b"ply").unwrap_err();
    assert!(matches!(
        e,
        ParseError::Unexpected(_, ReadState::ReadHeader(HeaderSubstate::Ply), 3)
    ));
}

#[test]
fn parse_ply_rejects_unknown_header_lines() {
    let e = parse_ply(b"ply\r\nformat ascii 1.0\r\nbogus line\r\nend_header\r\n").unwrap_err();
    assert!(matches!(
        e,
        ParseError::Unexpected(_, ReadState::ReadHeader(HeaderSubstate::InferLine), _)
    ));
    let e = parse_ply(b"ply\r\nformat ascii 1.0\r\nproperty double x\r\nend_header\r\n")
        .unwrap_err();
    assert!(matches!(
        e,
        ParseError::Unexpected(_, ReadState::ReadHeader(HeaderSubstate::Propery), _)
    ));
}

#[test]
fn parse_ply_rejects_a_header_that_just_stops() {
    // the input ends while the parser still expects header lines
    let e = parse_ply(b"ply\r\nformat ascii 1.0\r\n").unwrap_err();
    assert!(matches!(
        e,
        ParseError::InvalidState(ReadState::ReadHeader(HeaderSubstate::InferLine), 23)
    ));
}

#[test]
fn parse_ply_rejects_malformed_records() {
    let mut f = Vec::new();
    f.extend_from_slice(b"ply\r\n");
    f.extend_from_slice(b"format ascii 1.0\r\n");
    f.extend_from_slice(b"property float x\r\n");
    f.extend_from_slice(b"end_header\r\n");
    f.extend_from_slice(b"notanumber\r\n");
    let e = parse_ply(&f).unwrap_err();
    assert!(matches!(e, ParseError::Unexpected(_, ReadState::ReadPoint, _)));
}
