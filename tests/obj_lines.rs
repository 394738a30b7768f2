use raster::obj::{line_kind, parse_corner, parse_face, parse_i32, split_bytes, LineKind};
use raster::raster::screen_size_fits;

#[test]
fn classifies_lines_by_prefix() {
    assert_eq!(line_kind(b"f 1 2 3"), LineKind::Face);
    assert_eq!(line_kind(b"v 0 1 2"), LineKind::Position);
    assert_eq!(line_kind(b"vn 0 0 1"), LineKind::Normal);
    assert_eq!(line_kind(b"vt 0.5 0.5"), LineKind::TexCoord);
    assert_eq!(line_kind(b"# note"), LineKind::Comment);
    assert_eq!(line_kind(b"g"), LineKind::Blank);
    assert_eq!(line_kind(b""), LineKind::Blank);
    assert_eq!(line_kind(b"usemtl x"), LineKind::Unknown);
}

#[test]
fn splits_like_str_split() {
    let pieces = split_bytes(b"1//3", b'/');
    assert_eq!(pieces, vec![b"1".to_vec(), vec![], b"3".to_vec()]);
    assert_eq!(split_bytes(b"", b' '), vec![Vec::<u8>::new()]);
    assert_eq!(split_bytes(b"a ", b' '), vec![b"a".to_vec(), vec![]]);
}

#[test]
fn parses_signed_integers() {
    assert_eq!(parse_i32(b"42"), Some(42));
    assert_eq!(parse_i32(b"-7"), Some(-7));
    assert_eq!(parse_i32(b"+7"), Some(7));
    assert_eq!(parse_i32(b"2147483647"), Some(i32::MAX));
    assert_eq!(parse_i32(b"-2147483648"), Some(i32::MIN));
    assert_eq!(parse_i32(b"2147483648"), None);
    assert_eq!(parse_i32(b"99999999999999999999"), None);
    assert_eq!(parse_i32(b""), None);
    assert_eq!(parse_i32(b"-"), None);
    assert_eq!(parse_i32(b"1a"), None);
}

#[test]
fn corner_fields_default_to_absent() {
    assert_eq!(parse_corner(b"3", (5, 5, 5)), Some((3, 0, 0)));
    assert_eq!(parse_corner(b"3//2", (5, 5, 5)), Some((3, 0, 2)));
    assert_eq!(parse_corner(b"3/4/2", (5, 5, 5)), Some((3, 4, 2)));
    assert_eq!(parse_corner(b"-1/-2/-5", (5, 6, 7)), Some((5, 5, 3)));
    assert_eq!(parse_corner(b"x/1/1", (5, 5, 5)), None);
}

#[test]
fn parses_face_lines() {
    assert_eq!(parse_face(b"f 1/1/1 2/2/2  3/3/3", (3, 3, 3)), Some(vec![(1, 1, 1), (2, 2, 2), (3, 3, 3)]));
    assert_eq!(parse_face(b"f -3 -2 -1", (10, 0, 0)), Some(vec![(8, 0, 0), (9, 0, 0), (10, 0, 0)]));
    assert_eq!(parse_face(b"f 1 two 3", (3, 0, 0)), None);
    assert_eq!(parse_face(b"f ", (3, 0, 0)), Some(vec![]));
}

#[test]
fn screen_size_limits() {
    assert!(screen_size_fits(80, 24));
    assert!(!screen_size_fits(0, 24));
    assert!(!screen_size_fits(80, -1));
    assert!(!screen_size_fits(50000, 50000));
}
