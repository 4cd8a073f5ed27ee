use wasm2env::memory::{build_memory_map, read_string, DataSegment, MAX_STRING_BYTES};

fn segment(offset: u32, data: &[u8]) -> DataSegment {
    DataSegment { offset, data: data.to_vec() }
}

#[test]
fn image_holds_the_segment_bytes() {
    let image = build_memory_map(&[segment(100, b"abc"), segment(200, b"xy")]);
    assert_eq!(image.get(99), None);
    assert_eq!(image.get(100), Some(b'a'));
    assert_eq!(image.get(102), Some(b'c'));
    assert_eq!(image.get(103), None);
    assert_eq!(image.get(200), Some(b'x'));
    assert_eq!(image.get(201), Some(b'y'));
    assert_eq!(image.get(202), None);
}

#[test]
fn empty_image() {
    let image = build_memory_map(&[]);
    assert_eq!(image.get(0), None);
    assert_eq!(read_string(&image, 0, 1), None);
    let image = build_memory_map(&[segment(7, b"")]);
    assert_eq!(image.get(7), None);
}

#[test]
fn later_segment_wins() {
    let image = build_memory_map(&[segment(10, b"AAAA"), segment(12, b"BB"), segment(9, b"C")]);
    assert_eq!(read_string(&image, 9, 5), Some("CAABB".to_string()));
    let image = build_memory_map(&[segment(12, b"BB"), segment(10, b"AAAA")]);
    assert_eq!(read_string(&image, 10, 4), Some("AAAA".to_string()));
}

#[test]
fn bytes_beyond_the_address_space_are_not_placed() {
    let image = build_memory_map(&[segment(u32::MAX - 1, b"abcd")]);
    assert_eq!(image.get(u32::MAX - 1), Some(b'a'));
    assert_eq!(image.get(u32::MAX), Some(b'b'));
    assert_eq!(image.get(0), None);
    assert_eq!(image.get(1), None);
    assert_eq!(read_string(&image, u32::MAX - 1, 2), Some("ab".to_string()));
    assert_eq!(read_string(&image, u32::MAX - 1, 3), None);
    assert_eq!(read_string(&image, u32::MAX, 2), None);
}

#[test]
fn read_string_checks_the_length() {
    let data = vec![b'a'; 1200];
    let image = build_memory_map(&[segment(0, &data)]);
    assert_eq!(read_string(&image, 0, 0), None);
    assert_eq!(read_string(&image, 0, 1), Some("a".to_string()));
    assert_eq!(MAX_STRING_BYTES, 1000);
    assert_eq!(read_string(&image, 0, 1000), Some("a".repeat(1000)));
    assert_eq!(read_string(&image, 0, 1001), None);
    assert_eq!(read_string(&image, 200, 1000), Some("a".repeat(1000)));
    assert_eq!(read_string(&image, 201, 1000), None);
}

#[test]
fn read_string_needs_every_byte() {
    let image = build_memory_map(&[segment(100, b"DATABASE"), segment(109, b"URL")]);
    assert_eq!(read_string(&image, 100, 8), Some("DATABASE".to_string()));
    assert_eq!(read_string(&image, 100, 9), None);
    assert_eq!(read_string(&image, 100, 12), None);
    assert_eq!(read_string(&image, 99, 4), None);
    assert_eq!(read_string(&image, 109, 3), Some("URL".to_string()));
    assert_eq!(read_string(&image, 104, 4), Some("BASE".to_string()));
}

#[test]
fn read_string_decodes_utf8() {
    let image = build_memory_map(&[
        segment(0, "grüße".as_bytes()),
        segment(100, &[b'a', 0xff, b'b']),
        segment(200, &[0xe2, 0x82]),
    ]);
    assert_eq!(read_string(&image, 0, 7), Some("grüße".to_string()));
    // cut inside a character
    assert_eq!(read_string(&image, 0, 3), None);
    assert_eq!(read_string(&image, 0, 4), Some("grü".to_string()));
    assert_eq!(read_string(&image, 100, 3), None);
    assert_eq!(read_string(&image, 100, 1), Some("a".to_string()));
    assert_eq!(read_string(&image, 200, 2), None);
}
