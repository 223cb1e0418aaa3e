use chatcore::FrameReader;

fn text(frame: &[char]) -> String {
    frame.iter().collect()
}

#[test]
fn frame_split_across_two_reads_is_reassembled() {
    let mut reader = FrameReader::new();
    reader.feed(b"JOIN al");
    assert!(reader.next_frame().is_none());
    reader.feed(b"ice\n");
    let frame = reader.next_frame().expect("a complete frame");
    assert_eq!(text(&frame), "JOIN alice");
    assert!(reader.next_frame().is_none());
}

#[test]
fn two_frames_in_one_read_come_out_in_order() {
    let mut reader = FrameReader::new();
    reader.feed(b"JOIN alice\nLEAVE\n");
    let first = reader.next_frame().expect("first frame");
    let second = reader.next_frame().expect("second frame");
    assert_eq!(text(&first), "JOIN alice");
    assert_eq!(text(&second), "LEAVE");
    assert!(reader.next_frame().is_none());
}

#[test]
fn frames_are_trimmed_of_surrounding_whitespace() {
    let mut reader = FrameReader::new();
    reader.feed(b"  JOIN bob \r\n");
    let frame = reader.next_frame().expect("a frame");
    assert_eq!(text(&frame), "JOIN bob");
}

#[test]
fn incomplete_tail_waits_for_more_bytes() {
    let mut reader = FrameReader::new();
    reader.feed(b"USERBOARD\nUSERST");
    let first = reader.next_frame().expect("complete frame");
    assert_eq!(text(&first), "USERBOARD");
    assert!(reader.next_frame().is_none());
    reader.feed(b"ATUS alice ONLINE\n");
    let second = reader.next_frame().expect("completed frame");
    assert_eq!(text(&second), "USERSTATUS alice ONLINE");
}

#[test]
fn empty_line_yields_an_empty_frame() {
    let mut reader = FrameReader::new();
    reader.feed(b"\n");
    let frame = reader.next_frame().expect("a frame");
    assert_eq!(text(&frame), "");
}

#[test]
fn multibyte_character_split_across_reads_is_reassembled() {
    let mut reader = FrameReader::new();
    reader.feed(b"JOIN caf\xc3");
    assert!(reader.next_frame().is_none());
    reader.feed(b"\xa9\n");
    let frame = reader.next_frame().expect("a complete frame");
    assert_eq!(text(&frame), "JOIN caf\u{e9}");
}

#[test]
fn unicode_whitespace_is_trimmed() {
    let mut reader = FrameReader::new();
    reader.feed(b"\xc2\xa0JOIN bob\xc2\xa0\n");
    let frame = reader.next_frame().expect("a frame");
    assert_eq!(text(&frame), "JOIN bob");
}

#[test]
fn byte_by_byte_feeding_reassembles() {
    let mut reader = FrameReader::new();
    for b in b"LEAVE\n" {
        reader.feed(std::slice::from_ref(b));
    }
    let frame = reader.next_frame().expect("a frame");
    assert_eq!(text(&frame), "LEAVE");
}
