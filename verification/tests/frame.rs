use chess_net::frame::{frame, frame_length, split_frame, HEADER_LEN};

#[test]
fn frame_known_bytes() {
    assert_eq!(frame(&[]), Some(vec![0, 0, 0, 0]));
    assert_eq!(frame(&[7]), Some(vec![0, 0, 0, 1, 7]));
    assert_eq!(
        frame(&[0x0a, 4, 0x08, 12, 0x10, 28]),
        Some(vec![0, 0, 0, 6, 0x0a, 4, 0x08, 12, 0x10, 28])
    );
}

#[test]
fn frame_header_is_big_endian() {
    let payload = vec![0xabu8; 0x0102_03];
    let framed = frame(&payload).expect("short enough");
    assert_eq!(&framed[..4], &[0x00, 0x01, 0x02, 0x03]);
    assert_eq!(framed.len(), HEADER_LEN + payload.len());
    assert_eq!(&framed[4..], &payload[..]);
}

#[test]
fn frame_length_reads_the_header() {
    assert_eq!(frame_length(&[0, 0, 0, 0]), Some(0));
    assert_eq!(frame_length(&[0, 0, 0, 6, 1, 2]), Some(6));
    assert_eq!(frame_length(&[0x01, 0x02, 0x03, 0x04]), Some(0x0102_0304));
    assert_eq!(frame_length(&[0xff, 0xff, 0xff, 0xff]), Some(0xffff_ffff));
    assert_eq!(frame_length(&[]), None);
    assert_eq!(frame_length(&[0, 0, 0]), None);
}

#[test]
fn split_frame_finds_the_first_message() {
    assert_eq!(split_frame(&[0, 0, 0, 0]), Some((4, 4)));
    assert_eq!(split_frame(&[0, 0, 0, 2, 9, 8]), Some((4, 6)));
    assert_eq!(split_frame(&[0, 0, 0, 2, 9, 8, 0, 0, 0, 1, 7]), Some((4, 6)));
}

#[test]
fn split_frame_waits_for_a_whole_frame() {
    assert_eq!(split_frame(&[]), None);
    assert_eq!(split_frame(&[0, 0, 0]), None);
    assert_eq!(split_frame(&[0, 0, 0, 2]), None);
    assert_eq!(split_frame(&[0, 0, 0, 2, 9]), None);
    assert_eq!(split_frame(&[0xff, 0xff, 0xff, 0xff, 1, 2, 3]), None);
}

#[test]
fn frames_round_trip_one_after_the_other() {
    let first: Vec<u8> = vec![1, 2, 3];
    let second: Vec<u8> = (0..=255).collect();
    let mut stream = frame(&first).expect("short enough");
    stream.extend(frame(&second).expect("short enough"));
    let (start, end) = split_frame(&stream).expect("a whole frame");
    assert_eq!(&stream[start..end], &first[..]);
    let rest = &stream[end..];
    let (start, end) = split_frame(rest).expect("a whole frame");
    assert_eq!(&rest[start..end], &second[..]);
    assert_eq!(split_frame(&rest[end..]), None);
}
