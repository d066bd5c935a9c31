use communication::protocol::{
    get_id, get_protocol, set_id, set_protocol, strip, DecodeError, Message, ProtocolID, CODE_LEN,
    DATAGRAM_LEN, HEADER_LEN, ID_LEN, PROTOCOL_LEN,
};

fn session(tag: &str, id: &str) -> ProtocolID {
    let mut s = ProtocolID::new();
    set_protocol(&mut s, tag.to_string());
    set_id(&mut s, &id.to_string());
    s
}

#[test]
fn header_widths_add_up() {
    assert_eq!(PROTOCOL_LEN + ID_LEN + CODE_LEN, HEADER_LEN);
    assert_eq!(HEADER_LEN, 17);
}

#[test]
fn new_session_is_unset() {
    let s = ProtocolID::new();
    assert_eq!(get_protocol(&s), None);
    assert_eq!(get_id(&s), None);
}

#[test]
fn set_protocol_keeps_four_bytes() {
    let s = session("MOYU", "alice");
    assert_eq!(get_protocol(&s), Some(b"MOYU".to_vec()));
}

#[test]
fn set_protocol_fills_a_short_tag() {
    let s = session("AB", "alice");
    assert_eq!(get_protocol(&s), Some(vec![b'A', b'B', 0, 0]));
}

#[test]
fn set_protocol_cuts_a_long_tag() {
    let s = session("MOYUXYZ", "alice");
    assert_eq!(get_protocol(&s), Some(b"MOYU".to_vec()));
}

#[test]
fn set_protocol_cuts_by_bytes() {
    // Three bytes of "é€" are "é" and the first byte of "€".
    let s = session("aé€", "alice");
    assert_eq!(get_protocol(&s), Some(vec![b'a', 0xC3, 0xA9, 0xE2]));
}

#[test]
fn set_id_fills_to_twelve_bytes() {
    let s = session("MOYU", "alice");
    assert_eq!(get_id(&s), Some(b"alice\0\0\0\0\0\0\0".to_vec()));
}

#[test]
fn set_id_cuts_at_twelve_bytes() {
    let s = session("MOYU", "abcdefghijklmnop");
    assert_eq!(get_id(&s), Some(b"abcdefghijkl".to_vec()));
}

#[test]
fn set_id_of_nothing_is_all_fill() {
    let s = session("MOYU", "");
    assert_eq!(get_id(&s), Some(vec![0u8; 12]));
    assert_eq!(Message::parse_id(&s.id), "");
}

#[test]
fn to_buf_writes_the_fields_in_order() {
    let s = session("MOYU", "alice");
    let m = Message::new(2, &"hi".to_string(), &s);
    assert_eq!(m.to_buf(), b"MOYUalice\0\0\0\0\0\0\0\x02hi".to_vec());
}

#[test]
fn to_buf_fills_a_short_id() {
    let m = Message {
        code: 2,
        message: "hi".into(),
        pro_id: ProtocolID { protocol: "MOYU".into(), id: "bob".into() },
    };
    let buf = m.to_buf();
    assert_eq!(buf.len(), 19);
    assert_eq!(buf[16], 2);
    assert_eq!(buf[4..16], *b"bob\0\0\0\0\0\0\0\0\0");
    assert_eq!(buf, b"MOYUbob\0\0\0\0\0\0\0\0\0\x02hi".to_vec());
}

#[test]
fn to_buf_cuts_long_fields() {
    let m = Message {
        code: 1,
        message: "x".into(),
        pro_id: ProtocolID { protocol: "MOYUMOYU".into(), id: "abcdefghijklmnop".into() },
    };
    assert_eq!(m.to_buf(), b"MOYUabcdefghijkl\x01x".to_vec());
}

#[test]
fn to_buf_in_an_unset_session_still_has_a_header() {
    let m = Message::new(3, &"bye".to_string(), &ProtocolID::new());
    let mut expected = vec![0u8; 16];
    expected.push(3);
    expected.extend_from_slice(b"bye");
    assert_eq!(m.to_buf(), expected);
}

#[test]
fn round_trip_of_a_frame_made_by_hand() {
    let s = session("MO", "x");
    let m = Message {
        code: 2,
        message: "hi".into(),
        pro_id: ProtocolID { protocol: "MO".into(), id: "bob".into() },
    };
    let back = Message::parse(&m.to_buf(), &s).unwrap();
    assert_eq!(back.code, 2);
    assert_eq!(back.message, "hi");
    assert_eq!(back.pro_id.protocol, vec![b'M', b'O', 0, 0]);
    assert_eq!(Message::parse_id(&back.pro_id.id), "bob");
}

#[test]
fn fits_counts_the_header() {
    assert_eq!(DATAGRAM_LEN, 512);
    let s = session("MOYU", "alice");
    let most = Message::new(2, &"a".repeat(495), &s);
    assert!(most.fits());
    assert_eq!(most.to_buf().len(), 512);
    let more = Message::new(2, &"a".repeat(496), &s);
    assert!(!more.fits());
    // The bound is on bytes: 248 characters of two bytes are 496.
    assert!(!Message::new(2, &"é".repeat(248), &s).fits());
    assert!(Message::new(2, &"é".repeat(247), &s).fits());
    assert!(Message::new(2, &String::new(), &s).fits());
}

#[test]
fn to_buf_of_an_empty_text_is_the_header() {
    let s = session("MOYU", "alice");
    let m = Message::new(0, &String::new(), &s);
    assert_eq!(m.to_buf().len(), 17);
}

#[test]
fn round_trip_gives_the_frame_back() {
    let s = session("MOYU", "alice");
    for code in 0u8..=4 {
        let m = Message::new(code, &"héllo, wörld ✓".to_string(), &s);
        let back = Message::parse(&m.to_buf(), &s).unwrap();
        assert_eq!(back.code, code);
        assert_eq!(back.message, "héllo, wörld ✓");
        assert_eq!(back.pro_id.protocol, b"MOYU".to_vec());
        assert_eq!(back.pro_id.id, s.id);
        assert_eq!(Message::parse_id(&back.pro_id.id), "alice");
    }
}

#[test]
fn round_trip_of_a_full_width_id() {
    let s = session("MOYU", "abcdefghijkl");
    let m = Message::new(2, &"x".to_string(), &s);
    let back = Message::parse(&m.to_buf(), &s).unwrap();
    assert_eq!(Message::parse_id(&back.pro_id.id), "abcdefghijkl");
}

#[test]
fn round_trip_of_an_id_of_fill_is_empty() {
    let s = session("MOYU", "\0\0\0");
    let m = Message::new(2, &"x".to_string(), &s);
    let back = Message::parse(&m.to_buf(), &s).unwrap();
    assert_eq!(Message::parse_id(&back.pro_id.id), "");
}

#[test]
fn parse_cuts_the_header_by_position() {
    let s = session("MOYU", "me");
    let m = Message::parse(b"MOYU1230000000001Hello", &s).unwrap();
    assert_eq!(m.code, b'1');
    assert_eq!(m.message, "Hello");
    assert_eq!(m.pro_id.id, b"123000000000".to_vec());
    assert_eq!(m.pro_id.protocol, b"MOYU".to_vec());
}

#[test]
fn parse_rejects_another_tag() {
    let s = session("MOYU", "alice");
    let r = Message::parse(b"MOYValice\0\0\0\0\0\0\0\x02hi", &s);
    assert_eq!(r.unwrap_err(), DecodeError::ProtocolMismatch);
    let r = Message::parse(b"XXXXalice\0\0\0\0\0\0\0\x02", &s);
    assert_eq!(r.unwrap_err(), DecodeError::ProtocolMismatch);
    let r = Message::parse(&[0xFFu8; 40], &s);
    assert_eq!(r.unwrap_err(), DecodeError::ProtocolMismatch);
}

#[test]
fn parse_compares_the_tag_by_bytes() {
    // Read leniently, the bytes F0 90 80 41 and the tag's own both give "\u{FFFD}A".
    let s = session("\u{FFFD}A", "alice");
    let mut frame = vec![0xF0, 0x90, 0x80, 0x41];
    frame.extend_from_slice(b"alice\0\0\0\0\0\0\0\x02hi");
    assert_eq!(Message::parse(&frame, &s).unwrap_err(), DecodeError::ProtocolMismatch);
}

#[test]
fn parse_rejects_a_short_frame() {
    let s = session("MOYU", "alice");
    assert_eq!(Message::parse(b"", &s).unwrap_err(), DecodeError::ShortFrame);
    assert_eq!(Message::parse(b"MOYU", &s).unwrap_err(), DecodeError::ShortFrame);
    assert_eq!(Message::parse(b"MOYUalice\0\0\0\0\0\0\0", &s).unwrap_err(), DecodeError::ShortFrame);
    assert_eq!(Message::parse(b"XXXXX", &s).unwrap_err(), DecodeError::ShortFrame);
}

#[test]
fn decode_errors_have_words() {
    assert_eq!(DecodeError::ShortFrame.to_string(), "Frame too short");
    assert_eq!(DecodeError::ProtocolMismatch.to_string(), "Protocol invalid");
}

#[test]
fn parse_accepts_a_bare_header() {
    let s = session("MOYU", "alice");
    let m = Message::parse(b"MOYUalice\0\0\0\0\0\0\0\x03", &s).unwrap();
    assert_eq!(m.code, 3);
    assert_eq!(m.message, "");
}

#[test]
fn parse_in_an_unset_session_accepts_nothing() {
    let s = ProtocolID::new();
    let r = Message::parse(b"MOYUalice\0\0\0\0\0\0\0\x02hi", &s);
    assert_eq!(r.unwrap_err(), DecodeError::ProtocolMismatch);
    let r = Message::parse(b"\0\0\0\0alice\0\0\0\0\0\0\0\x02hi", &s);
    assert_eq!(r.unwrap_err(), DecodeError::ProtocolMismatch);
}

#[test]
fn parse_replaces_what_is_no_utf8() {
    let s = session("MOYU", "alice");
    let mut frame = b"MOYUalice\0\0\0\0\0\0\0\x02".to_vec();
    frame.extend_from_slice(&[b'a', 0xFF, b'b']);
    let m = Message::parse(&frame, &s).unwrap();
    assert_eq!(m.message, "a\u{FFFD}b");
}

#[test]
fn parse_id_strips_only_the_end() {
    assert_eq!(Message::parse_id(b"a\0b\0\0"), "a\0b");
    assert_eq!(Message::parse_id(b"\0ab"), "\0ab");
    assert_eq!(Message::parse_id(b"user10\0\0\0\0\0\0"), "user10");
    assert_eq!(Message::parse_id(b""), "");
    assert_eq!(Message::parse_id(&[0u8; 12]), "");
}

#[test]
fn parse_id_reads_a_cut_character_leniently() {
    let s = session("MOYU", "abcdefghijké");
    assert_eq!(s.id.len(), 12);
    assert_eq!(Message::parse_id(&s.id), "abcdefghijk\u{FFFD}");
}

#[test]
fn strip_keeps_what_does_not_end_in_fill() {
    assert_eq!(strip(b"abc"), b"abc");
    assert_eq!(strip(b"abc\0\0"), b"abc");
    assert_eq!(strip(b"\0\0"), b"");
}

#[test]
fn to_string_is_sender_tab_text() {
    let s = session("MOYU", "alice");
    let m = Message::new(2, &"hi there".to_string(), &s);
    assert_eq!(m.to_string(), "alice:\thi there");
}

#[test]
fn clone_keeps_every_field() {
    let s = session("MOYU", "alice");
    let m = Message::new(2, &"hi".to_string(), &s);
    let c = m.clone();
    assert_eq!(c.code, m.code);
    assert_eq!(c.message, m.message);
    assert_eq!(c.pro_id.protocol, m.pro_id.protocol);
    assert_eq!(c.pro_id.id, m.pro_id.id);
}
