use rkvm2::codec::MessageCodec;

#[test]
fn short_body_gets_one_length_byte() {
    let mut c = MessageCodec::new();
    let mut out = vec![9u8];
    c.encode(&[1, 2, 3], &mut out);
    assert_eq!(out, vec![9, 3, 1, 2, 3]);
}

#[test]
fn long_body_gets_a_varint_length() {
    let mut c = MessageCodec::new();
    let body = vec![7u8; 300];
    let mut out = Vec::new();
    c.encode(&body, &mut out);
    assert_eq!(&out[..2], &[0xAC, 0x02]);
    assert_eq!(out.len(), 302);
    assert_eq!(c.decode(&out), Some((2, 302)));
}

#[test]
fn frames_decode_one_after_another() {
    let mut c = MessageCodec::new();
    let mut out = Vec::new();
    c.encode(b"ab", &mut out);
    c.encode(b"", &mut out);
    c.encode(b"xyz", &mut out);
    let (s, e) = c.decode(&out).unwrap();
    assert_eq!(&out[s..e], b"ab");
    let rest = &out[e..];
    let (s, e) = c.decode(rest).unwrap();
    assert_eq!((s, e), (1, 1));
    let rest = &rest[e..];
    let (s, e) = c.decode(rest).unwrap();
    assert_eq!(&rest[s..e], b"xyz");
}

#[test]
fn incomplete_or_corrupt_frames_are_not_decoded() {
    let mut c = MessageCodec::new();
    assert_eq!(c.decode(&[]), None);
    assert_eq!(c.decode(&[5, 1, 2]), None);
    assert_eq!(c.decode(&[0x80]), None);
    assert_eq!(c.decode(&[0xff; 11]), None);
    assert_eq!(c.decode(&[0x80, 0x00]), Some((2, 2)));
}
