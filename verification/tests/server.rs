use bang::server::{
    apply_mask, check_ws, decode_frame, encode, encode_frame, frame_bytes_missing, ext_len_size, ext_len_value,
    frame_head, get_upgrade_response, may_spawn, ping_frame, pong_frame, Frame, HeaderLine,
    Opcode,
};

fn line(field: &str, value: &str) -> HeaderLine {
    HeaderLine { field: field.to_string(), value: value.to_string() }
}

#[test]
fn opcodes() {
    assert!(matches!(Opcode::from(0u8), Opcode::Fragment));
    assert!(matches!(Opcode::from(1u8), Opcode::Text));
    assert!(matches!(Opcode::from(9u8), Opcode::Ping));
    assert!(matches!(Opcode::from(10u8), Opcode::Pong));
    assert!(matches!(Opcode::from(3u8), Opcode::Unknown));
    assert_eq!(Opcode::Close.value(), 8);
    assert_eq!(Opcode::Unknown.value(), 16);
    assert_eq!(Opcode::Binary.to_string(), "Binary");
}

#[test]
fn accept_key_of_the_rfc_example() {
    assert_eq!(encode("dGhlIHNhbXBsZSBub25jZQ==".to_string()), "s3pPLMBiTxaQ9kYGzzhZRbK+xOo=");
}

#[test]
fn upgrade_requests() {
    let asks = vec![line("Host", "x"), line("connection", "keep-alive, Upgrade")];
    assert!(check_ws(&asks));
    let plain = vec![line("Connection", "close"), line("Upgrade", "websocket")];
    assert!(!check_ws(&plain));
    assert!(!check_ws(&vec![line("Host", "x")]));
    let first_counts = vec![line("Connection", "close"), line("Connection", "upgrade")];
    assert!(!check_ws(&first_counts));
}

#[test]
fn upgrade_response() {
    let headers = vec![
        line("Connection", "Upgrade"),
        line("Sec-WebSocket-Key", "dGhlIHNhbXBsZSBub25jZQ=="),
    ];
    let r = get_upgrade_response(&headers);
    assert_eq!(r.status, 101);
    assert_eq!(r.body, "s3pPLMBiTxaQ9kYGzzhZRbK+xOo=");
    assert_eq!(r.headers.len(), 3);
    assert_eq!(r.headers[0].field, "Sec-WebSocket-Accept");
    assert_eq!(r.headers[0].value, "s3pPLMBiTxaQ9kYGzzhZRbK+xOo=");
    assert_eq!(r.headers[1].field, "Connection");
    assert_eq!(r.headers[1].value, "Upgrade");
    assert_eq!(r.headers[2].field, "Upgrade");
    assert_eq!(r.headers[2].value, "websocket");
}

#[test]
fn writing_a_small_frame() {
    let f = Frame::new(true, false, false, false, Opcode::Text, None, b"hi".to_vec());
    assert_eq!(encode_frame(&f), vec![0x81, 0x02, b'h', b'i']);
    assert_eq!(f.content_len(), 2);
    assert_eq!(f.text().unwrap(), "hi");
    assert!(f.fin() && !f.rsv1() && !f.rsv2() && !f.rsv3());
    assert!(matches!(f.opcode(), Opcode::Text));
    assert!(f.mask().is_none());
    assert_eq!(f.bytes(), b"hi".to_vec());
}

#[test]
fn writing_a_masked_frame() {
    let key = vec![1u8, 2, 3, 4];
    let f = Frame::new(true, false, false, false, Opcode::Binary, Some(key), vec![0, 0, 0, 0, 0]);
    assert_eq!(encode_frame(&f), vec![0x82, 0x05, 1, 2, 3, 4, 1, 2, 3, 4, 1]);
}

#[test]
fn writing_a_medium_frame() {
    let content = vec![7u8; 200];
    let f = Frame::new(true, false, false, false, Opcode::Binary, None, content.clone());
    let bytes = encode_frame(&f);
    assert_eq!(&bytes[..10], &[0x82, 126, 0, 0, 0, 0, 0, 0, 0, 200]);
    assert_eq!(&bytes[10..], content.as_slice());
}

#[test]
fn reading_a_masked_frame() {
    let bytes = vec![0x81, 0x85, 0x37, 0xfa, 0x21, 0x3d, 0x7f, 0x9f, 0x4d, 0x51, 0x58, 0xaa];
    let (f, used) = decode_frame(&bytes).unwrap();
    assert_eq!(used, 11);
    assert_eq!(f.text().unwrap(), "Hello");
    assert_eq!(f.mask().as_ref().unwrap(), &vec![0x37, 0xfa, 0x21, 0x3d]);
    assert!(decode_frame(&bytes[..6]).is_none());
    assert!(decode_frame(&[0x81]).is_none());
}

#[test]
fn frame_round_trip() {
    let f = Frame::new(false, true, false, true, Opcode::Close, None, b"bye".to_vec());
    let bytes = encode_frame(&f);
    let (g, used) = decode_frame(&bytes).unwrap();
    assert_eq!(used, bytes.len());
    assert_eq!((g.fin(), g.rsv1(), g.rsv2(), g.rsv3()), (false, true, false, true));
    assert!(matches!(g.opcode(), Opcode::Close));
    assert_eq!(g.bytes(), b"bye".to_vec());
    let long = vec![5u8; 70000];
    let f = Frame::new(true, false, false, false, Opcode::Binary, None, long.clone());
    let (g, _) = decode_frame(&encode_frame(&f)).unwrap();
    assert_eq!(g.bytes(), long);
}

#[test]
fn masking_twice_restores() {
    let content = b"masked payload".to_vec();
    let key = [9u8, 8, 7, 6];
    let once = apply_mask(&content, &key);
    assert_ne!(once, content);
    assert_eq!(once[0], b'm' ^ 9);
    assert_eq!(apply_mask(&once, &key), content);
}

#[test]
fn control_frames() {
    assert_eq!(ping_frame(b"ab"), vec![0x89, 0x02, b'a', b'b']);
    assert_eq!(pong_frame(b"ab", 125), Some(vec![0x8A, 0x02, b'a', b'b']));
    assert_eq!(pong_frame(b"abc", 2), None);
}

#[test]
fn frame_heads() {
    let h = frame_head(0x89, 0xfe);
    assert!(h.fin && !h.rsv1 && !h.rsv2 && !h.rsv3);
    assert!(matches!(h.opcode, Opcode::Ping));
    assert!(h.masked);
    assert_eq!(h.len7, 126);
    assert_eq!(ext_len_size(125), 0);
    assert_eq!(ext_len_size(126), 2);
    assert_eq!(ext_len_size(127), 8);
    assert_eq!(ext_len_value(&[0x01, 0x00]), 256);
    assert_eq!(ext_len_value(&[0, 0, 0, 0, 0, 1, 0, 1]), 65537);
}

#[test]
fn pool_limits() {
    assert!(may_spawn(3, None));
    assert!(may_spawn(3, Some(3)));
    assert!(!may_spawn(4, Some(3)));
}

#[test]
fn opcode_round_trip() {
    for op in [Opcode::Fragment, Opcode::Text, Opcode::Binary, Opcode::Close, Opcode::Ping, Opcode::Pong] {
        assert!(op.value() < 16);
        assert_eq!(Opcode::from(op.value()).value(), op.value());
    }
}

#[test]
fn frames_are_shown() {
    let f = Frame::new(true, false, false, false, Opcode::Text, Some(vec![1, 2, 3, 4]), vec![104, 105]);
    assert_eq!(
        f.to_string(),
        "Frame(fin: true, rsv1: false, rsv2: false, rsv3: false, opcode: Text, mask: Some([1, 2, 3, 4]), content: [104, 105])"
    );
    let content = vec![0u8, 7, 255];
    let g = Frame::new(false, true, true, true, Opcode::Pong, None, content.clone());
    assert_eq!(
        g.to_string(),
        format!("Frame(fin: false, rsv1: true, rsv2: true, rsv3: true, opcode: Pong, mask: None, content: {:?})", content)
    );
    let empty = Frame::new(true, false, false, false, Opcode::Close, None, Vec::new());
    assert!(empty.to_string().ends_with("content: [])"));
}

#[test]
fn bytes_missing_from_a_frame() {
    assert_eq!(frame_bytes_missing(&[]), 2);
    assert_eq!(frame_bytes_missing(&[0x81]), 1);
    assert_eq!(frame_bytes_missing(&[0x81, 0x85]), 9);
    assert_eq!(frame_bytes_missing(&[0x81, 0x85, 0x37, 0xfa]), 7);
    assert_eq!(frame_bytes_missing(&[0x82, 126]), 2);
    assert_eq!(frame_bytes_missing(&[0x82, 126, 0, 200]), 200);
    assert_eq!(frame_bytes_missing(&[0x82, 127, 0xff, 0xff, 0xff, 0xff, 0xff, 0xff, 0xff, 0xff]), u64::MAX);
    let whole = [0x81, 0x85, 0x37, 0xfa, 0x21, 0x3d, 0x7f, 0x9f, 0x4d, 0x51, 0x58];
    assert_eq!(frame_bytes_missing(&whole), 0);
    assert!(decode_frame(&whole).is_some());
}
