use proxy_tool::transport::frame::{
    crc32, encode_end, encode_payload, find_marker, frame_crc_ok, Frame, FrameParser, MARKER,
};

fn stream(units: &[Vec<u8>]) -> Vec<u8> {
    let mut s = MARKER.to_vec();
    for u in units {
        s.extend_from_slice(u);
    }
    s
}

fn payload(data: &[u8]) -> Frame {
    Frame::Payload(data.to_vec())
}

#[test]
fn crc_of_the_check_string() {
    assert_eq!(crc32(b"123456789"), 0xCBF4_3926);
    assert_eq!(crc32(b""), 0);
}

#[test]
fn frames_have_their_layout() {
    let u = encode_payload(b"ab");
    assert_eq!(&u[..12], &MARKER[..]);
    assert_eq!(&u[12..16], &[0, 0, 0, 2]);
    assert_eq!(&u[16..20], &crc32(b"ab").to_be_bytes());
    assert_eq!(&u[20..], b"ab");
    let e = encode_end();
    assert_eq!(e.len(), 24);
    assert_eq!(&e[12..16], &[0, 0, 0, 4]);
    assert_eq!(&e[20..], &[0xDE, 0xAD, 0xBE, 0xEF]);
    assert!(frame_crc_ok(&u[12..], 2));
    assert!(!frame_crc_ok(&u[12..21], 2));
    assert_eq!(find_marker(&u), Some(0));
    assert_eq!(find_marker(&u[1..]), None);
}

#[test]
fn roundtrip_single_payload() {
    let mut p = FrameParser::new();
    let frames = p.feed(&stream(&[encode_payload(b"hello")]));
    assert_eq!(frames, vec![payload(b"hello")]);
}

#[test]
fn roundtrip_end_frame() {
    let mut p = FrameParser::new();
    let frames = p.feed(&stream(&[encode_end()]));
    assert_eq!(frames, vec![Frame::End]);
}

#[test]
fn chunked_byte_by_byte() {
    let bytes = stream(&[encode_payload(b"0123456789"), encode_end()]);
    let mut p = FrameParser::new();
    let mut frames = Vec::new();
    for b in &bytes {
        frames.extend(p.feed(std::slice::from_ref(b)));
    }
    assert_eq!(frames, vec![payload(b"0123456789"), Frame::End]);
}

#[test]
fn multiple_frames_one_feed() {
    let mut p = FrameParser::new();
    let bytes = stream(&[encode_payload(b"a"), encode_end(), encode_payload(b"bb")]);
    let frames = p.feed(&bytes);
    assert_eq!(frames, vec![payload(b"a"), Frame::End, payload(b"bb")]);
}

#[test]
fn injection_dump_before_marker_discarded() {
    let mut p = FrameParser::new();
    let mut bytes = b"\x17\xff audit dump \x00\x01garbage".to_vec();
    bytes.extend_from_slice(&stream(&[encode_payload(b"clean")]));
    assert_eq!(p.feed(&bytes), vec![payload(b"clean")]);
}

#[test]
fn empty_audit_record_dropped() {
    let mut p = FrameParser::new();
    let mut bytes = vec![0, 0, 0, 0];
    bytes.extend_from_slice(&stream(&[encode_payload(b"data")]));
    assert_eq!(p.feed(&bytes), vec![payload(b"data")]);
}

#[test]
fn consecutive_markers_keep_real_frames() {
    let mut p = FrameParser::new();
    let mut bytes = MARKER.to_vec();
    bytes.extend_from_slice(&MARKER);
    bytes.extend_from_slice(&encode_payload(b"f1"));
    bytes.extend_from_slice(&MARKER);
    bytes.extend_from_slice(&encode_payload(b"f2"));
    assert_eq!(p.feed(&bytes), vec![payload(b"f1"), payload(b"f2")]);
}

#[test]
fn end_frame_parsed_before_marker_scan() {
    let mut p = FrameParser::new();
    let mut bytes = stream(&[encode_payload(b"first")]);
    bytes.extend_from_slice(&encode_end()[MARKER.len()..]);
    bytes.extend_from_slice(&encode_payload(b"next"));
    assert_eq!(p.feed(&bytes), vec![payload(b"first"), Frame::End, payload(b"next")]);
}

#[test]
fn marker_completed_via_partial() {
    let mut p = FrameParser::new();
    let mut head = MARKER.to_vec();
    head.extend_from_slice(&MARKER[..8]);
    assert!(p.feed(&head).is_empty());
    assert!(p.partial_pending());
    let mut tail = MARKER[8..].to_vec();
    tail.extend_from_slice(&encode_payload(b"x")[MARKER.len()..]);
    assert_eq!(p.feed(&tail), vec![payload(b"x")]);
}

#[test]
fn crc_corruption_recovers() {
    let mut p = FrameParser::new();
    let mut bytes = stream(&[encode_payload(b"good-before")]);
    let mut bad = encode_payload(b"corrupted-payload");
    let last = bad.len() - 1;
    bad[last] ^= 0xFF;
    bytes.extend_from_slice(&bad);
    bytes.extend_from_slice(&encode_payload(b"after"));
    assert_eq!(
        p.feed(&bytes),
        vec![payload(b"good-before"), Frame::End, payload(b"after")]
    );
}

#[test]
fn crc_corruption_is_reported() {
    let mut p = FrameParser::new();
    let mut bad = encode_payload(b"xyz");
    bad[22] ^= 1;
    let mut notes = Vec::new();
    assert_eq!(p.feed_with(&bad, &mut notes), vec![Frame::End]);
    assert_eq!(
        notes,
        vec!["CRC 校验失败 (注入截断, 帧 3 字节), 丢弃连接并重置同步".to_string()]
    );
}

#[test]
fn partial_timeout_resets() {
    let mut p = FrameParser::new();
    let mut bytes = stream(&[encode_payload(b"12345678")]);
    bytes.truncate(bytes.len() - 3);
    assert!(p.feed(&bytes).is_empty());
    assert!(p.partial_pending());
    let mut notes = Vec::new();
    assert_eq!(p.on_partial_timeout(&mut notes), Frame::End);
    assert!(!p.partial_pending());
    assert_eq!(
        notes,
        vec!["帧 8 字节不完整超时 (注入截断), 丢弃连接并重置同步".to_string()]
    );
    assert_eq!(p.feed(&encode_payload(b"fresh")), vec![payload(b"fresh")]);
}

#[test]
fn after_timeout_marker_absorbed_in_synced_state() {
    let mut p = FrameParser::new();
    let mut bytes = stream(&[encode_payload(b"12345678")]);
    bytes.truncate(bytes.len() - 3);
    p.feed(&bytes);
    p.on_partial_timeout(&mut Vec::new());
    assert_eq!(p.feed(&encode_payload(b"next-conn")), vec![payload(b"next-conn")]);
}

#[test]
fn a_stream_of_units_comes_back() {
    let mut p = FrameParser::default();
    let mut bytes = Vec::new();
    let mut want = Vec::new();
    for i in 0..40u8 {
        let data = vec![i; 1 + i as usize * 7];
        bytes.extend_from_slice(&encode_payload(&data));
        want.push(Frame::Payload(data));
        if i % 5 == 0 {
            bytes.extend_from_slice(&encode_end());
            want.push(Frame::End);
        }
    }
    let mut got = Vec::new();
    for chunk in bytes.chunks(13) {
        got.extend(p.feed(chunk));
    }
    assert_eq!(got, want);
}

/// A damaged frame that arrives in pieces ends its connection once; what comes after it is
/// intact.
#[test]
fn damage_in_pieces_ends_once() {
    let mut bad = encode_payload(b"damaged data")[MARKER.len()..].to_vec();
    let last = bad.len() - 1;
    bad[last] ^= 0xFF;
    let mut p = FrameParser::new();
    let mut notes = Vec::new();
    assert_eq!(p.feed_with(&MARKER, &mut notes), vec![]);
    let mut frames = Vec::new();
    for piece in bad.chunks(5) {
        frames.extend(p.feed_with(piece, &mut notes));
    }
    assert_eq!(frames, vec![Frame::End]);
    assert_eq!(notes, vec!["CRC 校验失败 (注入截断), 丢弃连接并重置同步".to_string()]);
    assert!(!p.partial_pending());
    assert_eq!(p.feed_with(&encode_payload(b"next"), &mut notes), vec![payload(b"next")]);
    assert_eq!(notes.len(), 1);
}

/// Whatever arrives, data comes out only where its whole frame came in.
#[test]
fn emitted_data_was_framed() {
    let mut input = Vec::new();
    let mut x: u32 = 7;
    for round in 0..40u8 {
        for _ in 0..round {
            x = x.wrapping_mul(1_664_525).wrapping_add(1_013_904_223);
            input.push((x >> 24) as u8);
        }
        input.extend_from_slice(&MARKER);
        if round % 3 == 0 {
            input.extend_from_slice(&encode_payload(&[round, 1, 2]));
        }
    }
    let mut p = FrameParser::new();
    let mut data = Vec::new();
    for chunk in input.chunks(11) {
        for f in p.feed(chunk) {
            if let Frame::Payload(d) = f {
                data.push(d);
            }
        }
    }
    assert!(data.len() > 0);
    for d in &data {
        let framed = &encode_payload(d)[MARKER.len()..];
        assert!(input.windows(framed.len()).any(|w| w == framed));
    }
}

/// Bytes in front of the first marker leave no trace. An end frame among them does no harm in
/// one piece; where the pieces are cut right, it seems to be the first thing that came.
#[test]
fn an_end_frame_among_injected_bytes() {
    let mut junk = b"z".to_vec();
    junk.extend_from_slice(&encode_end()[MARKER.len()..]);
    let mut bytes = junk.clone();
    bytes.extend_from_slice(&encode_payload(b"clean"));
    assert_eq!(FrameParser::new().feed(&bytes), vec![payload(b"clean")]);

    let mut p = FrameParser::new();
    assert!(p.feed(&bytes[..12]).is_empty());
    assert_eq!(p.feed(&bytes[12..]), vec![Frame::End, payload(b"clean")]);
}

/// Frames come out in the order of their bytes, each made of bytes of its own, also after a
/// frame was given up.
#[test]
fn frames_keep_the_order_of_their_bytes() {
    let mut p = FrameParser::new();
    let mut notes = Vec::new();
    let mut got = Vec::new();
    let one = encode_payload(b"same");
    let half = &encode_payload(b"lost data")[..25];
    let mut arrived = Vec::new();
    for piece in [&one[..], &one[..], half] {
        arrived.extend_from_slice(piece);
        got.extend(p.feed_with(piece, &mut notes));
    }
    assert!(p.partial_pending());
    got.push(p.on_partial_timeout(&mut notes));
    arrived.extend_from_slice(&one);
    got.extend(p.feed_with(&one, &mut notes));
    assert_eq!(got, vec![payload(b"same"), payload(b"same"), Frame::End, payload(b"same")]);
    assert_eq!(notes.len(), got.iter().filter(|f| **f == Frame::End).count());

    let framed = &one[MARKER.len()..];
    let mut from = 0;
    for f in &got {
        if *f == payload(b"same") {
            let at = arrived[from..].windows(framed.len()).position(|w| w == framed).unwrap();
            from += at + framed.len();
        }
    }
    assert_eq!(from, arrived.len());
}
