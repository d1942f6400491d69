use airplay::rtsp::frame::{FrameDecodeError, FrameReader};
use airplay::rtsp::ops::fetch_info_request;
use airplay::rtsp::pending::{PendingTable, RouteOutcome, SeqCounter, route_frame};
use airplay::rtsp::{Body, Method, Request, Response, encode_request};
use airplay::text::{parse_u64_str, u64_to_string};

fn parse_all(reader: &mut FrameReader) -> Vec<Response> {
    let mut out = Vec::new();
    while let Ok(Some(resp)) = reader.try_next() {
        out.push(resp);
    }
    out
}

fn feed_in_chunks(bytes: &[u8], chunk_len: usize) -> Vec<Response> {
    let mut reader = FrameReader::new();
    let mut out = Vec::new();
    let mut i = 0;
    while i < bytes.len() {
        let end = usize::min(i + chunk_len, bytes.len());
        reader.push_chunk(&bytes[i..end]);
        out.extend(parse_all(&mut reader));
        i = end;
    }
    out
}

const OK_FRAME: &[u8] = b"RTSP/1.0 200 OK\r\nCSeq: 0\r\nContent-Length: 0\r\n\r\n";

#[test]
fn get_info_round_trip_scenario() {
    let mut req = fetch_info_request();
    let bytes = encode_request(&mut req, 0).unwrap();
    let text = String::from_utf8(bytes).unwrap();
    assert_eq!(
        text,
        "GET /info RTSP/1.0\r\nX-Apple-ProtocolVersion: 1\r\nUser-Agent: AirPlay/409.16\r\nCSeq: 0\r\n\r\n"
    );

    let mut reader = FrameReader::new();
    reader.push_chunk(OK_FRAME);
    let resp = reader.try_next().unwrap().unwrap();
    assert_eq!(resp.status, 200);
    assert_eq!(resp.headers.get(&"CSeq".to_string()).unwrap(), "0");
    assert_eq!(resp.headers.get(&"Content-Length".to_string()).unwrap(), "0");
    assert!(matches!(resp.body, Body::Empty));
}

#[test]
fn chunk_splits_never_change_the_parse() {
    let frame: Vec<u8> =
        b"RTSP/1.0 454 Session Not Found\r\nCSeq: 7\r\nContent-Length: 3\r\n\r\nabc".to_vec();
    for chunk_len in 1..=frame.len() {
        let frames = feed_in_chunks(&frame, chunk_len);
        assert_eq!(frames.len(), 1, "chunk_len {}", chunk_len);
        let resp = &frames[0];
        assert_eq!(resp.status, 454);
        assert_eq!(resp.headers.get(&"CSeq".to_string()).unwrap(), "7");
        match &resp.body {
            Body::Raw(x) => assert_eq!(x.as_slice(), b"abc"),
            _ => panic!("body must be raw"),
        }
    }
}

#[test]
fn split_inside_multibyte_header_text_is_lossless() {
    let frame = "RTSP/1.0 200 OK\r\nX-Name: n\u{00e4}m\u{00e9}\r\nCSeq: 1\r\n\r\n".as_bytes();
    for chunk_len in 1..=frame.len() {
        let frames = feed_in_chunks(frame, chunk_len);
        assert_eq!(frames.len(), 1);
        assert_eq!(
            frames[0].headers.get(&"X-Name".to_string()).unwrap(),
            "n\u{00e4}m\u{00e9}"
        );
    }
}

#[test]
fn empty_body_request_has_no_content_length() {
    let mut req = Request::new(Method::GET, "/info");
    let bytes = encode_request(&mut req, 3).unwrap();
    let text = String::from_utf8(bytes).unwrap();
    assert!(!text.contains("Content-Length"));
    assert!(text.contains("CSeq: 3\r\n"));
}

#[test]
fn raw_body_request_has_exact_content_length() {
    let payload = b"hello world".to_vec();
    let mut req = Request::new_body(Method::RECORD, "/stream", Body::Raw(payload.clone()));
    let bytes = encode_request(&mut req, 9).unwrap();
    let text_head = String::from_utf8(bytes[..bytes.len() - payload.len()].to_vec()).unwrap();
    assert!(text_head.contains("Content-Length: 11\r\n"));
    assert!(text_head.ends_with("\r\n\r\n"));
    assert_eq!(&bytes[bytes.len() - payload.len()..], payload.as_slice());
}

#[test]
fn valid_plist_body_decodes_to_structured() {
    let value = plist::Value::String("hello".to_string());
    let mut body = Vec::new();
    value.to_writer_binary(&mut body).unwrap();

    let mut frame = format!(
        "RTSP/1.0 200 OK\r\nCSeq: 2\r\nContent-Type: application/x-apple-binary-plist\r\nContent-Length: {}\r\n\r\n",
        body.len()
    )
    .into_bytes();
    frame.extend_from_slice(&body);

    let mut reader = FrameReader::new();
    reader.push_chunk(&frame);
    let resp = reader.try_next().unwrap().unwrap();
    match resp.body {
        Body::Plist(v) => assert_eq!(v, value),
        _ => panic!("body must decode to a structured value"),
    }
}

#[test]
fn invalid_plist_body_falls_back_to_raw() {
    let body = vec![0xffu8, 0x00, 0x13];
    let mut frame = format!(
        "RTSP/1.0 200 OK\r\nCSeq: 2\r\nContent-Type: application/x-apple-binary-plist\r\nContent-Length: {}\r\n\r\n",
        body.len()
    )
    .into_bytes();
    frame.extend_from_slice(&body);

    let mut reader = FrameReader::new();
    reader.push_chunk(&frame);
    let resp = reader.try_next().unwrap().unwrap();
    match resp.body {
        Body::Raw(x) => assert_eq!(x, body),
        _ => panic!("undecodable body must stay raw"),
    }
}

#[test]
fn non_structured_content_type_stays_raw() {
    let frame = b"RTSP/1.0 200 OK\r\nContent-Type: text/plain\r\nContent-Length: 2\r\n\r\nhi";
    let mut reader = FrameReader::new();
    reader.push_chunk(frame);
    let resp = reader.try_next().unwrap().unwrap();
    match resp.body {
        Body::Raw(x) => assert_eq!(x.as_slice(), b"hi"),
        _ => panic!("plain body must stay raw"),
    }
}

#[test]
fn incomplete_frames_wait_for_more_bytes() {
    let mut reader = FrameReader::new();
    reader.push_chunk(b"RTSP/1.0 200 OK\r\nContent-Length: 5\r\n\r\nab");
    assert!(matches!(reader.try_next(), Ok(None)));
    reader.push_chunk(b"cde");
    let resp = reader.try_next().unwrap().unwrap();
    match resp.body {
        Body::Raw(x) => assert_eq!(x.as_slice(), b"abcde"),
        _ => panic!(),
    }
}

#[test]
fn two_frames_in_one_chunk_come_out_one_by_one() {
    let mut bytes = OK_FRAME.to_vec();
    bytes.extend_from_slice(b"RTSP/1.0 404 Not Found\r\nCSeq: 1\r\n\r\n");
    let mut reader = FrameReader::new();
    reader.push_chunk(&bytes);
    let first = reader.try_next().unwrap().unwrap();
    assert_eq!(first.status, 200);
    let second = reader.try_next().unwrap().unwrap();
    assert_eq!(second.status, 404);
    assert!(matches!(reader.try_next(), Ok(None)));
}

#[test]
fn malformed_header_line_is_a_decode_error() {
    let mut reader = FrameReader::new();
    reader.push_chunk(b"RTSP/1.0 200 OK\r\nNoSeparatorHere\r\n\r\n");
    assert!(matches!(reader.try_next(), Err(FrameDecodeError::MalformedHead)));
}

#[test]
fn bad_content_length_is_a_decode_error() {
    let mut reader = FrameReader::new();
    reader.push_chunk(b"RTSP/1.0 200 OK\r\nContent-Length: ten\r\n\r\n");
    assert!(matches!(reader.try_next(), Err(FrameDecodeError::BadContentLength)));
}

#[test]
fn sequence_identifiers_start_at_zero_and_increase() {
    let mut c = SeqCounter::new();
    assert_eq!(c.allocate(), 0);
    assert_eq!(c.allocate(), 1);
    assert_eq!(c.allocate(), 2);
}

fn response_with_cseq(cseq: &str, status: u16) -> Response {
    let frame = format!("RTSP/1.0 {} X\r\nCSeq: {}\r\n\r\n", status, cseq).into_bytes();
    let mut reader = FrameReader::new();
    reader.push_chunk(&frame);
    reader.try_next().unwrap().unwrap()
}

#[test]
fn responses_resolve_their_own_callers_in_any_order() {
    let mut table = PendingTable::new();
    let (tx0, mut rx0) = tokio::sync::oneshot::channel();
    let (tx1, mut rx1) = tokio::sync::oneshot::channel();
    assert!(table.register(0, tx0));
    assert!(table.register(1, tx1));

    // Deliver in the reverse order of issuance.
    assert_eq!(route_frame(&mut table, response_with_cseq("1", 201)), RouteOutcome::Delivered);
    assert_eq!(route_frame(&mut table, response_with_cseq("0", 200)), RouteOutcome::Delivered);

    let r0 = rx0.try_recv().unwrap();
    let r1 = rx1.try_recv().unwrap();
    assert_eq!(r0.headers.get(&"CSeq".to_string()).unwrap(), "0");
    assert_eq!(r0.status, 200);
    assert_eq!(r1.headers.get(&"CSeq".to_string()).unwrap(), "1");
    assert_eq!(r1.status, 201);
}

#[test]
fn unknown_sequence_identifier_disturbs_nothing() {
    let mut table = PendingTable::new();
    let (tx, mut rx) = tokio::sync::oneshot::channel();
    assert!(table.register(1, tx));

    let outcome = route_frame(&mut table, response_with_cseq("5", 200));
    assert_eq!(outcome, RouteOutcome::UnknownSequence);
    assert!(rx.try_recv().is_err());

    // The registered handle is still there and still reachable.
    assert_eq!(route_frame(&mut table, response_with_cseq("1", 200)), RouteOutcome::Delivered);
    assert_eq!(rx.try_recv().unwrap().status, 200);
}

#[test]
fn duplicate_registration_is_refused() {
    let mut table = PendingTable::new();
    let (tx0, _rx0) = tokio::sync::oneshot::channel();
    let (tx1, _rx1) = tokio::sync::oneshot::channel();
    assert!(table.register(3, tx0));
    assert!(!table.register(3, tx1));
}

#[test]
fn dropped_receiver_does_not_panic_the_router() {
    let mut table = PendingTable::new();
    let (tx, rx) = tokio::sync::oneshot::channel();
    assert!(table.register(2, tx));
    drop(rx);
    assert_eq!(route_frame(&mut table, response_with_cseq("2", 200)), RouteOutcome::ReceiverGone);
}

#[test]
fn missing_or_unreadable_cseq_is_reported() {
    let mut table = PendingTable::new();
    let frame = b"RTSP/1.0 200 OK\r\nContent-Length: 0\r\n\r\n";
    let mut reader = FrameReader::new();
    reader.push_chunk(frame);
    let resp = reader.try_next().unwrap().unwrap();
    assert_eq!(route_frame(&mut table, resp), RouteOutcome::MissingSequence);
}

#[test]
fn method_spellings_match_the_wire() {
    assert_eq!(Method::GET.to_string(), "GET");
    assert_eq!(Method::SET_PARAMETER.to_string(), "SET_PARAMETER");
    assert_eq!(Method::TEARDOWN.to_string(), "TEARDOWN");
}

#[test]
fn set_header_overwrites_and_returns_the_old_value() {
    let mut req = Request::new(Method::POST, "/x");
    let old = req.set_header(&"User-Agent".to_string(), &"other".to_string());
    assert_eq!(old.unwrap(), "AirPlay/409.16");
    let none = req.set_header(&"X-New".to_string(), &"v".to_string());
    assert!(none.is_none());
}

#[test]
fn decimal_formatting_and_parsing() {
    assert_eq!(u64_to_string(0), "0");
    assert_eq!(u64_to_string(40916), "40916");
    assert_eq!(parse_u64_str("123"), Some(123));
    assert_eq!(parse_u64_str(""), None);
    assert_eq!(parse_u64_str("12a"), None);
    assert_eq!(parse_u64_str("18446744073709551615"), Some(u64::MAX));
    assert_eq!(parse_u64_str("18446744073709551616"), None);
}

#[test]
fn structured_request_body_is_announced_and_encoded() {
    let value = plist::Value::String("setup".to_string());
    let mut expected = Vec::new();
    value.to_writer_binary(&mut expected).unwrap();

    let mut req = Request::new_body(Method::SETUP, "/x", Body::Plist(value.clone()));
    let bytes = encode_request(&mut req, 4).unwrap();

    let head_len = bytes.len() - expected.len();
    let head = String::from_utf8(bytes[..head_len].to_vec()).unwrap();
    assert!(head.contains(&format!("Content-Length: {}\r\n", expected.len())));
    assert_eq!(&bytes[head_len..], expected.as_slice());

    let decoded: plist::Value = plist::from_bytes(&bytes[head_len..]).unwrap();
    assert_eq!(decoded, value);
}
