use airplay::discovery::{
    AirPlayReceiverMeta, DnsRecord, DnsResponse, IpAddress, RecordKind, parse_hex_bytes,
    parse_hex_u64, response_to_meta,
};
use airplay::features::AirPlayFeatures;
use airplay::is_bit_set;
use airplay::rtsp::ops::{classify_response, fetch_info_request, setup_info_request};
use airplay::rtsp::frame::FrameReader;
use airplay::rtsp::{Body, Method};

#[test]
fn single_bits_are_read_exactly() {
    assert!(is_bit_set(1, 0));
    assert!(!is_bit_set(1, 1));
    assert!(is_bit_set(1 << 49, 49));
    assert!(is_bit_set(u64::MAX, 63));
}

#[test]
fn feature_bits_decode_to_their_flags() {
    let f = AirPlayFeatures::from_bits(1 | (1 << 9) | (1 << 14));
    assert!(f.supports_video_v1);
    assert!(f.supports_audio);
    assert!(f.fairplay_auth);
    assert!(!f.supports_screen);
    // Bit 32 clear: not CarPlay, so volume is supported.
    assert!(!f.is_carplay);
    assert!(f.supports_volume);

    let g: AirPlayFeatures = (1u64 << 32).into();
    assert!(g.is_carplay);
    assert!(!g.supports_volume);
}

#[test]
fn feature_halves_combine_low_then_high() {
    let f = AirPlayFeatures::from_halves(0x2, 0x1);
    assert!(f.supports_photo); // bit 1 from the low half
    assert!(!f.supports_video_v1);
    assert!(f.is_carplay); // bit 32 is the high half's lowest bit
}

#[test]
fn hex_parsing_accepts_both_cases_and_rejects_junk() {
    assert_eq!(parse_hex_u64("ff"), Some(255));
    assert_eq!(parse_hex_u64("FF"), Some(255));
    assert_eq!(parse_hex_u64("10"), Some(16));
    assert_eq!(parse_hex_u64(""), None);
    assert_eq!(parse_hex_u64("xyz"), None);
    assert_eq!(parse_hex_u64("ffffffffffffffff"), Some(u64::MAX));
    assert_eq!(parse_hex_u64("1ffffffffffffffff"), None);
}

#[test]
fn hex_byte_pairs_decode_two_digits_per_byte() {
    assert_eq!(parse_hex_bytes("0aff"), Some(vec![0x0a, 0xff]));
    assert_eq!(parse_hex_bytes(""), Some(vec![]));
    assert_eq!(parse_hex_bytes("abc"), None);
    assert_eq!(parse_hex_bytes("zz"), None);
}

fn sample_response() -> DnsResponse {
    DnsResponse {
        answers: vec![DnsRecord {
            name: "_airplay._tcp.local".to_string(),
            kind: RecordKind::Ptr("Living Room._airplay._tcp.local".to_string()),
        }],
        additional: vec![
            DnsRecord {
                name: "Living Room._airplay._tcp.local".to_string(),
                kind: RecordKind::Txt(vec![
                    "deviceid=AA:BB:CC:DD:EE:FF".to_string(),
                    "model=AppleTV6,2".to_string(),
                    "features=0x4A7FDFD5,0x3C155FDE".to_string(),
                    "srcvers=377.40.00".to_string(),
                    "pk=0aff".to_string(),
                    "flags=644".to_string(),
                ]),
            },
            DnsRecord {
                name: "Living Room._airplay._tcp.local".to_string(),
                kind: RecordKind::Srv {
                    port: 7000,
                    target: "Living-Room.local".to_string(),
                },
            },
            DnsRecord {
                name: "Living-Room.local".to_string(),
                kind: RecordKind::A([192, 168, 1, 40]),
            },
            DnsRecord {
                name: "Living-Room.local".to_string(),
                kind: RecordKind::Aaaa([0xfe, 0x80, 0, 0, 0, 0, 0, 0, 0, 0, 0, 0, 0, 0, 0, 1]),
            },
        ],
    }
}

#[test]
fn discovery_records_decode_into_a_receiver_description() {
    let meta = response_to_meta(&sample_response()).expect("must decode");
    assert_eq!(meta.name, "Living Room.");
    assert_eq!(meta.port, 7000);
    assert_eq!(
        meta.ip_addresses,
        vec![
            IpAddress::V4([192, 168, 1, 40]),
            IpAddress::V6([0xfe, 0x80, 0, 0, 0, 0, 0, 0, 0, 0, 0, 0, 0, 0, 0, 1]),
        ]
    );
    assert_eq!(meta.device_id.as_deref(), Some("AA:BB:CC:DD:EE:FF"));
    assert_eq!(meta.model.as_deref(), Some("AppleTV6,2"));
    assert_eq!(meta.airplay_version.as_deref(), Some("377.40.00"));
    assert_eq!(meta.public_key, Some(vec![0x0a, 0xff]));
    assert_eq!(meta.flags, Some(644));
    let features = meta.features.expect("features advertised");
    assert!(features.supports_audio); // bit 9 of 0x4A7FDFD5
    assert!(meta.is_sane());
}

#[test]
fn a_response_without_the_service_pointer_is_not_a_receiver() {
    let mut r = sample_response();
    r.answers.clear();
    assert!(response_to_meta(&r).is_none());
}

fn bare_meta() -> AirPlayReceiverMeta {
    response_to_meta(&sample_response()).unwrap()
}

#[test]
fn sanity_requires_model_features_name_and_device_id() {
    let mut m = bare_meta();
    assert!(m.is_sane());
    m.model = None;
    assert!(!m.is_sane());

    let mut m = bare_meta();
    m.name = "host.local".to_string();
    assert!(!m.is_sane());

    let mut m = bare_meta();
    m.name = String::new();
    assert!(!m.is_sane());
}

#[test]
fn typed_operations_build_their_requests() {
    let req = fetch_info_request();
    assert!(matches!(req.method, Method::GET));
    assert_eq!(req.path, "/info");
    assert!(matches!(req.body, Body::Empty));

    let payload = plist::Value::Boolean(true);
    let req = setup_info_request("192.168.1.40", payload.clone());
    assert!(matches!(req.method, Method::SETUP));
    assert_eq!(req.path, "rtsp://192.168.1.40/666");
    match req.body {
        Body::Plist(v) => assert_eq!(v, payload),
        _ => panic!("setup carries a structured body"),
    }
}

#[test]
fn status_two_hundred_is_success_everything_else_is_failure() {
    let mut reader = FrameReader::new();
    reader.push_chunk(b"RTSP/1.0 200 OK\r\nCSeq: 0\r\n\r\nRTSP/1.0 503 Err\r\nCSeq: 1\r\n\r\n");
    let ok = reader.try_next().unwrap().unwrap();
    let bad = reader.try_next().unwrap().unwrap();
    assert!(classify_response(ok).is_ok());
    let err = classify_response(bad).unwrap_err();
    assert_eq!(err.status, 503);
}

#[test]
fn service_suffix_is_trimmed_repeatedly() {
    let mut r = sample_response();
    let doubled = "X_airplay._tcp.local_airplay._tcp.local";
    r.answers[0].kind = RecordKind::Ptr(doubled.to_string());
    for rec in r.additional.iter_mut() {
        if rec.name.ends_with("_airplay._tcp.local") {
            rec.name = doubled.to_string();
        }
    }
    let meta = response_to_meta(&r).expect("must decode");
    assert_eq!(meta.name, "X");
}

#[test]
fn a_response_without_txt_or_srv_is_not_a_receiver() {
    let mut r = sample_response();
    r.additional.retain(|rec| !matches!(rec.kind, RecordKind::Txt(_)));
    assert!(response_to_meta(&r).is_none());

    let mut r = sample_response();
    r.additional.retain(|rec| !matches!(rec.kind, RecordKind::Srv { .. }));
    assert!(response_to_meta(&r).is_none());
}

#[test]
fn malformed_numeric_entries_leave_their_field_empty() {
    let mut r = sample_response();
    for rec in r.additional.iter_mut() {
        if let RecordKind::Txt(entries) = &mut rec.kind {
            entries.push("acl=notanumber".to_string());
            entries.push("rsf=0xzz".to_string());
        }
    }
    let meta = response_to_meta(&r).expect("must decode");
    assert!(meta.access_control_level.is_none());
    assert!(meta.required_sender_features.is_none());
    // The well-formed entries still decode.
    assert_eq!(meta.device_id.as_deref(), Some("AA:BB:CC:DD:EE:FF"));
}

#[test]
fn zero_bitfield_clears_every_flag_except_volume() {
    let f = AirPlayFeatures::from(0u64);
    assert!(!f.supports_video_v1);
    assert!(!f.supports_video_v2);
    assert!(!f.supports_photo);
    assert!(!f.supports_slideshow);
    assert!(!f.supports_screen);
    assert!(!f.supports_audio);
    assert!(!f.audio_redundant);
    assert!(!f.rsa_auth);
    assert!(!f.fairplay_auth);
    assert!(!f.mfi_auth);
    assert!(!f.send_artwork);
    assert!(!f.send_track_progress);
    assert!(!f.send_daap_nowplaying);
    assert!(!f.send_bplist_nowplaying);
    assert!(!f.supports_alac);
    assert!(!f.supports_aac);
    assert!(!f.supports_aac_eld);
    assert!(!f.supports_opus);
    assert!(!f.supports_legacy_pairing);
    assert!(!f.has_unified_advertiser_info);
    assert!(!f.is_carplay);
    assert!(f.supports_volume);
    assert!(!f.supports_airplay_video_queue);
    assert!(!f.supports_airplay_from_cloud);
    assert!(!f.supports_tls_psk);
    assert!(!f.supports_unified_media_control);
    assert!(!f.supports_buffered_audio);
    assert!(!f.supports_ptp);
    assert!(!f.supports_screen_multi_codec);
    assert!(!f.supports_system_pairing);
    assert!(!f.is_ap_valeria_screen_sender);
    assert!(!f.supports_homekit);
    assert!(!f.supports_coreutils);
    assert!(!f.supports_unified_pair_mfi);
    assert!(!f.supports_setpeers_extended_message);
    assert!(!f.supports_ap_sync);
    assert!(!f.supports_wol);
    assert!(!f.supports_hangdog);
    assert!(!f.supports_audio_stream_connection_setup);
    assert!(!f.supports_audio_media_data_control);
    assert!(!f.supports_rfc2198_redundancy);
}

#[test]
fn pair_form_equals_the_u64_form_on_the_concatenation() {
    let cases: [(u32, u32); 4] = [
        (0, 0),
        (0x4A7FDFD5, 0x3C155FDE),
        (u32::MAX, 0),
        (0x1234_5678, 0x9ABC_DEF0),
    ];
    for (lo, hi) in cases {
        let combined = ((hi as u64) << 32) | (lo as u64);
        assert_eq!(AirPlayFeatures::from((lo, hi)), AirPlayFeatures::from(combined));
    }
}

#[test]
fn access_control_accepts_negative_values() {
    let mut r = sample_response();
    for rec in r.additional.iter_mut() {
        if let RecordKind::Txt(entries) = &mut rec.kind {
            entries.push("acl=-2".to_string());
        }
    }
    let meta = response_to_meta(&r).expect("must decode");
    assert_eq!(meta.access_control_level, Some(-2));
}
