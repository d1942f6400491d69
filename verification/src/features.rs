//! Decoding of the advertised AirPlay capability bitfield.

use vstd::prelude::*;

verus! {

/// The capability bitfield advertised by a receiver, decoded into one flag
/// per documented feature bit.
#[derive(Debug, Clone, Copy, PartialEq, Eq, Structural)]
pub struct AirPlayFeatures {
    pub supports_video_v1: bool,
    pub supports_video_v2: bool,
    pub supports_photo: bool,
    pub supports_slideshow: bool,
    pub supports_screen: bool,
    pub supports_audio: bool,
    pub audio_redundant: bool,
    pub fairplay_auth: bool,
    pub rsa_auth: bool,
    pub mfi_auth: bool,
    pub send_artwork: bool,
    pub send_track_progress: bool,
    pub send_daap_nowplaying: bool,
    pub send_bplist_nowplaying: bool,
    pub supports_alac: bool,
    pub supports_aac: bool,
    pub supports_aac_eld: bool,
    pub supports_opus: bool,
    pub supports_legacy_pairing: bool,
    pub has_unified_advertiser_info: bool,
    pub is_carplay: bool,
    pub supports_volume: bool,
    pub supports_airplay_video_queue: bool,
    pub supports_airplay_from_cloud: bool,
    pub supports_tls_psk: bool,
    pub supports_unified_media_control: bool,
    pub supports_buffered_audio: bool,
    pub supports_ptp: bool,
    pub supports_screen_multi_codec: bool,
    pub supports_system_pairing: bool,
    pub is_ap_valeria_screen_sender: bool,
    pub supports_homekit: bool,
    pub supports_coreutils: bool,
    pub supports_unified_pair_mfi: bool,
    pub supports_setpeers_extended_message: bool,
    pub supports_ap_sync: bool,
    pub supports_wol: bool,
    pub supports_hangdog: bool,
    pub supports_audio_stream_connection_setup: bool,
    pub supports_audio_media_data_control: bool,
    pub supports_rfc2198_redundancy: bool,
}

/// Whether bit `b` (counting from the least significant end) is set in `v`.
#[verifier::opaque]
pub open spec fn spec_bit_set(v: u64, b: u8) -> bool {
    v & (1u64 << b) != 0
}

/// Tests a single bit of the capability bitfield.
pub fn is_bit_set(v: u64, b: u8) -> (r: bool)
    requires
        b < 64,
    ensures
        r == spec_bit_set(v, b),
{
    proof {
        reveal(spec_bit_set);
    }
    (v & (1u64 << b)) != 0
}

/// Relates a decoded flag set to the bitfield it was decoded from: each flag
/// reflects the documented feature bit (or combination of bits).
pub open spec fn spec_features_decoded(f: AirPlayFeatures, v: u64) -> bool {
    &&& f.supports_video_v1 == (spec_bit_set(v, 0))
    &&& f.supports_video_v2 == (spec_bit_set(v, 49))
    &&& f.supports_photo == (spec_bit_set(v, 1))
    &&& f.supports_slideshow == (spec_bit_set(v, 5))
    &&& f.supports_screen == (spec_bit_set(v, 7))
    &&& f.supports_audio == (spec_bit_set(v, 9))
    &&& f.audio_redundant == (spec_bit_set(v, 11))
    &&& f.fairplay_auth == (spec_bit_set(v, 14))
    &&& f.rsa_auth == (spec_bit_set(v, 23))
    &&& f.mfi_auth == (spec_bit_set(v, 26) || spec_bit_set(v, 51))
    &&& f.send_artwork == (spec_bit_set(v, 15))
    &&& f.send_track_progress == (spec_bit_set(v, 16))
    &&& f.send_daap_nowplaying == (spec_bit_set(v, 17))
    &&& f.send_bplist_nowplaying == (spec_bit_set(v, 50))
    &&& f.supports_alac == (spec_bit_set(v, 18))
    &&& f.supports_aac == (spec_bit_set(v, 19))
    &&& f.supports_aac_eld == (spec_bit_set(v, 20))
    &&& f.supports_opus == (spec_bit_set(v, 21))
    &&& f.supports_legacy_pairing == (spec_bit_set(v, 27))
    &&& f.has_unified_advertiser_info == (spec_bit_set(v, 30))
    &&& f.is_carplay == (spec_bit_set(v, 32))
    &&& f.supports_volume == (!spec_bit_set(v, 32))
    &&& f.supports_airplay_video_queue == (spec_bit_set(v, 33))
    &&& f.supports_airplay_from_cloud == (spec_bit_set(v, 34))
    &&& f.supports_tls_psk == (spec_bit_set(v, 35))
    &&& f.supports_unified_media_control == (spec_bit_set(v, 38))
    &&& f.supports_buffered_audio == (spec_bit_set(v, 40))
    &&& f.supports_ptp == (spec_bit_set(v, 41))
    &&& f.supports_screen_multi_codec == (spec_bit_set(v, 42))
    &&& f.supports_system_pairing == (spec_bit_set(v, 43))
    &&& f.is_ap_valeria_screen_sender == (spec_bit_set(v, 44))
    &&& f.supports_homekit == (spec_bit_set(v, 46))
    &&& f.supports_coreutils == (spec_bit_set(v, 38) || spec_bit_set(v, 43) || spec_bit_set(v, 46) || spec_bit_set(v, 48))
    &&& f.supports_unified_pair_mfi == (spec_bit_set(v, 51))
    &&& f.supports_setpeers_extended_message == (spec_bit_set(v, 52))
    &&& f.supports_ap_sync == (spec_bit_set(v, 54))
    &&& f.supports_wol == (spec_bit_set(v, 55) || spec_bit_set(v, 56))
    &&& f.supports_hangdog == (spec_bit_set(v, 58))
    &&& f.supports_audio_stream_connection_setup == (spec_bit_set(v, 59))
    &&& f.supports_audio_media_data_control == (spec_bit_set(v, 60))
    &&& f.supports_rfc2198_redundancy == (spec_bit_set(v, 61))
}

/// The flag set the capability bitfield `v` decodes to, field by field.
pub open spec fn spec_features_from_bits(v: u64) -> AirPlayFeatures {
    AirPlayFeatures {
        supports_video_v1: spec_bit_set(v, 0),
        supports_video_v2: spec_bit_set(v, 49),
        supports_photo: spec_bit_set(v, 1),
        supports_slideshow: spec_bit_set(v, 5),
        supports_screen: spec_bit_set(v, 7),
        supports_audio: spec_bit_set(v, 9),
        audio_redundant: spec_bit_set(v, 11),
        fairplay_auth: spec_bit_set(v, 14),
        rsa_auth: spec_bit_set(v, 23),
        mfi_auth: spec_bit_set(v, 26) || spec_bit_set(v, 51),
        send_artwork: spec_bit_set(v, 15),
        send_track_progress: spec_bit_set(v, 16),
        send_daap_nowplaying: spec_bit_set(v, 17),
        send_bplist_nowplaying: spec_bit_set(v, 50),
        supports_alac: spec_bit_set(v, 18),
        supports_aac: spec_bit_set(v, 19),
        supports_aac_eld: spec_bit_set(v, 20),
        supports_opus: spec_bit_set(v, 21),
        supports_legacy_pairing: spec_bit_set(v, 27),
        has_unified_advertiser_info: spec_bit_set(v, 30),
        is_carplay: spec_bit_set(v, 32),
        supports_volume: !spec_bit_set(v, 32),
        supports_airplay_video_queue: spec_bit_set(v, 33),
        supports_airplay_from_cloud: spec_bit_set(v, 34),
        supports_tls_psk: spec_bit_set(v, 35),
        supports_unified_media_control: spec_bit_set(v, 38),
        supports_buffered_audio: spec_bit_set(v, 40),
        supports_ptp: spec_bit_set(v, 41),
        supports_screen_multi_codec: spec_bit_set(v, 42),
        supports_system_pairing: spec_bit_set(v, 43),
        is_ap_valeria_screen_sender: spec_bit_set(v, 44),
        supports_homekit: spec_bit_set(v, 46),
        supports_coreutils: spec_bit_set(v, 38) || spec_bit_set(v, 43) || spec_bit_set(v, 46)
            || spec_bit_set(v, 48),
        supports_unified_pair_mfi: spec_bit_set(v, 51),
        supports_setpeers_extended_message: spec_bit_set(v, 52),
        supports_ap_sync: spec_bit_set(v, 54),
        supports_wol: spec_bit_set(v, 55) || spec_bit_set(v, 56),
        supports_hangdog: spec_bit_set(v, 58),
        supports_audio_stream_connection_setup: spec_bit_set(v, 59),
        supports_audio_media_data_control: spec_bit_set(v, 60),
        supports_rfc2198_redundancy: spec_bit_set(v, 61),
    }
}

/// Two flag sets decoded from the same bitfield agree on every flag.  In
/// particular the pair form of the conversion, which combines its halves
/// into one bitfield, decodes every flag exactly as the 64-bit form does.
pub proof fn lemma_decoded_fields_agree(f: AirPlayFeatures, g: AirPlayFeatures, v: u64)
    requires
        spec_features_decoded(f, v),
        spec_features_decoded(g, v),
    ensures
        f.supports_video_v1 == g.supports_video_v1,
        f.supports_video_v2 == g.supports_video_v2,
        f.supports_photo == g.supports_photo,
        f.supports_slideshow == g.supports_slideshow,
        f.supports_screen == g.supports_screen,
        f.supports_audio == g.supports_audio,
        f.audio_redundant == g.audio_redundant,
        f.fairplay_auth == g.fairplay_auth,
        f.rsa_auth == g.rsa_auth,
        f.mfi_auth == g.mfi_auth,
        f.send_artwork == g.send_artwork,
        f.send_track_progress == g.send_track_progress,
        f.send_daap_nowplaying == g.send_daap_nowplaying,
        f.send_bplist_nowplaying == g.send_bplist_nowplaying,
        f.supports_alac == g.supports_alac,
        f.supports_aac == g.supports_aac,
        f.supports_aac_eld == g.supports_aac_eld,
        f.supports_opus == g.supports_opus,
        f.supports_legacy_pairing == g.supports_legacy_pairing,
        f.has_unified_advertiser_info == g.has_unified_advertiser_info,
        f.is_carplay == g.is_carplay,
        f.supports_volume == g.supports_volume,
        f.supports_airplay_video_queue == g.supports_airplay_video_queue,
        f.supports_airplay_from_cloud == g.supports_airplay_from_cloud,
        f.supports_tls_psk == g.supports_tls_psk,
        f.supports_unified_media_control == g.supports_unified_media_control,
        f.supports_buffered_audio == g.supports_buffered_audio,
        f.supports_ptp == g.supports_ptp,
        f.supports_screen_multi_codec == g.supports_screen_multi_codec,
        f.supports_system_pairing == g.supports_system_pairing,
        f.is_ap_valeria_screen_sender == g.is_ap_valeria_screen_sender,
        f.supports_homekit == g.supports_homekit,
        f.supports_coreutils == g.supports_coreutils,
        f.supports_unified_pair_mfi == g.supports_unified_pair_mfi,
        f.supports_setpeers_extended_message == g.supports_setpeers_extended_message,
        f.supports_ap_sync == g.supports_ap_sync,
        f.supports_wol == g.supports_wol,
        f.supports_hangdog == g.supports_hangdog,
        f.supports_audio_stream_connection_setup == g.supports_audio_stream_connection_setup,
        f.supports_audio_media_data_control == g.supports_audio_media_data_control,
        f.supports_rfc2198_redundancy == g.supports_rfc2198_redundancy,
{
}

/// The 64-bit bitfield formed from its two advertised 32-bit halves.
pub open spec fn spec_combine_halves(lo: u32, hi: u32) -> u64 {
    (hi as u64) << 32u64 | (lo as u64)
}

struct FlagsA {
    supports_video_v1: bool,
    supports_video_v2: bool,
    supports_photo: bool,
    supports_slideshow: bool,
    supports_screen: bool,
    supports_audio: bool,
    audio_redundant: bool,
    fairplay_auth: bool,
    rsa_auth: bool,
    mfi_auth: bool,
    send_artwork: bool,
}

fn decode_a(v: u64) -> (r: FlagsA)
    ensures
        r.supports_video_v1 == (spec_bit_set(v, 0)),
        r.supports_video_v2 == (spec_bit_set(v, 49)),
        r.supports_photo == (spec_bit_set(v, 1)),
        r.supports_slideshow == (spec_bit_set(v, 5)),
        r.supports_screen == (spec_bit_set(v, 7)),
        r.supports_audio == (spec_bit_set(v, 9)),
        r.audio_redundant == (spec_bit_set(v, 11)),
        r.fairplay_auth == (spec_bit_set(v, 14)),
        r.rsa_auth == (spec_bit_set(v, 23)),
        r.mfi_auth == (spec_bit_set(v, 26) || spec_bit_set(v, 51)),
        r.send_artwork == (spec_bit_set(v, 15)),
{
    FlagsA {
        supports_video_v1: is_bit_set(v, 0),
        supports_video_v2: is_bit_set(v, 49),
        supports_photo: is_bit_set(v, 1),
        supports_slideshow: is_bit_set(v, 5),
        supports_screen: is_bit_set(v, 7),
        supports_audio: is_bit_set(v, 9),
        audio_redundant: is_bit_set(v, 11),
        fairplay_auth: is_bit_set(v, 14),
        rsa_auth: is_bit_set(v, 23),
        mfi_auth: is_bit_set(v, 26) || is_bit_set(v, 51),
        send_artwork: is_bit_set(v, 15),
    }
}

struct FlagsB {
    send_track_progress: bool,
    send_daap_nowplaying: bool,
    send_bplist_nowplaying: bool,
    supports_alac: bool,
    supports_aac: bool,
    supports_aac_eld: bool,
    supports_opus: bool,
    supports_legacy_pairing: bool,
    has_unified_advertiser_info: bool,
    is_carplay: bool,
    supports_volume: bool,
}

fn decode_b(v: u64) -> (r: FlagsB)
    ensures
        r.send_track_progress == (spec_bit_set(v, 16)),
        r.send_daap_nowplaying == (spec_bit_set(v, 17)),
        r.send_bplist_nowplaying == (spec_bit_set(v, 50)),
        r.supports_alac == (spec_bit_set(v, 18)),
        r.supports_aac == (spec_bit_set(v, 19)),
        r.supports_aac_eld == (spec_bit_set(v, 20)),
        r.supports_opus == (spec_bit_set(v, 21)),
        r.supports_legacy_pairing == (spec_bit_set(v, 27)),
        r.has_unified_advertiser_info == (spec_bit_set(v, 30)),
        r.is_carplay == (spec_bit_set(v, 32)),
        r.supports_volume == (!spec_bit_set(v, 32)),
{
    FlagsB {
        send_track_progress: is_bit_set(v, 16),
        send_daap_nowplaying: is_bit_set(v, 17),
        send_bplist_nowplaying: is_bit_set(v, 50),
        supports_alac: is_bit_set(v, 18),
        supports_aac: is_bit_set(v, 19),
        supports_aac_eld: is_bit_set(v, 20),
        supports_opus: is_bit_set(v, 21),
        supports_legacy_pairing: is_bit_set(v, 27),
        has_unified_advertiser_info: is_bit_set(v, 30),
        is_carplay: is_bit_set(v, 32),
        supports_volume: !is_bit_set(v, 32),
    }
}

struct FlagsC {
    supports_airplay_video_queue: bool,
    supports_airplay_from_cloud: bool,
    supports_tls_psk: bool,
    supports_unified_media_control: bool,
    supports_buffered_audio: bool,
    supports_ptp: bool,
    supports_screen_multi_codec: bool,
    supports_system_pairing: bool,
    is_ap_valeria_screen_sender: bool,
    supports_homekit: bool,
    supports_coreutils: bool,
}

fn decode_c(v: u64) -> (r: FlagsC)
    ensures
        r.supports_airplay_video_queue == (spec_bit_set(v, 33)),
        r.supports_airplay_from_cloud == (spec_bit_set(v, 34)),
        r.supports_tls_psk == (spec_bit_set(v, 35)),
        r.supports_unified_media_control == (spec_bit_set(v, 38)),
        r.supports_buffered_audio == (spec_bit_set(v, 40)),
        r.supports_ptp == (spec_bit_set(v, 41)),
        r.supports_screen_multi_codec == (spec_bit_set(v, 42)),
        r.supports_system_pairing == (spec_bit_set(v, 43)),
        r.is_ap_valeria_screen_sender == (spec_bit_set(v, 44)),
        r.supports_homekit == (spec_bit_set(v, 46)),
        r.supports_coreutils == (spec_bit_set(v, 38) || spec_bit_set(v, 43) || spec_bit_set(v, 46) || spec_bit_set(v, 48)),
{
    FlagsC {
        supports_airplay_video_queue: is_bit_set(v, 33),
        supports_airplay_from_cloud: is_bit_set(v, 34),
        supports_tls_psk: is_bit_set(v, 35),
        supports_unified_media_control: is_bit_set(v, 38),
        supports_buffered_audio: is_bit_set(v, 40),
        supports_ptp: is_bit_set(v, 41),
        supports_screen_multi_codec: is_bit_set(v, 42),
        supports_system_pairing: is_bit_set(v, 43),
        is_ap_valeria_screen_sender: is_bit_set(v, 44),
        supports_homekit: is_bit_set(v, 46),
        supports_coreutils: is_bit_set(v, 38) || is_bit_set(v, 43) || is_bit_set(v, 46) || is_bit_set(v, 48),
    }
}

struct FlagsD {
    supports_unified_pair_mfi: bool,
    supports_setpeers_extended_message: bool,
    supports_ap_sync: bool,
    supports_wol: bool,
    supports_hangdog: bool,
    supports_audio_stream_connection_setup: bool,
    supports_audio_media_data_control: bool,
    supports_rfc2198_redundancy: bool,
}

fn decode_d(v: u64) -> (r: FlagsD)
    ensures
        r.supports_unified_pair_mfi == (spec_bit_set(v, 51)),
        r.supports_setpeers_extended_message == (spec_bit_set(v, 52)),
        r.supports_ap_sync == (spec_bit_set(v, 54)),
        r.supports_wol == (spec_bit_set(v, 55) || spec_bit_set(v, 56)),
        r.supports_hangdog == (spec_bit_set(v, 58)),
        r.supports_audio_stream_connection_setup == (spec_bit_set(v, 59)),
        r.supports_audio_media_data_control == (spec_bit_set(v, 60)),
        r.supports_rfc2198_redundancy == (spec_bit_set(v, 61)),
{
    FlagsD {
        supports_unified_pair_mfi: is_bit_set(v, 51),
        supports_setpeers_extended_message: is_bit_set(v, 52),
        supports_ap_sync: is_bit_set(v, 54),
        supports_wol: is_bit_set(v, 55) || is_bit_set(v, 56),
        supports_hangdog: is_bit_set(v, 58),
        supports_audio_stream_connection_setup: is_bit_set(v, 59),
        supports_audio_media_data_control: is_bit_set(v, 60),
        supports_rfc2198_redundancy: is_bit_set(v, 61),
    }
}

impl AirPlayFeatures {
    /// Decodes every feature flag out of the 64-bit capability bitfield.
    pub fn from_bits(v: u64) -> (r: Self)
        ensures
            spec_features_decoded(r, v),
    {
        let a = decode_a(v);
        let b = decode_b(v);
        let c = decode_c(v);
        let d = decode_d(v);
        AirPlayFeatures {
            supports_video_v1: a.supports_video_v1,
            supports_video_v2: a.supports_video_v2,
            supports_photo: a.supports_photo,
            supports_slideshow: a.supports_slideshow,
            supports_screen: a.supports_screen,
            supports_audio: a.supports_audio,
            audio_redundant: a.audio_redundant,
            fairplay_auth: a.fairplay_auth,
            rsa_auth: a.rsa_auth,
            mfi_auth: a.mfi_auth,
            send_artwork: a.send_artwork,
            send_track_progress: b.send_track_progress,
            send_daap_nowplaying: b.send_daap_nowplaying,
            send_bplist_nowplaying: b.send_bplist_nowplaying,
            supports_alac: b.supports_alac,
            supports_aac: b.supports_aac,
            supports_aac_eld: b.supports_aac_eld,
            supports_opus: b.supports_opus,
            supports_legacy_pairing: b.supports_legacy_pairing,
            has_unified_advertiser_info: b.has_unified_advertiser_info,
            is_carplay: b.is_carplay,
            supports_volume: b.supports_volume,
            supports_airplay_video_queue: c.supports_airplay_video_queue,
            supports_airplay_from_cloud: c.supports_airplay_from_cloud,
            supports_tls_psk: c.supports_tls_psk,
            supports_unified_media_control: c.supports_unified_media_control,
            supports_buffered_audio: c.supports_buffered_audio,
            supports_ptp: c.supports_ptp,
            supports_screen_multi_codec: c.supports_screen_multi_codec,
            supports_system_pairing: c.supports_system_pairing,
            is_ap_valeria_screen_sender: c.is_ap_valeria_screen_sender,
            supports_homekit: c.supports_homekit,
            supports_coreutils: c.supports_coreutils,
            supports_unified_pair_mfi: d.supports_unified_pair_mfi,
            supports_setpeers_extended_message: d.supports_setpeers_extended_message,
            supports_ap_sync: d.supports_ap_sync,
            supports_wol: d.supports_wol,
            supports_hangdog: d.supports_hangdog,
            supports_audio_stream_connection_setup: d.supports_audio_stream_connection_setup,
            supports_audio_media_data_control: d.supports_audio_media_data_control,
            supports_rfc2198_redundancy: d.supports_rfc2198_redundancy,
        }
    }

    /// Decodes the bitfield advertised as two 32-bit halves, low half first.
    pub fn from_halves(lo: u32, hi: u32) -> (r: Self)
        ensures
            spec_features_decoded(r, spec_combine_halves(lo, hi)),
    {
        let x: u64 = (hi as u64) << 32u64 | (lo as u64);
        assert(x == spec_combine_halves(lo, hi));
        AirPlayFeatures::from_bits(x)
    }
}

impl From<u64> for AirPlayFeatures {
    fn from(v: u64) -> (r: Self) {
        AirPlayFeatures::from_bits(v)
    }
}

impl vstd::std_specs::convert::FromSpecImpl<u64> for AirPlayFeatures {
    open spec fn obeys_from_spec() -> bool {
        false
    }

    open spec fn from_spec(v: u64) -> Self {
        spec_features_from_bits(v)
    }
}

impl From<(u32, u32)> for AirPlayFeatures {
    fn from(v: (u32, u32)) -> (r: Self) {
        AirPlayFeatures::from_halves(v.0, v.1)
    }
}

impl vstd::std_specs::convert::FromSpecImpl<(u32, u32)> for AirPlayFeatures {
    open spec fn obeys_from_spec() -> bool {
        false
    }

    open spec fn from_spec(v: (u32, u32)) -> Self {
        spec_features_from_bits(spec_combine_halves(v.0, v.1))
    }
}

} // verus!
