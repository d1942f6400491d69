//! Typed operations: pre-built requests for the named exchanges, and the
//! shared rule mapping a response's status to success or failure.

use vstd::prelude::*;
use crate::rtsp::{Body, Method, Request, Response, spec_default_headers};

verus! {

/// One clock peer announced during session setup.
#[derive(Debug, Clone)]
pub struct TimingPeer {
    pub addresses: Vec<String>,
    pub id: String,
    pub supports_clock_port_matching_override: bool,
}

/// The payload of the session-setup operation.
#[derive(Debug, Clone)]
pub struct SetupInfoRequest {
    pub device_id: String,
    pub eiv: Vec<u8>,
    pub ekey: Vec<u8>,
    pub et: i32,
    pub group_contains_group_leader: bool,
    pub group_uuid: String,
    pub is_multi_select_airplay: bool,
    pub mac_address: String,
    pub model: String,
    pub name: String,
    pub os_build_version: String,
    pub os_name: String,
    pub os_version: String,
    pub sender_supports_relay: bool,
    pub session_uuid: String,
    pub source_version: String,
    pub timing_peer_info: Vec<TimingPeer>,
    pub timing_peer_list: Vec<TimingPeer>,
    pub timing_protocol: String,
}

/// The request of the capability query: a bare GET of `/info`.
pub fn fetch_info_request() -> (r: Request)
    ensures
        r.method == Method::GET,
        r.path@ == "/info"@,
        r.headers@ == spec_default_headers(),
        r.headers.wf(),
        r.body is Empty,
{
    Request::new(Method::GET, "/info")
}

/// The request of the session-setup operation: a SETUP of the peer's
/// control path carrying the structured payload.
pub fn setup_info_request(peer_ip: &str, payload: plist::Value) -> (r: Request)
    ensures
        r.method == Method::SETUP,
        r.path@ == "rtsp://"@ + peer_ip@ + "/666"@,
        r.headers@ == spec_default_headers(),
        r.headers.wf(),
        (r.body matches Body::Plist(v) && v == payload),
{
    let mut path: String = "rtsp://".to_owned();
    path.append(peer_ip);
    path.append("/666");
    Request::new_body(Method::SETUP, path.as_str(), Body::Plist(payload))
}

/// Success exactly on status 200; any other status hands the full response
/// back as the failure.
pub fn classify_response(resp: Response) -> (r: Result<Response, Response>)
    ensures
        resp.status == 200 ==> (r matches Ok(x) && x == resp),
        resp.status != 200 ==> (r matches Err(x) && x == resp),
{
    if resp.status == 200 {
        Ok(resp)
    } else {
        Err(resp)
    }
}

} // verus!
