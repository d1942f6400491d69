//! Decoding of discovery answers into a typed receiver description.
//!
//! The records of one multicast-DNS response are modelled as plain values;
//! the embedding program converts whatever its resolver library returned
//! into [`DnsResponse`] and gets back the typed [`AirPlayReceiverMeta`].

use vstd::prelude::*;
use crate::features::{AirPlayFeatures, spec_combine_halves, spec_features_decoded};
use crate::rtsp::{Headers, spec_lookup};
use crate::text::{parse_u64_str, spec_all_digit_chars, spec_dec_value};

verus! {

/// The kinds of resource record the decoder reads.
#[derive(Debug)]
pub enum RecordKind {
    /// A service pointer naming a concrete service instance.
    Ptr(String),
    /// The text record of a service: `key=value` entries.
    Txt(Vec<String>),
    /// The service's host and port.
    Srv { port: u16, target: String },
    /// A host address of four octets.
    A([u8; 4]),
    /// A host address of sixteen octets.
    Aaaa([u8; 16]),
    /// Any record kind the decoder ignores.
    Other,
}

/// One resource record: the name it answers for, and its payload.
#[derive(Debug)]
pub struct DnsRecord {
    pub name: String,
    pub kind: RecordKind,
}

/// One discovery response: its answer and additional sections.
#[derive(Debug)]
pub struct DnsResponse {
    pub answers: Vec<DnsRecord>,
    pub additional: Vec<DnsRecord>,
}

/// A host address in either family.
#[derive(Debug, Clone, Copy, PartialEq, Eq)]
pub enum IpAddress {
    V4([u8; 4]),
    V6([u8; 16]),
}

/// The media-remote part of a receiver description.
#[derive(Debug)]
pub struct AirPlayReceiverMediaRemoteMeta {
    pub model_name: String,
    pub allow_pairing: bool,
    pub bluetooth_address: Vec<u8>,
    pub mac_address: String,
    pub name: String,
    pub uuid: String,
    pub system_build_version: String,
    pub local_airplay_receiver_pairing_identity: String,
}

/// Everything a discovery response tells about one receiver.
#[derive(Debug)]
pub struct AirPlayReceiverMeta {
    pub name: String,
    pub ip_addresses: Vec<IpAddress>,
    pub port: u16,
    pub firmware_version: Option<String>,
    pub access_control_level: Option<i64>,
    pub bluetooth_address: Option<String>,
    pub device_id: Option<String>,
    pub features: Option<AirPlayFeatures>,
    pub required_sender_features: Option<AirPlayFeatures>,
    pub flags: Option<u64>,
    pub group_id: Option<String>,
    pub group_contains_discoverable_leader: Option<bool>,
    pub group_public_name: Option<String>,
    pub is_group_leader: Option<bool>,
    pub home_group_id: Option<String>,
    pub household_id: Option<String>,
    pub parent_group_id: Option<String>,
    pub parent_group_contains_discoverable_leader: Option<bool>,
    pub tight_sync_id: Option<String>,
    pub homekit_home_id: Option<String>,
    pub model: Option<String>,
    pub manufacturer: Option<String>,
    pub serial_number: Option<String>,
    pub protocol_version: Option<String>,
    pub public_airplay_pairing_identity: Option<String>,
    pub public_system_pairing_identity: Option<String>,
    pub public_key: Option<Vec<u8>>,
    pub airplay_version: Option<String>,
    pub os_version: Option<String>,
    pub media_remote: Option<AirPlayReceiverMediaRemoteMeta>,
}

/// Whether the characters of `s` end with the characters of `suffix`.
pub open spec fn spec_ends_with(s: Seq<char>, suffix: Seq<char>) -> bool {
    s.len() >= suffix.len() && s.subrange(s.len() - suffix.len(), s.len() as int) == suffix
}

/// Whether the characters of `s` start with the characters of `prefix`.
pub open spec fn spec_starts_with(s: Seq<char>, prefix: Seq<char>) -> bool {
    s.len() >= prefix.len() && s.subrange(0, prefix.len() as int) == prefix
}

/// Tests whether `s` ends with `suffix`, character for character.
pub fn ends_with_str(s: &str, suffix: &str) -> (r: bool)
    ensures
        r == spec_ends_with(s@, suffix@),
{
    let n = s.unicode_len();
    let m = suffix.unicode_len();
    if n < m {
        return false;
    }
    let mut i: usize = 0;
    while i < m
        invariant
            0 <= i <= m,
            m <= n,
            n == s@.len(),
            m == suffix@.len(),
            forall|j: int| 0 <= j < i ==> s@[n - m + j] == suffix@[j],
        decreases m - i,
    {
        if s.get_char(n - m + i) != suffix.get_char(i) {
            assert(s@[n - m + i] != suffix@[i as int]);
            assert(!spec_ends_with(s@, suffix@)) by {
                if spec_ends_with(s@, suffix@) {
                    assert(s@.subrange(n - m, n as int)[i as int] == suffix@[i as int]);
                }
            }
            return false;
        }
        i = i + 1;
    }
    proof {
        assert(s@.subrange(n - m, n as int) =~= suffix@);
    }
    true
}

/// Tests whether `s` starts with `prefix`, character for character.
pub fn starts_with_str(s: &str, prefix: &str) -> (r: bool)
    ensures
        r == spec_starts_with(s@, prefix@),
{
    let n = s.unicode_len();
    let m = prefix.unicode_len();
    if n < m {
        return false;
    }
    let mut i: usize = 0;
    while i < m
        invariant
            0 <= i <= m,
            m <= n,
            n == s@.len(),
            m == prefix@.len(),
            forall|j: int| 0 <= j < i ==> s@[j] == prefix@[j],
        decreases m - i,
    {
        if s.get_char(i) != prefix.get_char(i) {
            assert(s@[i as int] != prefix@[i as int]);
            assert(!spec_starts_with(s@, prefix@)) by {
                if spec_starts_with(s@, prefix@) {
                    assert(s@.subrange(0, m as int)[i as int] == prefix@[i as int]);
                }
            }
            return false;
        }
        i = i + 1;
    }
    proof {
        assert(s@.subrange(0, m as int) =~= prefix@);
    }
    true
}

impl AirPlayReceiverMeta {
    /// A description is usable when it names a model, advertises features,
    /// has a nonempty name that is not a bare host name, and a device
    /// identifier.
    pub fn is_sane(&self) -> (r: bool)
        ensures
            r == (self.model is Some && self.features is Some && self.name@.len() > 0
                && self.device_id is Some && !spec_ends_with(self.name@, ".local"@)),
    {
        self.model.is_some() && self.features.is_some() && self.name.as_str().unicode_len() > 0
            && self.device_id.is_some() && !ends_with_str(self.name.as_str(), ".local")
    }
}

/// Hexadecimal digit value of a character, when it has one.
pub open spec fn spec_hex_digit(c: char) -> Option<int> {
    if '0' <= c && c <= '9' {
        Some(c as int - 48)
    } else if 'a' <= c && c <= 'f' {
        Some(c as int - 87)
    } else if 'A' <= c && c <= 'F' {
        Some(c as int - 55)
    } else {
        None
    }
}

/// Whether every character of `s` is a hexadecimal digit.
pub open spec fn spec_all_hex_chars(s: Seq<char>) -> bool {
    forall|i: int| 0 <= i < s.len() ==> spec_hex_digit(#[trigger] s[i]) is Some
}

/// The number spelt by the hexadecimal digits of `s`.
pub open spec fn spec_hex_value(s: Seq<char>) -> nat
    decreases s.len(),
{
    if s.len() == 0 {
        0
    } else {
        (spec_hex_value(s.drop_last()) * 16 + match spec_hex_digit(s.last()) {
            Some(d) => d,
            None => 0,
        }) as nat
    }
}

proof fn lemma_hex_value_prefix_le(s: Seq<char>, i: int)
    requires
        0 <= i <= s.len(),
        spec_all_hex_chars(s),
    ensures
        spec_hex_value(s.take(i)) <= spec_hex_value(s),
    decreases s.len() - i,
{
    if i < s.len() {
        assert(s.take(i + 1).drop_last() =~= s.take(i));
        assert(s.take(i + 1).last() == s[i]);
        lemma_hex_value_prefix_le(s, i + 1);
    } else {
        assert(s.take(i) =~= s);
    }
}

/// Parses a hexadecimal number out of `s`: the spelt value exactly when
/// `s` is nonempty, all hexadecimal digits, and the value fits a `u64`.
pub fn parse_hex_u64(s: &str) -> (r: Option<u64>)
    ensures
        match r {
            Some(v) => s@.len() > 0 && spec_all_hex_chars(s@) && v == spec_hex_value(s@)
                && spec_hex_value(s@) <= u64::MAX,
            None => !(s@.len() > 0 && spec_all_hex_chars(s@) && spec_hex_value(s@) <= u64::MAX),
        },
{
    let n = s.unicode_len();
    if n == 0 {
        return None;
    }
    let mut acc: u128 = 0;
    let mut i: usize = 0;
    while i < n
        invariant
            0 <= i <= n,
            n == s@.len(),
            spec_all_hex_chars(s@.take(i as int)),
            acc == spec_hex_value(s@.take(i as int)),
            acc <= u64::MAX,
        decreases n - i,
    {
        let c = s.get_char(i);
        let cu = c as u32;
        let d: u32 = if cu >= 48 && cu <= 57 {
            cu - 48
        } else if cu >= 97 && cu <= 102 {
            cu - 87
        } else if cu >= 65 && cu <= 70 {
            cu - 55
        } else {
            assert(spec_hex_digit(s@[i as int]) is None);
            return None;
        };
        assert(spec_hex_digit(s@[i as int]) == Some(d as int));
        acc = acc * 16 + (d as u128);
        proof {
            assert(s@.take(i as int + 1).drop_last() =~= s@.take(i as int));
            assert(s@.take(i as int + 1).last() == s@[i as int]);
        }
        if acc > u64::MAX as u128 {
            proof {
                if spec_all_hex_chars(s@) {
                    lemma_hex_value_prefix_le(s@, i as int + 1);
                }
            }
            return None;
        }
        i = i + 1;
    }
    proof {
        assert(s@.take(n as int) =~= s@);
    }
    Some(acc as u64)
}

/// `s` with one leading `0x` removed, when it has one.
pub open spec fn spec_strip_0x(s: Seq<char>) -> Seq<char> {
    if spec_starts_with(s, "0x"@) {
        s.subrange(2, s.len() as int)
    } else {
        s
    }
}

/// Removes one leading `0x` marker, if present.
pub fn strip_0x<'a>(s: &'a str) -> (r: &'a str)
    ensures
        r@ == spec_strip_0x(s@),
{
    proof {
        reveal_strlit("0x");
    }
    if starts_with_str(s, "0x") {
        let n = s.unicode_len();
        s.substring_char(2, n)
    } else {
        s
    }
}

/// The first record of the answer section that is the service pointer of
/// the AirPlay service, if any: yields the service instance name.
pub open spec fn spec_is_airplay_ptr(r: DnsRecord) -> bool {
    r.name@ == "_airplay._tcp.local"@ && r.kind is Ptr
}

/// The service instance name the first AirPlay service pointer of the
/// answer section names, if any.
pub open spec fn spec_service_target_from(answers: Seq<DnsRecord>, from: int) -> Option<Seq<char>>
    decreases answers.len() - from,
{
    if from < 0 || from >= answers.len() {
        None
    } else if spec_is_airplay_ptr(answers[from]) {
        match answers[from].kind {
            RecordKind::Ptr(t) => Some(t@),
            _ => None,
        }
    } else {
        spec_service_target_from(answers, from + 1)
    }
}

/// The service instance name the response's answers point at, if any.
pub open spec fn spec_service_target(answers: Seq<DnsRecord>) -> Option<Seq<char>> {
    spec_service_target_from(answers, 0)
}

fn find_service_name(answers: &Vec<DnsRecord>) -> (r: Option<&String>)
    ensures
        match r {
            Some(t) => spec_service_target(answers@) == Some(t@),
            None => spec_service_target(answers@) is None,
        },
{
    let key: String = "_airplay._tcp.local".to_owned();
    let mut i: usize = 0;
    while i < answers.len()
        invariant
            0 <= i <= answers@.len(),
            key@ == "_airplay._tcp.local"@,
            spec_service_target(answers@) == spec_service_target_from(answers@, i as int),
        decreases answers@.len() - i,
    {
        if answers[i].name == key {
            match &answers[i].kind {
                RecordKind::Ptr(x) => {
                    assert(spec_is_airplay_ptr(answers@[i as int]));
                    return Some(x);
                },
                _ => {},
            }
        }
        assert(!spec_is_airplay_ptr(answers@[i as int]));
        i = i + 1;
    }
    None
}

/// The `key=value` pair an entry of a text record spells, when it has the
/// separator.
pub open spec fn spec_entry_pair(e: Seq<char>) -> Option<(Seq<char>, Seq<char>)> {
    if exists|i: int| 0 <= i < e.len() && e[i] == '=' {
        let i = choose|i: int| 0 <= i < e.len() && e[i] == '=' && (forall|j: int|
            0 <= j < i ==> e[j] != '=');
        if 0 <= i < e.len() && e[i] == '=' {
            Some((e.subrange(0, i), e.subrange(i + 1, e.len() as int)))
        } else {
            None
        }
    } else {
        None
    }
}

fn entry_pair(e: &str) -> (r: Option<(String, String)>)
    ensures
        match spec_entry_pair(e@) {
            Some(p) => r matches Some(q) && q.0@ == p.0 && q.1@ == p.1,
            None => r is None,
        },
{
    let n = e.unicode_len();
    let mut i: usize = 0;
    while i < n
        invariant
            0 <= i <= n,
            n == e@.len(),
            forall|j: int| 0 <= j < i ==> e@[j] != '=',
        decreases n - i,
    {
        if e.get_char(i) == '=' {
            proof {
                let w = choose|w: int|
                    0 <= w < e@.len() && e@[w] == '=' && (forall|j: int| 0 <= j < w ==> e@[j]
                        != '=');
                assert(e@[i as int] == '=');
                assert(0 <= w < e@.len() && e@[w] == '=' && (forall|j: int|
                    0 <= j < w ==> e@[j] != '='));
                assert(w == i as int);
            }
            let k = e.substring_char(0, i).to_owned();
            let v = e.substring_char(i + 1, n).to_owned();
            return Some((k, v));
        }
        i = i + 1;
    }
    assert(forall|j: int| 0 <= j < e@.len() ==> e@[j] != '=');
    None
}

/// The pairs the entries of a text record spell, in order; entries without
/// a separator contribute nothing.
pub open spec fn spec_txt_pairs(es: Seq<Seq<char>>) -> Seq<(Seq<char>, Seq<char>)>
    decreases es.len(),
{
    if es.len() == 0 {
        Seq::empty()
    } else {
        spec_txt_pairs(es.drop_last()) + match spec_entry_pair(es.last()) {
            Some(p) => seq![p],
            None => Seq::empty(),
        }
    }
}

/// The header map a text record's entries build up: a repeated key takes
/// the later value.
pub open spec fn spec_txt_headers(es: Seq<Seq<char>>) -> Seq<(Seq<char>, Seq<char>)> {
    crate::rtsp::frame::spec_fold_headers(spec_txt_pairs(es))
}

proof fn lemma_fold_snoc(
    ps: Seq<(Seq<char>, Seq<char>)>,
    p: (Seq<char>, Seq<char>),
)
    ensures
        crate::rtsp::frame::spec_fold_headers(ps.push(p)) == crate::rtsp::spec_set(
            crate::rtsp::frame::spec_fold_headers(ps),
            p.0,
            p.1,
        ),
{
    assert(ps.push(p).drop_last() =~= ps);
    assert(ps.push(p).last() == p);
}

fn txt_headers(entries: &Vec<String>) -> (r: Headers)
    ensures
        r@ == spec_txt_headers(entries@.map_values(|s: String| s@)),
        r.wf(),
{
    let ghost es = entries@.map_values(|s: String| s@);
    let mut h = Headers::new();
    let mut i: usize = 0;
    proof {
        assert(es.take(0) =~= Seq::<Seq<char>>::empty());
    }
    while i < entries.len()
        invariant
            0 <= i <= entries@.len(),
            es == entries@.map_values(|s: String| s@),
            h@ == spec_txt_headers(es.take(i as int)),
            h.wf(),
        decreases entries@.len() - i,
    {
        proof {
            assert(es.take(i as int + 1).drop_last() =~= es.take(i as int));
            assert(es.take(i as int + 1).last() == es[i as int]);
            assert(es[i as int] == entries@[i as int]@);
        }
        match entry_pair(entries[i].as_str()) {
            Some(p) => {
                h.set(&p.0, &p.1);
                proof {
                    lemma_fold_snoc(spec_txt_pairs(es.take(i as int)), (p.0@, p.1@));
                    assert(spec_txt_pairs(es.take(i as int + 1)) =~= spec_txt_pairs(
                        es.take(i as int),
                    ).push((p.0@, p.1@)));
                }
            },
            None => {
                proof {
                    assert(spec_txt_pairs(es.take(i as int + 1)) =~= spec_txt_pairs(
                        es.take(i as int),
                    ));
                }
            },
        }
        i = i + 1;
    }
    proof {
        assert(es.take(entries@.len() as int) =~= es);
    }
    h
}

/// The entries of the first text record named `name`, if any.
pub open spec fn spec_txt_entries_from(rs: Seq<DnsRecord>, name: Seq<char>, from: int) -> Option<
    Seq<Seq<char>>,
>
    decreases rs.len() - from,
{
    if from < 0 || from >= rs.len() {
        None
    } else if rs[from].name@ == name && rs[from].kind is Txt {
        match rs[from].kind {
            RecordKind::Txt(es) => Some(es@.map_values(|s: String| s@)),
            _ => None,
        }
    } else {
        spec_txt_entries_from(rs, name, from + 1)
    }
}

/// The entries of the text record announced for `name`, if any.
pub open spec fn spec_txt_entries(rs: Seq<DnsRecord>, name: Seq<char>) -> Option<Seq<Seq<char>>> {
    spec_txt_entries_from(rs, name, 0)
}

fn find_txt<'a>(records: &'a Vec<DnsRecord>, svc: &String) -> (r: Option<&'a Vec<String>>)
    ensures
        match r {
            Some(es) => spec_txt_entries(records@, svc@) == Some(
                es@.map_values(|s: String| s@),
            ),
            None => spec_txt_entries(records@, svc@) is None,
        },
{
    let mut i: usize = 0;
    while i < records.len()
        invariant
            0 <= i <= records@.len(),
            spec_txt_entries(records@, svc@) == spec_txt_entries_from(records@, svc@, i as int),
        decreases records@.len() - i,
    {
        if records[i].name == *svc {
            match &records[i].kind {
                RecordKind::Txt(x) => {
                    return Some(x);
                },
                _ => {},
            }
        }
        assert(!(records@[i as int].name@ == svc@ && records@[i as int].kind is Txt));
        i = i + 1;
    }
    None
}

/// The port and host of the first service record named `name`, if any.
pub open spec fn spec_srv_from(rs: Seq<DnsRecord>, name: Seq<char>, from: int) -> Option<
    (u16, Seq<char>),
>
    decreases rs.len() - from,
{
    if from < 0 || from >= rs.len() {
        None
    } else if rs[from].name@ == name && rs[from].kind is Srv {
        match rs[from].kind {
            RecordKind::Srv { port, target } => Some((port, target@)),
            _ => None,
        }
    } else {
        spec_srv_from(rs, name, from + 1)
    }
}

/// The port and host of the service record announced for `name`, if any.
pub open spec fn spec_srv(rs: Seq<DnsRecord>, name: Seq<char>) -> Option<(u16, Seq<char>)> {
    spec_srv_from(rs, name, 0)
}

fn find_srv<'a>(records: &'a Vec<DnsRecord>, svc: &String) -> (r: Option<(u16, &'a String)>)
    ensures
        match r {
            Some(p) => spec_srv(records@, svc@) == Some((p.0, p.1@)),
            None => spec_srv(records@, svc@) is None,
        },
{
    let mut i: usize = 0;
    while i < records.len()
        invariant
            0 <= i <= records@.len(),
            spec_srv(records@, svc@) == spec_srv_from(records@, svc@, i as int),
        decreases records@.len() - i,
    {
        if records[i].name == *svc {
            match &records[i].kind {
                RecordKind::Srv { port, target } => {
                    return Some((*port, target));
                },
                _ => {},
            }
        }
        assert(!(records@[i as int].name@ == svc@ && records@[i as int].kind is Srv));
        i = i + 1;
    }
    None
}

/// The addresses of every record answering for `host`, in record order.
pub open spec fn spec_addresses(rs: Seq<DnsRecord>, host: Seq<char>) -> Seq<IpAddress>
    decreases rs.len(),
{
    if rs.len() == 0 {
        Seq::empty()
    } else {
        spec_addresses(rs.drop_last(), host) + (if rs.last().name@ == host {
            match rs.last().kind {
                RecordKind::A(o) => seq![IpAddress::V4(o)],
                RecordKind::Aaaa(o) => seq![IpAddress::V6(o)],
                _ => Seq::empty(),
            }
        } else {
            Seq::empty()
        })
    }
}

fn collect_addresses(records: &Vec<DnsRecord>, host: &String) -> (r: Vec<IpAddress>)
    ensures
        r@ == spec_addresses(records@, host@),
{
    let mut out: Vec<IpAddress> = Vec::new();
    let mut i: usize = 0;
    proof {
        assert(records@.take(0) =~= Seq::<DnsRecord>::empty());
        assert(out@ =~= spec_addresses(records@.take(0), host@));
    }
    while i < records.len()
        invariant
            0 <= i <= records@.len(),
            out@ == spec_addresses(records@.take(i as int), host@),
        decreases records@.len() - i,
    {
        proof {
            assert(records@.take(i as int + 1).drop_last() =~= records@.take(i as int));
            assert(records@.take(i as int + 1).last() == records@[i as int]);
        }
        if records[i].name == *host {
            match &records[i].kind {
                RecordKind::A(o) => {
                    out.push(IpAddress::V4(*o));
                },
                RecordKind::Aaaa(o) => {
                    out.push(IpAddress::V6(*o));
                },
                _ => {},
            }
        }
        proof {
            assert(out@ =~= spec_addresses(records@.take(i as int + 1), host@));
        }
        i = i + 1;
    }
    proof {
        assert(records@.take(records@.len() as int) =~= records@);
    }
    out
}

fn lookup_string(h: &Headers, key: &String) -> (r: Option<String>)
    requires
        h.wf(),
    ensures
        match r {
            Some(v) => spec_lookup(h@, key@) == Some(v@),
            None => spec_lookup(h@, key@) is None,
        },
{
    match h.get(key) {
        Some(v) => Some(v.clone()),
        None => None,
    }
}

fn lookup_flag(h: &Headers, key: &String) -> (r: Option<bool>)
    requires
        h.wf(),
    ensures
        match r {
            Some(b) => spec_lookup(h@, key@) matches Some(v) && b == (v == "1"@),
            None => spec_lookup(h@, key@) is None,
        },
{
    match h.get(key) {
        Some(v) => {
            let one: String = "1".to_owned();
            Some(*v == one)
        },
        None => None,
    }
}

/// `s` with trailing copies of `suffix` removed, one after another, until
/// none is left.
pub open spec fn spec_trim_suffix(s: Seq<char>, suffix: Seq<char>) -> Seq<char>
    decreases s.len(),
{
    if suffix.len() > 0 && spec_ends_with(s, suffix) {
        spec_trim_suffix(s.subrange(0, s.len() - suffix.len()), suffix)
    } else {
        s
    }
}

/// Removes every trailing copy of `suffix` from `s`.
fn trim_suffix_string(s: &String, suffix: &str) -> (r: String)
    requires
        suffix@.len() > 0,
    ensures
        r@ == spec_trim_suffix(s@, suffix@),
{
    let mut cur: String = s.clone();
    while ends_with_str(cur.as_str(), suffix)
        invariant
            suffix@.len() > 0,
            spec_trim_suffix(s@, suffix@) == spec_trim_suffix(cur@, suffix@),
        decreases cur@.len(),
    {
        let n = cur.as_str().unicode_len();
        let m = suffix.unicode_len();
        cur = cur.as_str().substring_char(0, n - m).to_owned();
    }
    cur
}

/// The first comma in `v` at or after `from`.
pub open spec fn spec_find_comma(v: Seq<char>, from: int) -> Option<int>
    decreases v.len() - from,
{
    if from < 0 || from >= v.len() {
        None
    } else if v[from] == ',' {
        Some(from)
    } else {
        spec_find_comma(v, from + 1)
    }
}

/// The two halves of a `low,high` capability entry: each side of the first
/// comma, with an optional `0x` marker, read as a hexadecimal number that
/// fits 32 bits.
pub open spec fn spec_features_halves(v: Seq<char>) -> Option<(u32, u32)> {
    match spec_find_comma(v, 0) {
        None => None,
        Some(c) => {
            let l = spec_strip_0x(v.subrange(0, c));
            let h = spec_strip_0x(v.subrange(c + 1, v.len() as int));
            if l.len() > 0 && spec_all_hex_chars(l) && spec_hex_value(l) <= u32::MAX && h.len() > 0
                && spec_all_hex_chars(h) && spec_hex_value(h) <= u32::MAX {
                Some((spec_hex_value(l) as u32, spec_hex_value(h) as u32))
            } else {
                None
            }
        },
    }
}

/// A plain text field: present exactly when its entry is, with the entry's
/// value.
pub open spec fn spec_opt_string(f: Option<String>, v: Option<Seq<char>>) -> bool {
    match v {
        Some(x) => f matches Some(s) && s@ == x,
        None => f is None,
    }
}

/// A boolean field: present exactly when its entry is, true exactly when
/// the entry's value is `1`.
pub open spec fn spec_opt_flag(f: Option<bool>, v: Option<Seq<char>>) -> bool {
    match v {
        Some(x) => f == Some(x == "1"@),
        None => f is None,
    }
}

/// A decimal field read after stripping one `0x` marker: present exactly
/// when its entry is present and spells a number that fits.
pub open spec fn spec_opt_stripped_u64(f: Option<u64>, v: Option<Seq<char>>) -> bool {
    match v {
        Some(x) => {
            let d = spec_strip_0x(x);
            if d.len() > 0 && spec_all_digit_chars(d) && spec_dec_value(d) <= u64::MAX {
                f == Some(spec_dec_value(d) as u64)
            } else {
                f is None
            }
        },
        None => f is None,
    }
}

/// The signed number spelt by `s`: decimal digits with an optional leading
/// minus sign.
pub open spec fn spec_signed_dec(s: Seq<char>) -> Option<int> {
    if s.len() > 0 && s[0] == '-' {
        let d = s.subrange(1, s.len() as int);
        if d.len() > 0 && spec_all_digit_chars(d) {
            Some(-(spec_dec_value(d) as int))
        } else {
            None
        }
    } else if s.len() > 0 && spec_all_digit_chars(s) {
        Some(spec_dec_value(s) as int)
    } else {
        None
    }
}

/// Parses a signed decimal number, succeeding exactly when `s` spells one
/// that fits an `i64`.
fn parse_i64_str(s: &str) -> (r: Option<i64>)
    ensures
        r == (match spec_signed_dec(s@) {
            Some(x) => if (i64::MIN as int) <= x <= (i64::MAX as int) {
                Some(x as i64)
            } else {
                None::<i64>
            },
            None => None::<i64>,
        }),
{
    let n = s.unicode_len();
    if n == 0 {
        return None;
    }
    if s.get_char(0) == '-' {
        let rest = s.substring_char(1, n);
        match parse_u64_str(rest) {
            Some(m) => if m <= i64::MAX as u64 {
                Some(-(m as i64))
            } else if m == (i64::MAX as u64) + 1 {
                Some(i64::MIN)
            } else {
                None
            },
            None => None,
        }
    } else {
        match parse_u64_str(s) {
            Some(m) => if m <= i64::MAX as u64 {
                Some(m as i64)
            } else {
                None
            },
            None => None,
        }
    }
}

/// The access-control field: a signed decimal number that fits a signed
/// word.
pub open spec fn spec_opt_acl(f: Option<i64>, v: Option<Seq<char>>) -> bool {
    match v {
        Some(x) => match spec_signed_dec(x) {
            Some(n) => if (i64::MIN as int) <= n <= (i64::MAX as int) {
                f == Some(n as i64)
            } else {
                f is None
            },
            None => f is None,
        },
        None => f is None,
    }
}

/// The capability field: decoded from the two hexadecimal halves.
pub open spec fn spec_opt_features(f: Option<AirPlayFeatures>, v: Option<Seq<char>>) -> bool {
    match v {
        Some(x) => match spec_features_halves(x) {
            Some(p) => f matches Some(g) && spec_features_decoded(
                g,
                spec_combine_halves(p.0, p.1),
            ),
            None => f is None,
        },
        None => f is None,
    }
}

/// The required-sender-features field: one hexadecimal number, with an
/// optional `0x` marker, decoded as a capability bitfield.
pub open spec fn spec_opt_hex_features(f: Option<AirPlayFeatures>, v: Option<Seq<char>>) -> bool {
    match v {
        Some(x) => {
            let d = spec_strip_0x(x);
            if d.len() > 0 && spec_all_hex_chars(d) && spec_hex_value(d) <= u64::MAX {
                f matches Some(g) && spec_features_decoded(g, spec_hex_value(d) as u64)
            } else {
                f is None
            }
        },
        None => f is None,
    }
}

/// The public-key field: pairs of hexadecimal digits, two per byte.
pub open spec fn spec_opt_hex_bytes(f: Option<Vec<u8>>, v: Option<Seq<char>>) -> bool {
    match v {
        Some(x) => match spec_hex_bytes(x) {
            Some(bs) => f matches Some(u) && u@ == bs,
            None => f is None,
        },
        None => f is None,
    }
}

/// How every optional field of a receiver description reflects the text
/// record's entries, folded into the header map `h`.
pub open spec fn spec_meta_fields(m: AirPlayReceiverMeta, h: Seq<(Seq<char>, Seq<char>)>) -> bool {
    &&& spec_opt_string(m.firmware_version, spec_lookup(h, "fv"@))
    &&& spec_opt_acl(m.access_control_level, spec_lookup(h, "acl"@))
    &&& spec_opt_string(m.bluetooth_address, spec_lookup(h, "btaddr"@))
    &&& spec_opt_string(m.device_id, spec_lookup(h, "deviceid"@))
    &&& spec_opt_features(m.features, spec_lookup(h, "features"@))
    &&& spec_opt_hex_features(m.required_sender_features, spec_lookup(h, "rsf"@))
    &&& spec_opt_stripped_u64(m.flags, spec_lookup(h, "flags"@))
    &&& spec_opt_string(m.group_id, spec_lookup(h, "gid"@))
    &&& spec_opt_flag(m.group_contains_discoverable_leader, spec_lookup(h, "gcgl"@))
    &&& spec_opt_string(m.group_public_name, spec_lookup(h, "gpn"@))
    &&& spec_opt_flag(m.is_group_leader, spec_lookup(h, "igl"@))
    &&& spec_opt_string(m.home_group_id, spec_lookup(h, "hgid"@))
    &&& spec_opt_string(m.household_id, spec_lookup(h, "hmid"@))
    &&& spec_opt_string(m.parent_group_id, spec_lookup(h, "pgid"@))
    &&& spec_opt_flag(m.parent_group_contains_discoverable_leader, spec_lookup(h, "pgcgl"@))
    &&& spec_opt_string(m.tight_sync_id, spec_lookup(h, "tsid"@))
    &&& spec_opt_string(m.homekit_home_id, spec_lookup(h, "hkid"@))
    &&& spec_opt_string(m.model, spec_lookup(h, "model"@))
    &&& spec_opt_string(m.manufacturer, spec_lookup(h, "manufacturer"@))
    &&& spec_opt_string(m.serial_number, spec_lookup(h, "serialNumber"@))
    &&& spec_opt_string(m.protocol_version, spec_lookup(h, "protovers"@))
    &&& spec_opt_string(m.public_airplay_pairing_identity, spec_lookup(h, "pi"@))
    &&& spec_opt_string(m.public_system_pairing_identity, spec_lookup(h, "psi"@))
    &&& spec_opt_hex_bytes(m.public_key, spec_lookup(h, "pk"@))
    &&& spec_opt_string(m.airplay_version, spec_lookup(h, "srcvers"@))
    &&& spec_opt_string(m.os_version, spec_lookup(h, "osvers"@))
}

/// Decodes one discovery response into a receiver description.
///
/// Succeeds exactly when the answers point at the AirPlay service and the
/// additional section carries both a text record and a service record for
/// the named service instance.  The name is the instance name with every
/// trailing service suffix trimmed, port and addresses come from the
/// service record, and each optional field reflects its text entry as
/// [`spec_meta_fields`] states.
pub fn response_to_meta(response: &DnsResponse) -> (r: Option<AirPlayReceiverMeta>)
    ensures
        (r is Some <==> (spec_service_target(response.answers@) matches Some(t)
            && spec_txt_entries(response.additional@, t) is Some && spec_srv(
            response.additional@,
            t,
        ) is Some)),
        r matches Some(m) ==> ({
            let t = spec_service_target(response.answers@)->Some_0;
            let es = spec_txt_entries(response.additional@, t)->Some_0;
            let srv = spec_srv(response.additional@, t)->Some_0;
            let h = spec_txt_headers(es);
            &&& m.name@ == spec_trim_suffix(t, "_airplay._tcp.local"@)
            &&& m.port == srv.0
            &&& m.ip_addresses@ == spec_addresses(response.additional@, srv.1)
            &&& m.media_remote is None
            &&& spec_meta_fields(m, h)
        }),
{
    let svc: String = match find_service_name(&response.answers) {
        Some(s) => s.clone(),
        None => {
            return None;
        },
    };

    let entries = match find_txt(&response.additional, &svc) {
        Some(es) => es,
        None => {
            return None;
        },
    };
    let airplay_entries = txt_headers(entries);

    let (port, hostname) = match find_srv(&response.additional, &svc) {
        Some(p) => p,
        None => {
            return None;
        },
    };

    let ip_addresses = collect_addresses(&response.additional, hostname);

    let name: String = {
        let suffix = "_airplay._tcp.local";
        proof {
            reveal_strlit("_airplay._tcp.local");
            assert("_airplay._tcp.local"@.len() == 19);
        }
        trim_suffix_string(&svc, suffix)
    };

    let features: Option<AirPlayFeatures> = match airplay_entries.get(&"features".to_owned()) {
        Some(v) => parse_features_pair(v.as_str()),
        None => None,
    };
    let required_sender_features: Option<AirPlayFeatures> = match airplay_entries.get(
        &"rsf".to_owned(),
    ) {
        Some(v) => match parse_hex_u64(strip_0x(v.as_str())) {
            Some(x) => Some(AirPlayFeatures::from_bits(x)),
            None => None,
        },
        None => None,
    };
    let access_control_level: Option<i64> = match airplay_entries.get(&"acl".to_owned()) {
        Some(v) => parse_i64_str(v.as_str()),
        None => None,
    };
    let flags: Option<u64> = match airplay_entries.get(&"flags".to_owned()) {
        Some(v) => parse_u64_str(strip_0x(v.as_str())),
        None => None,
    };
    let public_key: Option<Vec<u8>> = match airplay_entries.get(&"pk".to_owned()) {
        Some(v) => parse_hex_bytes(v.as_str()),
        None => None,
    };

    Some(
        AirPlayReceiverMeta {
            name,
            ip_addresses,
            port,
            firmware_version: lookup_string(&airplay_entries, &"fv".to_owned()),
            access_control_level,
            bluetooth_address: lookup_string(&airplay_entries, &"btaddr".to_owned()),
            device_id: lookup_string(&airplay_entries, &"deviceid".to_owned()),
            features,
            required_sender_features,
            flags,
            group_id: lookup_string(&airplay_entries, &"gid".to_owned()),
            group_contains_discoverable_leader: lookup_flag(&airplay_entries, &"gcgl".to_owned()),
            group_public_name: lookup_string(&airplay_entries, &"gpn".to_owned()),
            is_group_leader: lookup_flag(&airplay_entries, &"igl".to_owned()),
            home_group_id: lookup_string(&airplay_entries, &"hgid".to_owned()),
            household_id: lookup_string(&airplay_entries, &"hmid".to_owned()),
            parent_group_id: lookup_string(&airplay_entries, &"pgid".to_owned()),
            parent_group_contains_discoverable_leader: lookup_flag(
                &airplay_entries,
                &"pgcgl".to_owned(),
            ),
            tight_sync_id: lookup_string(&airplay_entries, &"tsid".to_owned()),
            homekit_home_id: lookup_string(&airplay_entries, &"hkid".to_owned()),
            model: lookup_string(&airplay_entries, &"model".to_owned()),
            manufacturer: lookup_string(&airplay_entries, &"manufacturer".to_owned()),
            serial_number: lookup_string(&airplay_entries, &"serialNumber".to_owned()),
            protocol_version: lookup_string(&airplay_entries, &"protovers".to_owned()),
            public_airplay_pairing_identity: lookup_string(&airplay_entries, &"pi".to_owned()),
            public_system_pairing_identity: lookup_string(&airplay_entries, &"psi".to_owned()),
            public_key,
            airplay_version: lookup_string(&airplay_entries, &"srcvers".to_owned()),
            os_version: lookup_string(&airplay_entries, &"osvers".to_owned()),
            media_remote: None,
        },
    )
}

fn find_comma(v: &str) -> (r: Option<usize>)
    ensures
        match r {
            Some(i) => spec_find_comma(v@, 0) == Some(i as int) && i < v@.len(),
            None => spec_find_comma(v@, 0) is None,
        },
{
    let n = v.unicode_len();
    let mut i: usize = 0;
    while i < n
        invariant
            0 <= i <= n,
            n == v@.len(),
            spec_find_comma(v@, 0) == spec_find_comma(v@, i as int),
        decreases n - i,
    {
        if v.get_char(i) == ',' {
            return Some(i);
        }
        i = i + 1;
    }
    None
}

/// Decodes a `low,high` pair of hexadecimal feature halves.
fn parse_features_pair(v: &str) -> (r: Option<AirPlayFeatures>)
    ensures
        match spec_features_halves(v@) {
            Some(p) => r matches Some(f) && spec_features_decoded(
                f,
                spec_combine_halves(p.0, p.1),
            ),
            None => r is None,
        },
{
    let n = v.unicode_len();
    let c = match find_comma(v) {
        Some(c) => c,
        None => {
            return None;
        },
    };
    let left = v.substring_char(0, c);
    let right = v.substring_char(c + 1, n);
    let lo = match parse_hex_u64(strip_0x(left)) {
        Some(x) => if x <= u32::MAX as u64 {
            x as u32
        } else {
            return None;
        },
        None => {
            return None;
        },
    };
    let hi = match parse_hex_u64(strip_0x(right)) {
        Some(x) => if x <= u32::MAX as u64 {
            x as u32
        } else {
            return None;
        },
        None => {
            return None;
        },
    };
    Some(AirPlayFeatures::from_halves(lo, hi))
}

/// The bytes a string of hexadecimal digit pairs spells.
pub open spec fn spec_hex_bytes(s: Seq<char>) -> Option<Seq<u8>>
    decreases s.len(),
{
    if s.len() == 0 {
        Some(Seq::empty())
    } else if s.len() == 1 {
        None
    } else {
        match (spec_hex_digit(s[0]), spec_hex_digit(s[1])) {
            (Some(a), Some(b)) => match spec_hex_bytes(s.subrange(2, s.len() as int)) {
                Some(rest) => Some(seq![(a * 16 + b) as u8] + rest),
                None => None,
            },
            _ => None,
        }
    }
}

/// Decodes a string of hexadecimal digit pairs into bytes, two digits per
/// byte; fails on an odd length or a character that is no digit.
pub fn parse_hex_bytes(s: &str) -> (r: Option<Vec<u8>>)
    ensures
        match spec_hex_bytes(s@) {
            Some(bs) => r matches Some(v) && v@ == bs,
            None => r is None,
        },
    decreases s@.len(),
{
    let n = s.unicode_len();
    if n == 0 {
        let v: Vec<u8> = Vec::new();
        proof {
            assert(v@ =~= spec_hex_bytes(s@)->Some_0);
        }
        return Some(v);
    }
    if n == 1 {
        return None;
    }
    let a = hex_digit_val(s.get_char(0));
    let b = hex_digit_val(s.get_char(1));
    match (a, b) {
        (Some(a), Some(b)) => {
            let rest = s.substring_char(2, n);
            match parse_hex_bytes(rest) {
                Some(mut v) => {
                    v.insert(0, a * 16 + b);
                    proof {
                        assert(v@ =~= spec_hex_bytes(s@)->Some_0);
                    }
                    Some(v)
                },
                None => None,
            }
        },
        _ => None,
    }
}

fn hex_digit_val(c: char) -> (r: Option<u8>)
    ensures
        match spec_hex_digit(c) {
            Some(d) => r matches Some(v) && v == d && v < 16,
            None => r is None,
        },
{
    let cu = c as u32;
    if cu >= 48 && cu <= 57 {
        Some((cu - 48) as u8)
    } else if cu >= 97 && cu <= 102 {
        Some((cu - 87) as u8)
    } else if cu >= 65 && cu <= 70 {
        Some((cu - 55) as u8)
    } else {
        None
    }
}


} // verus!
