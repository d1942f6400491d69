//! Request and response model of the control protocol, and the wire codec
//! that turns a request into the bytes written to the peer.

pub mod ops;
pub mod frame;
pub mod pending;

use vstd::prelude::*;
use vstd::utf8::encode_utf8;
use crate::text::{spec_dec_chars, u64_to_string};
use crate::plist_codec::plist_to_bytes;

verus! {

broadcast use vstd::string::group_string_axioms;

/// The verbs the protocol knows.
#[derive(Debug, Clone, Copy, PartialEq, Eq, Structural)]
#[allow(non_camel_case_types)]
pub enum Method {
    GET,
    POST,
    SETUP,
    SET_PARAMETER,
    GET_PARAMETER,
    SETPEERS,
    RECORD,
    FLUSH,
    TEARDOWN,
}

/// The characters each verb is written as on the wire.
pub open spec fn spec_method_chars(m: Method) -> Seq<char> {
    match m {
        Method::GET => "GET"@,
        Method::POST => "POST"@,
        Method::SETUP => "SETUP"@,
        Method::SET_PARAMETER => "SET_PARAMETER"@,
        Method::GET_PARAMETER => "GET_PARAMETER"@,
        Method::SETPEERS => "SETPEERS"@,
        Method::RECORD => "RECORD"@,
        Method::FLUSH => "FLUSH"@,
        Method::TEARDOWN => "TEARDOWN"@,
    }
}

impl Method {
    /// The verb's wire spelling.
    pub fn as_str(&self) -> (r: &'static str)
        ensures
            r@ == spec_method_chars(*self),
    {
        match self {
            Method::GET => "GET",
            Method::POST => "POST",
            Method::SETUP => "SETUP",
            Method::SET_PARAMETER => "SET_PARAMETER",
            Method::GET_PARAMETER => "GET_PARAMETER",
            Method::SETPEERS => "SETPEERS",
            Method::RECORD => "RECORD",
            Method::FLUSH => "FLUSH",
            Method::TEARDOWN => "TEARDOWN",
        }
    }

    /// The verb's wire spelling as an owned string.
    pub fn to_string(&self) -> (r: String)
        ensures
            r@ == spec_method_chars(*self),
    {
        self.as_str().to_owned()
    }
}

/// A request or response payload.  Exactly one variant is active; it decides
/// the body bytes and the body-describing headers.
#[derive(Debug)]
pub enum Body {
    /// No payload at all.
    Empty,
    /// A decoded structured value, serialized through the external codec.
    Plist(plist::Value),
    /// Raw bytes passed through unchanged.
    Raw(Vec<u8>),
}

/// An ordered header map: case-sensitive keys, insertion order kept, a
/// later write to the same key replacing the value in place.
#[derive(Debug)]
pub struct Headers {
    entries: Vec<(String, String)>,
}

impl View for Headers {
    type V = Seq<(Seq<char>, Seq<char>)>;

    closed spec fn view(&self) -> Seq<(Seq<char>, Seq<char>)> {
        self.entries@.map_values(|p: (String, String)| (p.0@, p.1@))
    }
}

/// Whether some entry of `h` has the key `k`.
pub open spec fn spec_has_key(h: Seq<(Seq<char>, Seq<char>)>, k: Seq<char>) -> bool {
    exists|i: int| 0 <= i < h.len() && h[i].0 == k
}

/// The index of the entry with key `k` (meaningful when keys are unique).
pub open spec fn spec_key_index(h: Seq<(Seq<char>, Seq<char>)>, k: Seq<char>) -> int {
    choose|i: int| 0 <= i < h.len() && h[i].0 == k
}

/// The value stored under `k`, if any.
pub open spec fn spec_lookup(h: Seq<(Seq<char>, Seq<char>)>, k: Seq<char>) -> Option<Seq<char>> {
    if spec_has_key(h, k) {
        Some(h[spec_key_index(h, k)].1)
    } else {
        None
    }
}

/// `h` after writing `v` under `k`: replaces the existing entry in place,
/// or appends a new one.
pub open spec fn spec_set(
    h: Seq<(Seq<char>, Seq<char>)>,
    k: Seq<char>,
    v: Seq<char>,
) -> Seq<(Seq<char>, Seq<char>)> {
    if spec_has_key(h, k) {
        h.update(spec_key_index(h, k), (k, v))
    } else {
        h.push((k, v))
    }
}

/// No two entries share a key.
pub open spec fn spec_unique_keys(h: Seq<(Seq<char>, Seq<char>)>) -> bool {
    forall|i: int, j: int| 0 <= i < j < h.len() ==> h[i].0 != h[j].0
}

/// Writing a header keeps the keys unique.
pub proof fn lemma_set_preserves_unique(h: Seq<(Seq<char>, Seq<char>)>, k: Seq<char>, v: Seq<char>)
    requires
        spec_unique_keys(h),
    ensures
        spec_unique_keys(spec_set(h, k, v)),
{
    let s = spec_set(h, k, v);
    if spec_has_key(h, k) {
        let w = spec_key_index(h, k);
        assert(0 <= w < h.len() && h[w].0 == k);
        assert forall|i: int, j: int| 0 <= i < j < s.len() implies s[i].0 != s[j].0 by {
            if i != w && j != w {
                assert(s[i].0 == h[i].0 && s[j].0 == h[j].0);
            } else if i == w {
                assert(s[i].0 == k && s[j].0 == h[j].0);
                assert(h[w].0 == k);
            } else {
                assert(s[j].0 == k && s[i].0 == h[i].0);
                assert(h[w].0 == k);
            }
        }
    } else {
        assert forall|i: int, j: int| 0 <= i < j < s.len() implies s[i].0 != s[j].0 by {
            if j < h.len() {
                assert(s[i].0 == h[i].0 && s[j].0 == h[j].0);
            } else {
                assert(s[j].0 == k);
                assert(s[i].0 == h[i].0);
                assert(!(exists|m: int| 0 <= m < h.len() && h[m].0 == k));
            }
        }
    }
}

impl Headers {
    /// Every well-formed header map has unique keys.
    pub open spec fn wf(&self) -> bool {
        spec_unique_keys(self@)
    }

    /// An empty header map.
    pub fn new() -> (r: Self)
        ensures
            r@ == Seq::<(Seq<char>, Seq<char>)>::empty(),
            r.wf(),
    {
        let r = Headers { entries: Vec::new() };
        proof {
            assert(r@ =~= Seq::<(Seq<char>, Seq<char>)>::empty());
        }
        r
    }

    fn find(&self, name: &String) -> (r: Option<usize>)
        ensures
            match r {
                Some(i) => i < self@.len() && self@[i as int].0 == name@ && (forall|j: int|
                    0 <= j < i ==> self@[j].0 != name@),
                None => !spec_has_key(self@, name@),
            },
    {
        let mut i: usize = 0;
        while i < self.entries.len()
            invariant
                0 <= i <= self.entries.len(),
                forall|j: int| 0 <= j < i ==> self@[j].0 != name@,
            decreases self.entries.len() - i,
        {
            if self.entries[i].0 == *name {
                assert(self@[i as int].0 == name@);
                return Some(i);
            }
            i = i + 1;
        }
        None
    }

    /// The value stored under `name`, if any.
    pub fn get(&self, name: &String) -> (r: Option<&String>)
        requires
            self.wf(),
        ensures
            match r {
                Some(v) => spec_lookup(self@, name@) == Some(v@),
                None => spec_lookup(self@, name@) is None,
            },
    {
        match self.find(name) {
            Some(i) => {
                proof {
                    let w = spec_key_index(self@, name@);
                    assert(self@[i as int].0 == name@);
                    assert(0 <= w < self@.len() && self@[w].0 == name@);
                    assert(w == i as int);
                }
                Some(&self.entries[i].1)
            },
            None => None,
        }
    }

    /// Writes `value` under `name`, returning the value it replaced, if any.
    pub fn set(&mut self, name: &String, value: &String) -> (r: Option<String>)
        requires
            old(self).wf(),
        ensures
            final(self)@ == spec_set(old(self)@, name@, value@),
            final(self).wf(),
            match r {
                Some(v) => spec_lookup(old(self)@, name@) == Some(v@),
                None => spec_lookup(old(self)@, name@) is None,
            },
    {
        match self.find(name) {
            Some(i) => {
                proof {
                    let w = spec_key_index(old(self)@, name@);
                    assert(old(self)@[i as int].0 == name@);
                    assert(0 <= w < old(self)@.len() && old(self)@[w].0 == name@);
                    assert(w == i as int);
                }
                let old_pair = self.entries[i].1.clone();
                self.entries[i] = (name.clone(), value.clone());
                proof {
                    assert(final(self)@ =~= spec_set(old(self)@, name@, value@));
                    assert forall|p: int, q: int|
                        0 <= p < q < final(self)@.len() implies final(self)@[p].0
                        != final(self)@[q].0 by {
                        assert(old(self)@[p].0 != old(self)@[q].0);
                    }
                }
                Some(old_pair)
            },
            None => {
                self.entries.push((name.clone(), value.clone()));
                proof {
                    assert(final(self)@ =~= spec_set(old(self)@, name@, value@));
                    assert forall|p: int, q: int|
                        0 <= p < q < final(self)@.len() implies final(self)@[p].0
                        != final(self)@[q].0 by {
                        if q < old(self)@.len() {
                            assert(old(self)@[p].0 != old(self)@[q].0);
                        } else {
                            assert(final(self)@[q].0 == name@);
                            assert(final(self)@[p].0 != name@);
                        }
                    }
                }
                None
            },
        }
    }

    /// The number of entries.
    pub fn len(&self) -> (r: usize)
        ensures
            r == self@.len(),
    {
        self.entries.len()
    }
}


/// After writing `v` under `k`, `k` reads back as `v`.
pub proof fn lemma_lookup_after_set_same(h: Seq<(Seq<char>, Seq<char>)>, k: Seq<char>, v: Seq<char>)
    requires
        spec_unique_keys(h),
    ensures
        spec_lookup(spec_set(h, k, v), k) == Some(v),
{
    let s = spec_set(h, k, v);
    lemma_set_preserves_unique(h, k, v);
    if spec_has_key(h, k) {
        let w = spec_key_index(h, k);
        assert(0 <= w < h.len() && h[w].0 == k);
        assert(s[w].0 == k);
        assert(spec_has_key(s, k));
        let j = spec_key_index(s, k);
        assert(0 <= j < s.len() && s[j].0 == k);
        if j != w {
            assert(s[j].0 != s[w].0);
            assert(false);
        }
        assert(s[j].1 == v);
    } else {
        let w = h.len() as int;
        assert(s[w].0 == k);
        assert(spec_has_key(s, k));
        let j = spec_key_index(s, k);
        assert(0 <= j < s.len() && s[j].0 == k);
        if j < h.len() {
            assert(h[j].0 == k);
            assert(spec_has_key(h, k));
            assert(false);
        }
        assert(s[j].1 == v);
    }
}

/// Writing under `k` leaves every other key's value alone.
pub proof fn lemma_lookup_after_set_other(
    h: Seq<(Seq<char>, Seq<char>)>,
    k: Seq<char>,
    v: Seq<char>,
    k2: Seq<char>,
)
    requires
        spec_unique_keys(h),
        k2 != k,
    ensures
        spec_lookup(spec_set(h, k, v), k2) == spec_lookup(h, k2),
{
    let s = spec_set(h, k, v);
    lemma_set_preserves_unique(h, k, v);
    if spec_has_key(h, k) {
        let w = spec_key_index(h, k);
        assert(0 <= w < h.len() && h[w].0 == k);
        if spec_has_key(h, k2) {
            let j = spec_key_index(h, k2);
            assert(0 <= j < h.len() && h[j].0 == k2);
            assert(j != w);
            assert(s[j] == h[j]);
            assert(spec_has_key(s, k2));
            let j2 = spec_key_index(s, k2);
            assert(0 <= j2 < s.len() && s[j2].0 == k2);
            if j2 != j {
                assert(s[j2].0 != s[j].0);
                assert(false);
            }
            assert(spec_lookup(s, k2) == Some(h[j].1));
        } else {
            assert forall|i: int| 0 <= i < s.len() implies s[i].0 != k2 by {
                if i == w {
                    assert(s[i].0 == k);
                } else {
                    assert(s[i].0 == h[i].0);
                }
            }
            assert(!spec_has_key(s, k2));
        }
    } else {
        if spec_has_key(h, k2) {
            let j = spec_key_index(h, k2);
            assert(0 <= j < h.len() && h[j].0 == k2);
            assert(s[j] == h[j]);
            assert(spec_has_key(s, k2));
            let j2 = spec_key_index(s, k2);
            assert(0 <= j2 < s.len() && s[j2].0 == k2);
            if j2 != j {
                if j2 < h.len() {
                    assert(s[j2].0 != s[j].0);
                    assert(false);
                } else {
                    assert(s[j2].0 == k);
                    assert(false);
                }
            }
            assert(spec_lookup(s, k2) == Some(h[j].1));
        } else {
            assert forall|i: int| 0 <= i < s.len() implies s[i].0 != k2 by {
                if i < h.len() {
                    assert(s[i].0 == h[i].0);
                } else {
                    assert(s[i].0 == k);
                }
            }
            assert(!spec_has_key(s, k2));
        }
    }
}

/// The body alone decides the `Content-Length` header of a request made
/// ready to send: a request that never carried one gets none for an empty
/// body, and exactly the body's byte count for a nonempty one; `CSeq`
/// always spells the allocated sequence identifier.
pub proof fn lemma_content_length_normalized(h: Seq<(Seq<char>, Seq<char>)>, len: nat, seq: u64)
    requires
        spec_unique_keys(h),
        spec_lookup(h, "Content-Length"@) is None,
    ensures
        len == 0 ==> spec_lookup(spec_normalized(h, len, seq), "Content-Length"@) is None,
        len > 0 ==> spec_lookup(spec_normalized(h, len, seq), "Content-Length"@) == Some(
            spec_dec_chars(len),
        ),
        spec_lookup(spec_normalized(h, len, seq), "CSeq"@) == Some(spec_dec_chars(seq as nat)),
{
    proof_keys_differ();
    if len > 0 {
        let h1 = spec_set(h, "Content-Length"@, spec_dec_chars(len));
        lemma_lookup_after_set_same(h, "Content-Length"@, spec_dec_chars(len));
        lemma_set_preserves_unique(h, "Content-Length"@, spec_dec_chars(len));
        lemma_lookup_after_set_other(h1, "CSeq"@, spec_dec_chars(seq as nat), "Content-Length"@);
        lemma_lookup_after_set_same(h1, "CSeq"@, spec_dec_chars(seq as nat));
    } else {
        lemma_lookup_after_set_other(h, "CSeq"@, spec_dec_chars(seq as nat), "Content-Length"@);
        lemma_lookup_after_set_same(h, "CSeq"@, spec_dec_chars(seq as nat));
    }
}

proof fn proof_keys_differ()
    ensures
        "Content-Length"@ != "CSeq"@,
{
    reveal_strlit("Content-Length");
    reveal_strlit("CSeq");
    assert("Content-Length"@.len() == 14);
    assert("CSeq"@.len() == 4);
}

/// The two headers every fresh request carries.
pub open spec fn spec_default_headers() -> Seq<(Seq<char>, Seq<char>)> {
    seq![("X-Apple-ProtocolVersion"@, "1"@), ("User-Agent"@, "AirPlay/409.16"@)]
}

/// An outgoing request: verb, target path, headers and payload.
#[derive(Debug)]
pub struct Request {
    pub method: Method,
    pub path: String,
    pub headers: Headers,
    pub body: Body,
}

/// The headers of `h` once a request with body length `len` and sequence
/// identifier `seq` has been made ready to send: `Content-Length` is set
/// exactly when the body is nonempty, and `CSeq` is always set.
pub open spec fn spec_normalized(
    h: Seq<(Seq<char>, Seq<char>)>,
    len: nat,
    seq: u64,
) -> Seq<(Seq<char>, Seq<char>)> {
    let h1 = if len > 0 {
        spec_set(h, "Content-Length"@, spec_dec_chars(len))
    } else {
        h
    };
    spec_set(h1, "CSeq"@, spec_dec_chars(seq as nat))
}

impl Request {
    /// A fresh request with the default headers and no payload.
    pub fn new(method: Method, path: &str) -> (r: Request)
        ensures
            r.method == method,
            r.path@ == path@,
            r.headers@ == spec_default_headers(),
            r.headers.wf(),
            r.body is Empty,
    {
        Request::new_body(method, path, Body::Empty)
    }

    /// A fresh request with the default headers and the given payload.
    pub fn new_body(method: Method, path: &str, body: Body) -> (r: Request)
        ensures
            r.method == method,
            r.path@ == path@,
            r.headers@ == spec_default_headers(),
            r.headers.wf(),
            r.body == body,
    {
        let mut headers = Headers::new();
        let k1: String = "X-Apple-ProtocolVersion".to_owned();
        let v1: String = "1".to_owned();
        let k2: String = "User-Agent".to_owned();
        let v2: String = "AirPlay/409.16".to_owned();
        proof {
            reveal_strlit("X-Apple-ProtocolVersion");
            reveal_strlit("User-Agent");
            assert("X-Apple-ProtocolVersion"@.len() == 23);
            assert("User-Agent"@.len() == 10);
        }
        headers.set(&k1, &v1);
        headers.set(&k2, &v2);
        proof {
            assert(headers@ =~= spec_default_headers());
        }
        Request { method, path: path.to_owned(), headers, body }
    }

    /// Writes `value` under `name`, returning the value it replaced, if any.
    pub fn set_header(&mut self, name: &String, value: &String) -> (r: Option<String>)
        requires
            old(self).headers.wf(),
        ensures
            final(self).headers@ == spec_set(old(self).headers@, name@, value@),
            final(self).headers.wf(),
            final(self).method == old(self).method,
            final(self).path == old(self).path,
            final(self).body == old(self).body,
            match r {
                Some(v) => spec_lookup(old(self).headers@, name@) == Some(v@),
                None => spec_lookup(old(self).headers@, name@) is None,
            },
    {
        self.headers.set(name, value)
    }

    /// Makes the request ready to send: records the body length when there
    /// is a body, and stamps the allocated sequence identifier.
    pub fn normalize(&mut self, body_len: u64, seq: u64)
        requires
            old(self).headers.wf(),
        ensures
            final(self).headers@ == spec_normalized(old(self).headers@, body_len as nat, seq),
            final(self).headers.wf(),
            final(self).method == old(self).method,
            final(self).path == old(self).path,
            final(self).body == old(self).body,
    {
        if body_len > 0 {
            let v = u64_to_string(body_len);
            let k: String = "Content-Length".to_owned();
            self.headers.set(&k, &v);
        }
        let v = u64_to_string(seq);
        let k: String = "CSeq".to_owned();
        self.headers.set(&k, &v);
    }
}

/// A response frame as delivered to the caller that issued the request.
#[derive(Debug)]
pub struct Response {
    pub status: u16,
    pub headers: Headers,
    pub body: Body,
}

/// One wire line per header, in order: `name: value` and a line break.
pub open spec fn spec_header_lines(h: Seq<(Seq<char>, Seq<char>)>) -> Seq<char>
    decreases h.len(),
{
    if h.len() == 0 {
        Seq::empty()
    } else {
        h[0].0 + ": "@ + h[0].1 + "\r\n"@ + spec_header_lines(h.drop_first())
    }
}

/// The whole text head of a frame: request line, header lines, blank line.
pub open spec fn spec_head_chars(
    m: Method,
    path: Seq<char>,
    h: Seq<(Seq<char>, Seq<char>)>,
) -> Seq<char> {
    spec_method_chars(m) + " "@ + path + " RTSP/1.0\r\n"@ + spec_header_lines(h) + "\r\n"@
}

proof fn lemma_header_lines_take(h: Seq<(Seq<char>, Seq<char>)>, i: int)
    requires
        0 <= i < h.len(),
    ensures
        spec_header_lines(h.take(i + 1)) == spec_header_lines(h.take(i)) + h[i].0 + ": "@ + h[i].1
            + "\r\n"@,
    decreases i,
{
    let a = h.take(i + 1);
    let b = h.take(i);
    if i == 0 {
        assert(a.drop_first() =~= Seq::<(Seq<char>, Seq<char>)>::empty());
        assert(spec_header_lines(a.drop_first()) == Seq::<char>::empty());
        assert(a[0] == h[0]);
        assert(spec_header_lines(b) == Seq::<char>::empty());
        assert(spec_header_lines(a) == a[0].0 + ": "@ + a[0].1 + "\r\n"@ + spec_header_lines(
            a.drop_first(),
        ));
        assert(spec_header_lines(a) =~= spec_header_lines(b) + h[i].0 + ": "@ + h[i].1 + "\r\n"@);
    } else {
        lemma_header_lines_take(h.drop_first(), i - 1);
        assert(a.drop_first() =~= h.drop_first().take(i));
        assert(b.drop_first() =~= h.drop_first().take(i - 1));
        assert(h.drop_first()[i - 1] == h[i]);
        assert(spec_header_lines(a) == a[0].0 + ": "@ + a[0].1 + "\r\n"@ + spec_header_lines(
            a.drop_first(),
        ));
        assert(spec_header_lines(a) =~= spec_header_lines(b) + h[i].0 + ": "@ + h[i].1 + "\r\n"@);
    }
}

/// Writes the text head of a frame for `req` as it stands.
pub fn encode_head(req: &Request) -> (r: String)
    ensures
        r@ == spec_head_chars(req.method, req.path@, req.headers@),
{
    let mut s = req.method.to_string();
    s.append(" ");
    s.append(req.path.as_str());
    s.append(" RTSP/1.0\r\n");
    let n = req.headers.entries.len();
    let mut i: usize = 0;
    proof {
        assert(req.headers@.take(0) =~= Seq::<(Seq<char>, Seq<char>)>::empty());
    }
    while i < n
        invariant
            0 <= i <= n,
            n == req.headers@.len(),
            s@ == spec_method_chars(req.method) + " "@ + req.path@ + " RTSP/1.0\r\n"@
                + spec_header_lines(req.headers@.take(i as int)),
        decreases n - i,
    {
        s.append(req.headers.entries[i].0.as_str());
        s.append(": ");
        s.append(req.headers.entries[i].1.as_str());
        s.append("\r\n");
        proof {
            assert(req.headers@[i as int].0 == req.headers.entries@[i as int].0@);
            assert(req.headers@[i as int].1 == req.headers.entries@[i as int].1@);
            lemma_header_lines_take(req.headers@, i as int);
        }
        i = i + 1;
    }
    proof {
        assert(req.headers@.take(n as int) =~= req.headers@);
    }
    s.append("\r\n");
    s
}

/// The bytes a body contributes to the wire frame.  A structured value goes
/// through the external codec, which may refuse it.
pub fn serialize_body(body: &Body) -> (r: Option<Vec<u8>>)
    ensures
        body is Empty ==> (r matches Some(b) && b@ == Seq::<u8>::empty()),
        (body matches Body::Raw(x) ==> (r matches Some(b) && b@ == x@)),
        r is None ==> body is Plist,
{
    match body {
        Body::Empty => Some(Vec::new()),
        Body::Raw(x) => {
            let mut out: Vec<u8> = Vec::new();
            let mut i: usize = 0;
            while i < x.len()
                invariant
                    0 <= i <= x@.len(),
                    out@ == x@.take(i as int),
                decreases x@.len() - i,
            {
                out.push(x[i]);
                proof {
                    assert(out@ =~= x@.take(i as int + 1));
                }
                i = i + 1;
            }
            proof {
                assert(x@.take(x@.len() as int) =~= x@);
            }
            Some(out)
        },
        Body::Plist(v) => plist_to_bytes(v),
    }
}

/// Normalizes `req` for the given sequence identifier and encodes the whole
/// wire frame: the UTF-8 bytes of the text head followed by the body bytes.
/// Fails only when the external codec refuses the structured body.
pub fn encode_request(req: &mut Request, seq: u64) -> (r: Option<Vec<u8>>)
    requires
        old(req).headers.wf(),
    ensures
        final(req).method == old(req).method,
        final(req).path == old(req).path,
        final(req).body == old(req).body,
        r is None ==> old(req).body is Plist && *final(req) == *old(req),
        r matches Some(frame) ==> (exists|b: Seq<u8>|
            {
                &&& frame@ == encode_utf8(
                    spec_head_chars(
                        old(req).method,
                        old(req).path@,
                        spec_normalized(old(req).headers@, b.len(), seq),
                    ),
                ) + b
                &&& final(req).headers@ == spec_normalized(old(req).headers@, b.len(), seq)
                &&& (old(req).body is Empty ==> b == Seq::<u8>::empty())
                &&& (old(req).body matches Body::Raw(x) ==> b == x@)
            }),
        (old(req).body is Empty || old(req).body is Raw) ==> r is Some,
{
    let body_bytes = match serialize_body(&req.body) {
        Some(b) => b,
        None => {
            return None;
        },
    };
    req.normalize(body_bytes.len() as u64, seq);
    let head = encode_head(req);
    let mut out = head.as_str().as_bytes_vec();
    let mut i: usize = 0;
    let ghost head_bytes = out@;
    while i < body_bytes.len()
        invariant
            0 <= i <= body_bytes@.len(),
            out@ == head_bytes + body_bytes@.take(i as int),
        decreases body_bytes@.len() - i,
    {
        out.push(body_bytes[i]);
        proof {
            assert(out@ =~= head_bytes + body_bytes@.take(i as int + 1));
        }
        i = i + 1;
    }
    proof {
        assert(body_bytes@.take(body_bytes@.len() as int) =~= body_bytes@);
        assert(out@ == head_bytes + body_bytes@);
    }
    Some(out)
}

} // verus!
