//! Incremental parsing of response frames out of a byte stream.
//!
//! A [`FrameReader`] swallows byte chunks of any size and, on request,
//! yields the next complete frame.  Its whole state is the sequence of
//! bytes received and not yet consumed, so what it produces depends only on
//! the concatenation of the chunks, never on where the stream was split —
//! not even in the middle of a multi-byte character or of the body.

use vstd::prelude::*;
use vstd::utf8::{valid_utf8, decode_utf8};
use vstd::slice::{slice_subrange, slice_to_vec};
use crate::rtsp::{Body, Headers, Response, spec_lookup, spec_set};
use crate::text::bytes_to_string;
use crate::plist_codec::{plist_decodes, plist_from_bytes};

verus! {

/// Whether a line break stands at `i`.
pub open spec fn spec_crlf_at(b: Seq<u8>, i: int) -> bool {
    0 <= i && i + 2 <= b.len() && b[i] == 13 && b[i + 1] == 10
}

/// Whether the head terminator (an empty line) stands at `i`.
pub open spec fn spec_crlf2_at(b: Seq<u8>, i: int) -> bool {
    0 <= i && i + 4 <= b.len() && b[i] == 13 && b[i + 1] == 10 && b[i + 2] == 13 && b[i + 3] == 10
}

/// Whether the header separator `": "` stands at `i`.
pub open spec fn spec_colsp_at(b: Seq<u8>, i: int) -> bool {
    0 <= i && i + 2 <= b.len() && b[i] == 58 && b[i + 1] == 32
}

/// The first line break at or after `from`.
pub open spec fn spec_find_crlf(b: Seq<u8>, from: int) -> Option<int>
    decreases b.len() - from,
{
    if from < 0 || from + 2 > b.len() {
        None
    } else if spec_crlf_at(b, from) {
        Some(from)
    } else {
        spec_find_crlf(b, from + 1)
    }
}

/// The first head terminator at or after `from`.
pub open spec fn spec_find_crlf2(b: Seq<u8>, from: int) -> Option<int>
    decreases b.len() - from,
{
    if from < 0 || from + 4 > b.len() {
        None
    } else if spec_crlf2_at(b, from) {
        Some(from)
    } else {
        spec_find_crlf2(b, from + 1)
    }
}

/// The first header separator at or after `from`.
pub open spec fn spec_find_colsp(b: Seq<u8>, from: int) -> Option<int>
    decreases b.len() - from,
{
    if from < 0 || from + 2 > b.len() {
        None
    } else if spec_colsp_at(b, from) {
        Some(from)
    } else {
        spec_find_colsp(b, from + 1)
    }
}

fn find_crlf(b: &[u8], from: usize) -> (r: Option<usize>)
    requires
        from <= b@.len(),
    ensures
        match r {
            Some(i) => spec_find_crlf(b@, from as int) == Some(i as int) && spec_crlf_at(
                b@,
                i as int,
            ) && from <= i && i + 2 <= b@.len(),
            None => spec_find_crlf(b@, from as int) is None,
        },
{
    let n = b.len();
    let mut i = from;
    while n - i >= 2
        invariant
            from <= i <= n,
            n == b@.len(),
            spec_find_crlf(b@, from as int) == spec_find_crlf(b@, i as int),
        decreases n - i,
    {
        if b[i] == 13 && b[i + 1] == 10 {
            return Some(i);
        }
        i = i + 1;
    }
    None
}

fn find_crlf2(b: &[u8], from: usize) -> (r: Option<usize>)
    requires
        from <= b@.len(),
    ensures
        match r {
            Some(i) => spec_find_crlf2(b@, from as int) == Some(i as int) && spec_crlf2_at(
                b@,
                i as int,
            ) && from <= i && i + 4 <= b@.len(),
            None => spec_find_crlf2(b@, from as int) is None,
        },
{
    let n = b.len();
    let mut i = from;
    while n - i >= 4
        invariant
            from <= i <= n,
            n == b@.len(),
            spec_find_crlf2(b@, from as int) == spec_find_crlf2(b@, i as int),
        decreases n - i,
    {
        if b[i] == 13 && b[i + 1] == 10 && b[i + 2] == 13 && b[i + 3] == 10 {
            return Some(i);
        }
        i = i + 1;
    }
    None
}

fn find_colsp(b: &[u8], from: usize) -> (r: Option<usize>)
    requires
        from <= b@.len(),
    ensures
        match r {
            Some(i) => spec_find_colsp(b@, from as int) == Some(i as int) && spec_colsp_at(
                b@,
                i as int,
            ) && from <= i && i + 2 <= b@.len(),
            None => spec_find_colsp(b@, from as int) is None,
        },
{
    let n = b.len();
    let mut i = from;
    while n - i >= 2
        invariant
            from <= i <= n,
            n == b@.len(),
            spec_find_colsp(b@, from as int) == spec_find_colsp(b@, i as int),
        decreases n - i,
    {
        if b[i] == 58 && b[i + 1] == 32 {
            return Some(i);
        }
        i = i + 1;
    }
    None
}

/// Whether `b` is an ASCII digit byte.
pub open spec fn spec_is_digit_byte(b: u8) -> bool {
    48 <= b <= 57
}

/// Whether every byte of `s` is an ASCII digit.
pub open spec fn spec_all_digit_bytes(s: Seq<u8>) -> bool {
    forall|i: int| 0 <= i < s.len() ==> spec_is_digit_byte(#[trigger] s[i])
}

/// The number spelt by the digit bytes of `s`, most significant first.
pub open spec fn spec_dec_value_bytes(s: Seq<u8>) -> nat
    decreases s.len(),
{
    if s.len() == 0 {
        0
    } else {
        (spec_dec_value_bytes(s.drop_last()) * 10 + (s.last() as int - 48)) as nat
    }
}

proof fn lemma_dec_value_bytes_prefix_le(s: Seq<u8>, i: int)
    requires
        0 <= i <= s.len(),
        spec_all_digit_bytes(s),
    ensures
        spec_dec_value_bytes(s.take(i)) <= spec_dec_value_bytes(s),
    decreases s.len() - i,
{
    if i < s.len() {
        assert(s.take(i + 1).drop_last() =~= s.take(i));
        assert(s.take(i + 1).last() == s[i]);
        lemma_dec_value_bytes_prefix_le(s, i + 1);
    } else {
        assert(s.take(i) =~= s);
    }
}

/// Parses the status code spelt by a token of digit bytes: defined exactly
/// when the token is nonempty, all digits, and the value fits a `u16`.
pub open spec fn spec_status_value(tok: Seq<u8>) -> Option<u16> {
    if tok.len() > 0 && spec_all_digit_bytes(tok) && spec_dec_value_bytes(tok) <= u16::MAX {
        Some(spec_dec_value_bytes(tok) as u16)
    } else {
        None
    }
}

fn parse_u16_bytes(tok: &[u8]) -> (r: Option<u16>)
    ensures
        r == spec_status_value(tok@),
{
    let n = tok.len();
    if n == 0 {
        return None;
    }
    let mut acc: u32 = 0;
    let mut i: usize = 0;
    while i < n
        invariant
            0 <= i <= n,
            n == tok@.len(),
            spec_all_digit_bytes(tok@.take(i as int)),
            acc == spec_dec_value_bytes(tok@.take(i as int)),
            acc <= u16::MAX,
        decreases n - i,
    {
        let d = tok[i];
        if d < 48 || d > 57 {
            assert(!spec_is_digit_byte(tok@[i as int]));
            return None;
        }
        acc = acc * 10 + ((d - 48) as u32);
        proof {
            assert(tok@.take(i as int + 1).drop_last() =~= tok@.take(i as int));
            assert(tok@.take(i as int + 1).last() == tok@[i as int]);
        }
        if acc > u16::MAX as u32 {
            proof {
                if spec_all_digit_bytes(tok@) {
                    lemma_dec_value_bytes_prefix_le(tok@, i as int + 1);
                }
            }
            return None;
        }
        i = i + 1;
    }
    proof {
        assert(tok@.take(n as int) =~= tok@);
    }
    Some(acc as u16)
}

/// The first byte equal to a space at or after `from`.
pub open spec fn spec_find_space(b: Seq<u8>, from: int) -> Option<int>
    decreases b.len() - from,
{
    if from < 0 || from >= b.len() {
        None
    } else if b[from] == 32 {
        Some(from)
    } else {
        spec_find_space(b, from + 1)
    }
}

fn find_space(b: &[u8], from: usize) -> (r: Option<usize>)
    requires
        from <= b@.len(),
    ensures
        match r {
            Some(i) => spec_find_space(b@, from as int) == Some(i as int) && from <= i && i
                < b@.len() && b@[i as int] == 32,
            None => spec_find_space(b@, from as int) is None,
        },
{
    let n = b.len();
    let mut i = from;
    while i < n
        invariant
            from <= i <= n,
            n == b@.len(),
            spec_find_space(b@, from as int) == spec_find_space(b@, i as int),
        decreases n - i,
    {
        if b[i] == 32 {
            return Some(i);
        }
        i = i + 1;
    }
    None
}

/// The status code announced by a status line: the digits between the first
/// space and the following space or line end.
pub open spec fn spec_parse_status(line: Seq<u8>) -> Option<u16> {
    match spec_find_space(line, 0) {
        None => None,
        Some(i) => {
            let j = match spec_find_space(line, i + 1) {
                None => line.len() as int,
                Some(j) => j,
            };
            spec_status_value(line.subrange(i + 1, j))
        },
    }
}

fn parse_status(line: &[u8]) -> (r: Option<u16>)
    ensures
        r == spec_parse_status(line@),
{
    let n = line.len();
    match find_space(line, 0) {
        None => None,
        Some(i) => {
            let j = match find_space(line, i + 1) {
                None => n,
                Some(j) => j,
            };
            let tok = slice_subrange(line, i + 1, j);
            parse_u16_bytes(tok)
        },
    }
}

/// One parsed header line: the text before the first `": "` names the
/// header, the text after it is the value; both must be well-formed text.
pub open spec fn spec_parse_hline(line: Seq<u8>) -> Option<(Seq<char>, Seq<char>)> {
    match spec_find_colsp(line, 0) {
        None => None,
        Some(i) => {
            let nb = line.subrange(0, i);
            let vb = line.subrange(i + 2, line.len() as int);
            if valid_utf8(nb) && valid_utf8(vb) {
                Some((decode_utf8(nb), decode_utf8(vb)))
            } else {
                None
            }
        },
    }
}

fn parse_hline(line: &[u8]) -> (r: Option<(String, String)>)
    ensures
        match spec_parse_hline(line@) {
            None => r is None,
            Some(p) => r matches Some(q) && q.0@ == p.0 && q.1@ == p.1,
        },
{
    let n = line.len();
    match find_colsp(line, 0) {
        None => None,
        Some(i) => {
            let nb = slice_to_vec(slice_subrange(line, 0, i));
            let vb = slice_to_vec(slice_subrange(line, i + 2, n));
            match bytes_to_string(nb) {
                None => None,
                Some(name) => match bytes_to_string(vb) {
                    None => None,
                    Some(value) => Some((name, value)),
                },
            }
        },
    }
}

/// The header lines of a head, parsed in order.  `None` marks a malformed
/// line (no separator, or bytes that are not text).
pub open spec fn spec_parse_hpairs(b: Seq<u8>) -> Option<Seq<(Seq<char>, Seq<char>)>>
    decreases b.len(),
{
    match spec_find_crlf(b, 0) {
        None => match spec_parse_hline(b) {
            None => None,
            Some(p) => Some(seq![p]),
        },
        Some(i) => if 0 <= i && i + 2 <= b.len() {
            match spec_parse_hline(b.subrange(0, i)) {
                None => None,
                Some(p) => match spec_parse_hpairs(b.subrange(i + 2, b.len() as int)) {
                    None => None,
                    Some(rest) => Some(seq![p] + rest),
                },
            }
        } else {
            None
        },
    }
}

fn parse_hpairs(b: &[u8]) -> (r: Option<Vec<(String, String)>>)
    ensures
        match spec_parse_hpairs(b@) {
            None => r is None,
            Some(ps) => r matches Some(v) && v@.map_values(|p: (String, String)| (p.0@, p.1@))
                == ps,
        },
    decreases b@.len(),
{
    match find_crlf(b, 0) {
        None => match parse_hline(b) {
            None => None,
            Some(p) => {
                let mut v: Vec<(String, String)> = Vec::new();
                v.push(p);
                proof {
                    let ps = spec_parse_hpairs(b@)->Some_0;
                    assert(v@.map_values(|q: (String, String)| (q.0@, q.1@)) =~= ps);
                }
                Some(v)
            },
        },
        Some(i) => {
            let n = b.len();
            let head_line = slice_subrange(b, 0, i);
            match parse_hline(head_line) {
                None => None,
                Some(p) => {
                    let rest_sl = slice_subrange(b, i + 2, n);
                    match parse_hpairs(rest_sl) {
                        None => None,
                        Some(mut rest) => {
                            rest.insert(0, p);
                            proof {
                                let ps = spec_parse_hpairs(b@)->Some_0;
                                assert(rest@.map_values(|q: (String, String)| (q.0@, q.1@))
                                    =~= ps);
                            }
                            Some(rest)
                        },
                    }
                },
            }
        },
    }
}

/// The header map built by writing each parsed pair in order: a repeated
/// name keeps its place and takes the later value.
pub open spec fn spec_fold_headers(ps: Seq<(Seq<char>, Seq<char>)>) -> Seq<(Seq<char>, Seq<char>)>
    decreases ps.len(),
{
    if ps.len() == 0 {
        Seq::empty()
    } else {
        spec_set(spec_fold_headers(ps.drop_last()), ps.last().0, ps.last().1)
    }
}

fn fold_headers(pairs: Vec<(String, String)>) -> (r: Headers)
    ensures
        r@ == spec_fold_headers(pairs@.map_values(|p: (String, String)| (p.0@, p.1@))),
        r.wf(),
{
    let ghost ps = pairs@.map_values(|p: (String, String)| (p.0@, p.1@));
    let mut h = Headers::new();
    let mut i: usize = 0;
    proof {
        assert(ps.take(0) =~= Seq::<(Seq<char>, Seq<char>)>::empty());
    }
    while i < pairs.len()
        invariant
            0 <= i <= pairs@.len(),
            ps == pairs@.map_values(|p: (String, String)| (p.0@, p.1@)),
            h@ == spec_fold_headers(ps.take(i as int)),
            h.wf(),
        decreases pairs@.len() - i,
    {
        h.set(&pairs[i].0, &pairs[i].1);
        proof {
            assert(ps.take(i as int + 1).drop_last() =~= ps.take(i as int));
            assert(ps.take(i as int + 1).last() == ps[i as int]);
            assert(ps[i as int].0 == pairs@[i as int].0@);
            assert(ps[i as int].1 == pairs@[i as int].1@);
        }
        i = i + 1;
    }
    proof {
        assert(ps.take(pairs@.len() as int) =~= ps);
    }
    h
}

/// How many body bytes a parsed head announces: the `Content-Length` value
/// when present (which must spell a number), zero when absent.
pub open spec fn spec_content_length(h: Seq<(Seq<char>, Seq<char>)>) -> Option<nat> {
    match spec_lookup(h, "Content-Length"@) {
        None => Some(0),
        Some(v) => {
            if v.len() > 0 && crate::text::spec_all_digit_chars(v) && crate::text::spec_dec_value(
                v,
            ) <= u64::MAX {
                Some(crate::text::spec_dec_value(v))
            } else {
                None
            }
        },
    }
}

/// Whether a parsed head announces the structured-value media type.
pub open spec fn spec_is_plist_content(h: Seq<(Seq<char>, Seq<char>)>) -> bool {
    spec_lookup(h, "Content-Type"@) == Some("application/x-apple-binary-plist"@)
}

/// The outcome of looking for one frame at the front of the buffered bytes.
pub enum SpecFrameStep {
    /// More bytes are needed before the next frame is complete.
    Incomplete,
    /// The head is complete but malformed: a bad status line, a header line
    /// without separator, or header bytes that are not text.
    BadHead,
    /// The head is complete but its `Content-Length` does not spell a number.
    BadLength,
    /// A whole frame: its status, folded headers, body bytes, and how many
    /// buffered bytes it consumed.
    Got { status: u16, headers: Seq<(Seq<char>, Seq<char>)>, body: Seq<u8>, used: int },
}

/// Looks for one complete frame at the front of `b`.
pub open spec fn spec_frame_step(b: Seq<u8>) -> SpecFrameStep {
    match spec_find_crlf2(b, 0) {
        None => SpecFrameStep::Incomplete,
        Some(he) => {
            let head = b.subrange(0, he);
            let status_end = match spec_find_crlf(head, 0) {
                None => head.len() as int,
                Some(i) => i,
            };
            let status_line = head.subrange(0, status_end);
            match spec_parse_status(status_line) {
                None => SpecFrameStep::BadHead,
                Some(st) => {
                    let pairs = if status_end == head.len() {
                        Some(Seq::<(Seq<char>, Seq<char>)>::empty())
                    } else {
                        spec_parse_hpairs(head.subrange(status_end + 2, head.len() as int))
                    };
                    match pairs {
                        None => SpecFrameStep::BadHead,
                        Some(ps) => {
                            let folded = spec_fold_headers(ps);
                            match spec_content_length(folded) {
                                None => SpecFrameStep::BadLength,
                                Some(n) => {
                                    if he + 4 + n <= b.len() {
                                        SpecFrameStep::Got {
                                            status: st,
                                            headers: folded,
                                            body: b.subrange(he + 4, he + 4 + n),
                                            used: he + 4 + n,
                                        }
                                    } else {
                                        SpecFrameStep::Incomplete
                                    }
                                },
                            }
                        },
                    }
                },
            }
        },
    }
}

/// Why a complete head could not be turned into a response.
#[derive(Debug, Clone, Copy, PartialEq, Eq, Structural)]
pub enum FrameDecodeError {
    /// A malformed status or header line.
    MalformedHead,
    /// A `Content-Length` header whose value does not spell a number.
    BadContentLength,
}

/// The incremental frame parser.  Its state is exactly the received bytes
/// not yet consumed by a completed frame.
#[derive(Debug)]
pub struct FrameReader {
    buf: Vec<u8>,
}

impl View for FrameReader {
    type V = Seq<u8>;

    closed spec fn view(&self) -> Seq<u8> {
        self.buf@
    }
}

impl FrameReader {
    /// A reader that has seen no bytes.
    pub fn new() -> (r: Self)
        ensures
            r@ == Seq::<u8>::empty(),
    {
        let r = FrameReader { buf: Vec::new() };
        proof {
            assert(r@ =~= Seq::<u8>::empty());
        }
        r
    }

    /// Swallows one chunk.  The reader keeps only the concatenation of what
    /// it was fed, so chunk boundaries cannot influence parsing.
    pub fn push_chunk(&mut self, chunk: &[u8])
        ensures
            final(self)@ == old(self)@ + chunk@,
    {
        self.buf.extend_from_slice(chunk);
    }

    /// Takes the next complete frame off the front of the buffer, if one is
    /// there.  `Ok(None)` asks for more bytes and consumes nothing; an
    /// error reports an unrecoverable head and consumes nothing.
    pub fn try_next(&mut self) -> (r: Result<Option<Response>, FrameDecodeError>)
        ensures
            match spec_frame_step(old(self)@) {
                SpecFrameStep::Incomplete => r matches Ok(o) && o is None && final(self)@ == old(
                    self,
                )@,
                SpecFrameStep::BadHead => r matches Err(e) && e == FrameDecodeError::MalformedHead
                    && final(self)@ == old(self)@,
                SpecFrameStep::BadLength => r matches Err(e) && e
                    == FrameDecodeError::BadContentLength && final(self)@ == old(self)@,
                SpecFrameStep::Got { status, headers, body, used } => {
                    &&& r matches Ok(o)
                    &&& o matches Some(resp)
                    &&& resp.status == status
                    &&& resp.headers@ == headers
                    &&& resp.headers.wf()
                    &&& final(self)@ == old(self)@.subrange(used, old(self)@.len() as int)
                    &&& (body.len() == 0 ==> resp.body is Empty)
                    &&& (body.len() > 0 && !spec_is_plist_content(headers) ==> (resp.body
                        matches Body::Raw(x) && x@ == body))
                    &&& (body.len() > 0 && spec_is_plist_content(headers) && plist_decodes(body)
                        ==> resp.body is Plist)
                    &&& (body.len() > 0 && spec_is_plist_content(headers) && !plist_decodes(body)
                        ==> (resp.body matches Body::Raw(x) && x@ == body))
                },
            },
    {
        let he = match find_crlf2(self.buf.as_slice(), 0) {
            None => {
                return Ok(None);
            },
            Some(he) => he,
        };
        let head = slice_subrange(self.buf.as_slice(), 0, he);
        let status_end = match find_crlf(head, 0) {
            None => head.len(),
            Some(i) => i,
        };
        let status_line = slice_subrange(head, 0, status_end);
        let status = match parse_status(status_line) {
            None => {
                return Err(FrameDecodeError::MalformedHead);
            },
            Some(st) => st,
        };
        let pairs: Vec<(String, String)> = if status_end == head.len() {
            Vec::new()
        } else {
            match parse_hpairs(slice_subrange(head, status_end + 2, head.len())) {
                None => {
                    return Err(FrameDecodeError::MalformedHead);
                },
                Some(ps) => ps,
            }
        };
        proof {
            if status_end == head@.len() {
                assert(pairs@.map_values(|p: (String, String)| (p.0@, p.1@))
                    =~= Seq::<(Seq<char>, Seq<char>)>::empty());
            }
        }
        let headers = fold_headers(pairs);
        let cl_key: String = "Content-Length".to_owned();
        let n: u64 = match headers.get(&cl_key) {
            None => 0,
            Some(v) => match crate::text::parse_u64_str(v.as_str()) {
                None => {
                    return Err(FrameDecodeError::BadContentLength);
                },
                Some(n) => n,
            },
        };
        let buf_len = self.buf.len();
        if (he as u128) + 4 + (n as u128) > (buf_len as u128) {
            return Ok(None);
        }
        let body_start = he + 4;
        let body_end = body_start + (n as usize);
        let body_bytes = slice_to_vec(slice_subrange(self.buf.as_slice(), body_start, body_end));
        let body: Body = if n == 0 {
            Body::Empty
        } else {
            let ct_key: String = "Content-Type".to_owned();
            let is_plist = match headers.get(&ct_key) {
                None => false,
                Some(v) => {
                    let want: String = "application/x-apple-binary-plist".to_owned();
                    *v == want
                },
            };
            if is_plist {
                match plist_from_bytes(body_bytes.as_slice()) {
                    Some(v) => Body::Plist(v),
                    None => Body::Raw(body_bytes),
                }
            } else {
                Body::Raw(body_bytes)
            }
        };
        let rest = slice_to_vec(slice_subrange(self.buf.as_slice(), body_end, buf_len));
        self.buf = rest;
        Ok(Some(Response { status, headers, body }))
    }
}


proof fn lemma_find_crlf2_extends(b: Seq<u8>, ext: Seq<u8>, from: int, he: int)
    requires
        0 <= from,
        spec_find_crlf2(b, from) == Some(he),
    ensures
        spec_find_crlf2(b + ext, from) == Some(he),
        from <= he,
        he + 4 <= b.len(),
        spec_crlf2_at(b, he),
    decreases b.len() - from,
{
    assert(b.len() <= (b + ext).len());
    assert(from + 4 <= b.len());
    assert forall|i: int| 0 <= i < b.len() implies (b + ext)[i] == b[i] by {}
    if spec_crlf2_at(b, from) {
        assert(he == from);
        assert(spec_crlf2_at(b + ext, from));
    } else {
        assert(spec_find_crlf2(b, from + 1) == Some(he));
        lemma_find_crlf2_extends(b, ext, from + 1, he);
        assert(!spec_crlf2_at(b + ext, from));
    }
}

/// Feeding more bytes to a reader whose buffer already holds a complete
/// frame, or an unrecoverably malformed head, changes nothing about that
/// outcome: together with `push_chunk` keeping only the concatenation of
/// the chunks and `try_next` consuming nothing while a frame is incomplete,
/// this is why the sequence of parsed frames depends only on the bytes the
/// peer sent, never on where the transport split them into chunks — not
/// even inside a header line, the blank terminator, a multi-byte character
/// or the body.
pub proof fn lemma_frame_step_extension(b: Seq<u8>, ext: Seq<u8>)
    ensures
        match spec_frame_step(b) {
            SpecFrameStep::Incomplete => true,
            SpecFrameStep::BadHead => spec_frame_step(b + ext) is BadHead,
            SpecFrameStep::BadLength => spec_frame_step(b + ext) is BadLength,
            SpecFrameStep::Got { status, headers, body, used } => spec_frame_step(b + ext)
                == (SpecFrameStep::Got { status, headers, body, used }),
        },
{
    let w = b + ext;
    match spec_find_crlf2(b, 0) {
        None => {
            assert(spec_frame_step(b) is Incomplete);
        },
        Some(he) => {
            lemma_find_crlf2_extends(b, ext, 0, he);
            assert(spec_find_crlf2(w, 0) == Some(he));
            assert(w.subrange(0, he) =~= b.subrange(0, he));
            match spec_frame_step(b) {
                SpecFrameStep::Incomplete => {},
                SpecFrameStep::BadHead => {},
                SpecFrameStep::BadLength => {},
                SpecFrameStep::Got { status, headers, body, used } => {
                    assert(w.subrange(he + 4, used) =~= b.subrange(he + 4, used));
                },
            }
        },
    }
}

/// Chunk splits are invisible: cutting the peer's bytes at any point `k`,
/// pushing the two chunks one after the other and asking for a frame in
/// between yields exactly what pushing all the bytes at once yields.  The
/// in-between attempt either consumes nothing (frame still incomplete) or
/// settles on the very outcome the whole byte sequence settles on.
pub proof fn lemma_chunk_split_invariance(whole: Seq<u8>, k: int)
    requires
        0 <= k <= whole.len(),
    ensures
        whole.take(k) + whole.skip(k) == whole,
        match spec_frame_step(whole.take(k)) {
            SpecFrameStep::Incomplete => true,
            SpecFrameStep::BadHead => spec_frame_step(whole) is BadHead,
            SpecFrameStep::BadLength => spec_frame_step(whole) is BadLength,
            SpecFrameStep::Got { status, headers, body, used } => spec_frame_step(whole)
                == (SpecFrameStep::Got { status, headers, body, used }),
        },
{
    assert(whole.take(k) + whole.skip(k) =~= whole);
    lemma_frame_step_extension(whole.take(k), whole.skip(k));
}

} // verus!
