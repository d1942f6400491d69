//! Sequence-identifier allocation and the table of outstanding requests.
//!
//! One connection owns one counter and one table.  The issuing side
//! allocates an identifier, registers a completion handle under it and
//! writes the frame; the receiving side looks the echoed identifier up and
//! fulfills exactly that handle.

use vstd::prelude::*;
use std::collections::HashMap;
use crate::rtsp::{Response, spec_lookup};
use crate::text::{parse_u64_str, spec_all_digit_chars, spec_dec_value};

verus! {

broadcast use vstd::std_specs::hash::group_hash_axioms;

#[verifier::external_type_specification]
#[verifier::external_body]
#[verifier::reject_recursive_types(T)]
pub struct ExOneshotSender<T>(tokio::sync::oneshot::Sender<T>);

/// Allocates the sequence identifiers of one connection: strictly
/// increasing, starting at zero, each handed out exactly once.
pub struct SeqCounter {
    next: u64,
}

impl SeqCounter {
    /// The identifier the next allocation will return.
    pub closed spec fn spec_next(&self) -> u64 {
        self.next
    }

    /// A counter whose first allocation returns zero.
    pub fn new() -> (r: Self)
        ensures
            r.spec_next() == 0,
    {
        SeqCounter { next: 0 }
    }

    /// Whether the identifier space is used up.
    pub fn exhausted(&self) -> (r: bool)
        ensures
            r == (self.spec_next() == u64::MAX),
    {
        self.next == u64::MAX
    }

    /// Hands out the next identifier.  Every identifier is returned at most
    /// once, because the counter moves strictly past it.
    pub fn allocate(&mut self) -> (r: u64)
        requires
            old(self).spec_next() < u64::MAX,
        ensures
            r == old(self).spec_next(),
            final(self).spec_next() == r + 1,
    {
        let x = self.next;
        self.next = self.next + 1;
        x
    }
}

/// Identifiers are never reused: once the counter has moved past an
/// allocated identifier it can only return larger ones, so a later
/// allocation can never equal an earlier one.
pub proof fn lemma_identifiers_never_reused(earlier: SeqCounter, id: u64, later: SeqCounter)
    requires
        id == earlier.spec_next(),
        later.spec_next() > id,
    ensures
        later.spec_next() != id,
        later.spec_next() > earlier.spec_next(),
{
}

/// The outstanding requests of one connection: each registered sequence
/// identifier maps to the single-use handle that will receive its response.
pub struct PendingTable {
    map: HashMap<u64, tokio::sync::oneshot::Sender<Response>>,
}

impl View for PendingTable {
    type V = Map<u64, tokio::sync::oneshot::Sender<Response>>;

    closed spec fn view(&self) -> Map<u64, tokio::sync::oneshot::Sender<Response>> {
        self.map@
    }
}

impl PendingTable {
    /// An empty table.
    pub fn new() -> (r: Self)
        ensures
            r@ == Map::<u64, tokio::sync::oneshot::Sender<Response>>::empty(),
    {
        PendingTable { map: HashMap::new() }
    }

    /// Registers `tx` under `id`.  Refuses a second registration under a
    /// live identifier, leaving the table unchanged.
    pub fn register(&mut self, id: u64, tx: tokio::sync::oneshot::Sender<Response>) -> (r: bool)
        ensures
            r == !old(self)@.contains_key(id),
            r ==> final(self)@ == old(self)@.insert(id, tx),
            !r ==> final(self)@ == old(self)@,
    {
        if self.map.contains_key(&id) {
            false
        } else {
            self.map.insert(id, tx);
            true
        }
    }

    /// Takes the handle registered under `id` out of the table, if any.
    pub fn take(&mut self, id: u64) -> (r: Option<
        tokio::sync::oneshot::Sender<Response>,
    >)
        ensures
            match r {
                Some(tx) => old(self)@.contains_key(id) && tx == old(self)@[id] && final(self)@
                    == old(self)@.remove(id),
                None => !old(self)@.contains_key(id) && final(self)@ == old(self)@,
            },
    {
        self.map.remove(&id)
    }
}

/// Relies on tokio's `oneshot::Sender::send`: it consumes the sender, and
/// when the receiving half is already gone it fails and hands the response
/// back unchanged.  It never blocks and never panics.
#[verifier::external_body]
fn oneshot_send(tx: tokio::sync::oneshot::Sender<Response>, resp: Response) -> (r: Result<
    (),
    Response,
>)
    ensures
        r matches Err(x) ==> x == resp,
{
    tx.send(resp)
}

/// What became of a received frame.
#[derive(Debug, Clone, Copy, PartialEq, Eq, Structural)]
pub enum RouteOutcome {
    /// The response was handed to the handle registered under its sequence
    /// identifier.
    Delivered,
    /// The handle existed but its receiving half had been dropped; the
    /// response is discarded without disturbing anything else.
    ReceiverGone,
    /// No handle is registered under the announced identifier: a
    /// correlation anomaly, the frame is discarded.
    UnknownSequence,
    /// The frame announces no usable `CSeq` header at all.
    MissingSequence,
}

/// With any number of requests outstanding, their responses may arrive in
/// any permutation: routing one frame removes exactly the entry under its
/// own identifier (see `route_frame`), and every other registered handle
/// stays in place, untouched, to receive its own response later.
pub proof fn lemma_delivery_leaves_others(
    m: Map<u64, tokio::sync::oneshot::Sender<Response>>,
    id: u64,
    other: u64,
)
    requires
        m.contains_key(other),
        other != id,
    ensures
        m.remove(id).contains_key(other),
        m.remove(id)[other] == m[other],
{
}

/// The sequence identifier a response announces: the value of its `CSeq`
/// header, when that header is present and spells a number.
pub open spec fn spec_cseq_of(resp: Response) -> Option<u64> {
    match spec_lookup(resp.headers@, "CSeq"@) {
        Some(v) => if v.len() > 0 && spec_all_digit_chars(v) && spec_dec_value(v) <= u64::MAX {
            Some(spec_dec_value(v) as u64)
        } else {
            None
        },
        None => None,
    }
}

/// Routes one received frame: looks the announced sequence identifier up
/// and fulfills exactly the handle registered under it.  Every other frame
/// is discarded and the table is left untouched, so one frame can never
/// resolve another request's handle.
pub fn route_frame(table: &mut PendingTable, resp: Response) -> (r: RouteOutcome)
    requires
        resp.headers.wf(),
    ensures
        match spec_cseq_of(resp) {
            None => r == RouteOutcome::MissingSequence && final(table)@ == old(table)@,
            Some(id) => {
                if old(table)@.contains_key(id) {
                    (r == RouteOutcome::Delivered || r == RouteOutcome::ReceiverGone)
                        && final(table)@ == old(table)@.remove(id)
                } else {
                    r == RouteOutcome::UnknownSequence && final(table)@ == old(table)@
                }
            },
        },
{
    let key: String = "CSeq".to_owned();
    let id: u64 = {
        let found = table_cseq_value(&resp, &key);
        match found {
            Some(v) => v,
            None => {
                return RouteOutcome::MissingSequence;
            },
        }
    };
    match table.take(id) {
        Some(tx) => match oneshot_send(tx, resp) {
            Ok(()) => RouteOutcome::Delivered,
            Err(_) => RouteOutcome::ReceiverGone,
        },
        None => RouteOutcome::UnknownSequence,
    }
}

fn table_cseq_value(resp: &Response, key: &String) -> (r: Option<u64>)
    requires
        resp.headers.wf(),
        key@ == "CSeq"@,
    ensures
        r == spec_cseq_of(*resp),
{
    match resp.headers.get(key) {
        Some(v) => parse_u64_str(v.as_str()),
        None => None,
    }
}

} // verus!
