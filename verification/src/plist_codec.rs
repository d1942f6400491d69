//! The external binary structured-value codec, held behind trusted
//! declarations: the client frames and routes such bodies but never looks
//! inside them.

use vstd::prelude::*;

verus! {

#[verifier::external_type_specification]
#[verifier::external_body]
pub struct ExPlistValue(plist::Value);

/// Relies on `plist::Value::to_writer_binary`: writing into a fresh buffer
/// either yields the value's binary encoding or reports the codec's error.
#[verifier::external_body]
pub fn plist_to_bytes(v: &plist::Value) -> (r: Option<Vec<u8>>) {
    let mut out: Vec<u8> = Vec::new();
    match v.to_writer_binary(&mut out) {
        Ok(()) => Some(out),
        Err(_) => None,
    }
}

/// Whether the codec decodes these bytes as a property list (in any of
/// the encodings it understands).  What it accepts is a function of the
/// bytes alone.
pub uninterp spec fn plist_decodes(bytes: Seq<u8>) -> bool;

/// Relies on `plist::from_bytes`: decodes a structured value out of bytes
/// holding a property list in any of the codec's encodings, succeeding
/// exactly on input the codec accepts.
#[verifier::external_body]
pub fn plist_from_bytes(bytes: &[u8]) -> (r: Option<plist::Value>)
    ensures
        r is Some <==> plist_decodes(bytes@),
{
    match plist::from_bytes::<plist::Value>(bytes) {
        Ok(v) => Some(v),
        Err(_) => None,
    }
}

} // verus!
