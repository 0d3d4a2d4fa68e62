//! The boot specification payload.
//!
//! A bootspec is an externally versioned, structured description of
//! how to boot a generation (kernel, initrd, kernel command line, init
//! path, plus forward-compatible extension fields). This core treats
//! it as an opaque structured value: it deserialises the payload,
//! duplicates it whole on specialisation, and re-emits it unchanged.
//! It never edits individual fields, so extension fields it does not
//! know survive a load → specialise → re-emit round trip.

use vstd::prelude::*;

verus! {

#[verifier::external_type_specification]
#[verifier::external_body]
pub struct ExValue(serde_json::Value);

#[verifier::external_type_specification]
#[verifier::external_body]
pub struct ExJsonError(serde_json::Error);

/// The value that `bytes` denote as a JSON document, when they form
/// one. Parsing is a function of the bytes alone.
pub uninterp spec fn json_value_of(bytes: Seq<u8>) -> Option<serde_json::Value>;

/// Relies on `serde_json::from_slice::<serde_json::Value>`: whether
/// the bytes are accepted, and which value they denote, depends on the
/// bytes alone.
#[verifier::external_body]
fn parse_json(bytes: &[u8]) -> (r: Result<serde_json::Value, serde_json::Error>)
    ensures
        r is Ok <==> json_value_of(bytes@) is Some,
        r is Ok ==> r->Ok_0 == json_value_of(bytes@)->0,
{
    serde_json::from_slice(bytes)
}

/// Relies on `serde_json::Error`'s `Display` implementation for the
/// parse diagnostics text (position and cause).
#[verifier::external_body]
fn json_error_text(e: &serde_json::Error) -> String {
    e.to_string()
}

/// Relies on `<serde_json::Value as Clone>::clone`: the duplicate
/// equals the original and is independently owned.
#[verifier::external_body]
fn clone_json_value(v: &serde_json::Value) -> (r: serde_json::Value)
    ensures
        r == *v,
{
    v.clone()
}

/// A boot specification payload, conforming to the external
/// "boot specification v1" schema. Opaque to this core: nothing here
/// inspects it beyond deserialising and duplicating it whole.
#[derive(Debug)]
pub struct Bootspec {
    /// The deserialised payload.
    pub value: serde_json::Value,
}

impl Bootspec {
    /// Deserialise a bootspec payload from raw bytes. Succeeds exactly
    /// when the bytes form a JSON document, and then carries the value
    /// they denote; fails with the parse diagnostics otherwise.
    pub fn from_bytes(bytes: &[u8]) -> (r: Result<Bootspec, String>)
        ensures
            r is Ok <==> json_value_of(bytes@) is Some,
            r is Ok ==> r->Ok_0.value == json_value_of(bytes@)->0,
    {
        match parse_json(bytes) {
            Ok(value) => Ok(Bootspec { value }),
            Err(e) => Err(json_error_text(&e)),
        }
    }

    /// An owned duplicate of this bootspec, equal to the original.
    /// Neither handle can affect the other afterwards.
    pub fn duplicate(&self) -> (r: Bootspec)
        ensures
            r.value == self.value,
    {
        Bootspec { value: clone_json_value(&self.value) }
    }
}

} // verus!
