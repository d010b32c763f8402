//! External references: the audit-event decisions of adding and removing a
//! reference, and the fingerprint an event carries instead of the value.
use vstd::prelude::*;
use crate::digest::{sha256_hex, sha256_hex_of};
use crate::redaction::utf8;

verus! {

broadcast use vstd::string::group_string_axioms;

/// The non-reversible fingerprint of a reference value that an audit event
/// records in its place: the lowercase hexadecimal SHA-256 of its bytes.
pub fn value_fingerprint(value: &str) -> (r: String)
    ensures
        r@ == sha256_hex(utf8(value@)),
        r@.len() == 64,
{
    sha256_hex_of(value.as_bytes())
}

/// Whether an add commits a semantic change, and so appends an event: a
/// new pair, or a value that differs from the stored one.
pub fn add_appends_event(prior_value: Option<&str>, value: &str) -> (r: bool)
    ensures
        r == !(prior_value matches Some(p) && p@ == value@),
{
    match prior_value {
        Some(p) => !crate::text::str_eq(p, value),
        None => true,
    }
}

/// Whether a remove commits a semantic change, and so appends an event: it
/// deleted a row.
pub fn remove_appends_event(removed_rows: usize) -> (r: bool)
    ensures
        r == (removed_rows > 0),
{
    removed_rows > 0
}

} // verus!
