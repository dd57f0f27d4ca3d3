//! The outside types and calls of the `bson` crate that the builders use.
use vstd::prelude::*;

use crate::entries::{entries_get, entries_insert, Entries};

verus! {

/// Declares `bson::Bson`; its values are carried through, never read.
#[verifier::external_type_specification]
#[verifier::external_body]
pub struct ExBson(bson::Bson);

/// Declares `bson::Document`; its contents are `document_entries`.
#[verifier::external_type_specification]
#[verifier::external_body]
pub struct ExDocument(bson::Document);

/// What `bson::Bson::from(value)` gives for a 32-bit integer: the value
/// `Bson::Int32(value)`.
pub uninterp spec fn int32_bson(value: i32) -> bson::Bson;

/// The key-value pairs of a document, in the document's order.
pub uninterp spec fn document_entries(doc: bson::Document) -> Entries;

/// Calls `<bson::Bson as From<i32>>::from`, whose whole body builds the
/// variant `Bson::Int32(value)`; the contract names that value
/// `int32_bson(value)`.
#[verifier::external_body]
pub(crate) fn bson_from_i32(value: i32) -> (b: bson::Bson)
    ensures
        b == int32_bson(value),
{
    bson::Bson::from(value)
}

/// Calls `<bson::Bson as Clone>::clone`, which is derived and so copies
/// every field of the value.
#[verifier::external_body]
pub(crate) fn bson_clone(b: &bson::Bson) -> (c: bson::Bson)
    ensures
        c == *b,
{
    b.clone()
}

/// Calls `bson::Document::new`, which makes a document with no entries.
#[verifier::external_body]
pub(crate) fn document_new() -> (doc: bson::Document)
    ensures
        document_entries(doc) == Seq::<(Seq<char>, bson::Bson)>::empty(),
{
    bson::Document::new()
}

/// Calls `bson::Document::insert`, which inserts into the document's
/// `IndexMap`: a key that is already present keeps its place and gets the new
/// value, and the old value is returned; a new key goes last and `None` is
/// returned.
#[verifier::external_body]
pub(crate) fn document_insert(doc: &mut bson::Document, key: String, value: bson::Bson) -> (previous: Option<bson::Bson>)
    ensures
        document_entries(*final(doc)) == entries_insert(document_entries(*old(doc)), key@, value),
        previous == entries_get(document_entries(*old(doc)), key@),
{
    doc.insert(key, value)
}

} // verus!
