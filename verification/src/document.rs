//! Documents, as far as the scenarios read them.
//!
//! A document is a `bson::Document`, and only `bson` knows what is in one.
//! What the scenarios need to know is given a name here, and the functions
//! that ask `bson` say in their contracts which name their answer is.

use vstd::prelude::*;
use bson::Document;

verus! {

#[verifier::external_type_specification]
#[verifier::external_body]
pub struct ExDocument(bson::Document);

/// The keys of a document, in the order of its entries.
pub uninterp spec fn document_keys(d: Document) -> Seq<Seq<char>>;

/// The entries of a document whose value is a boolean.
pub uninterp spec fn document_flags(d: Document) -> Map<Seq<char>, bool>;

/// The entries of a document whose value is a 32-bit integer.
pub uninterp spec fn document_numbers(d: Document) -> Map<Seq<char>, i32>;

/// The keys of the document that is the value of `key` in `d`, if the value
/// of `key` is a document.
pub uninterp spec fn document_child_keys(d: Document, key: Seq<char>) -> Option<Seq<Seq<char>>>;

/// The flag that `d` holds under `key`, if it holds one.
pub open spec fn flag_at(d: Document, key: Seq<char>) -> Option<bool> {
    if document_flags(d).dom().contains(key) {
        Some(document_flags(d)[key])
    } else {
        None
    }
}

/// The number that `d` holds under `key`, if it holds one.
pub open spec fn number_at(d: Document, key: Seq<char>) -> Option<i32> {
    if document_numbers(d).dom().contains(key) {
        Some(document_numbers(d)[key])
    } else {
        None
    }
}

/// Whether the document has an entry under `key`.
///
/// Calls `bson::Document::contains_key`, which looks the key up in the map
/// the document is made of. The contract names the set of keys of that map.
#[verifier::external_body]
pub(crate) fn contains_key(d: &Document, key: &str) -> (r: bool)
    ensures
        r == document_keys(*d).contains(key@),
{
    d.contains_key(key)
}

/// The number of entries of the document.
///
/// Calls `bson::Document::len`, the number of entries of the map the document
/// is made of. The contract says that this is the number of its keys.
#[verifier::external_body]
pub(crate) fn entry_count(d: &Document) -> (r: usize)
    ensures
        r == document_keys(*d).len(),
{
    d.len()
}

/// The boolean under `key`, or `None` if there is no entry under `key` or
/// its value is not a boolean.
///
/// Calls `bson::Document::get_bool`, which answers `Ok` exactly for a value
/// `Bson::Boolean`, and drops the reason of an `Err`. The contract names the
/// boolean entries, and says that an entry that is found has its key among
/// the keys.
#[verifier::external_body]
pub(crate) fn get_bool(d: &Document, key: &str) -> (r: Option<bool>)
    ensures
        r == if document_flags(*d).dom().contains(key@) {
            Some(document_flags(*d)[key@])
        } else {
            None
        },
        r is Some ==> document_keys(*d).contains(key@),
{
    d.get_bool(key).ok()
}

/// The 32-bit integer under `key`, or `None` if there is no entry under `key`
/// or its value is not a 32-bit integer.
///
/// Calls `bson::Document::get_i32`, which answers `Ok` exactly for a value
/// `Bson::Int32`, and drops the reason of an `Err`. The contract names the
/// 32-bit entries, and says that an entry that is found has its key among the
/// keys.
#[verifier::external_body]
pub(crate) fn get_i32(d: &Document, key: &str) -> (r: Option<i32>)
    ensures
        r == if document_numbers(*d).dom().contains(key@) {
            Some(document_numbers(*d)[key@])
        } else {
            None
        },
        r is Some ==> document_keys(*d).contains(key@),
{
    d.get_i32(key).ok()
}

/// The document under `key`, or `None` if there is no entry under `key` or
/// its value is not a document.
///
/// Calls `bson::Document::get_document`, which answers `Ok` exactly for a
/// value `Bson::Document`, and drops the reason of an `Err`. The contract
/// names the keys of the document that is found, and says that its key is
/// among the keys.
#[verifier::external_body]
pub(crate) fn get_document<'a>(d: &'a Document, key: &str) -> (r: Option<&'a Document>)
    ensures
        match r {
            Some(child) => document_child_keys(*d, key@) == Some(document_keys(*child)),
            None => document_child_keys(*d, key@) is None,
        },
        r is Some ==> document_keys(*d).contains(key@),
{
    d.get_document(key).ok()
}

} // verus!
