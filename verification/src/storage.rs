//! The mapping from MySQL column types to SQLite storage classes.
//!
//! The mapping is coarse on purpose: it looks only at how the type's name
//! begins, and whatever it does not recognise is stored as `BLOB`.

use crate::scan;
use crate::text;
use vstd::prelude::*;

verus! {

/// The storage classes that a created table uses.
#[derive(Clone, Copy, Debug, PartialEq, Eq, Structural)]
pub enum StorageClass {
    Integer,
    Text,
    Blob,
}

/// The storage class of a column of MySQL type `column_type`:
/// `INTEGER` for a name that begins with `int`, `TEXT` for `varchar` and
/// `text`, and for `json` where `json_as_text` is set, `BLOB` for all others.
/// Case does not matter.
pub open spec fn storage_class_of(column_type: Seq<char>, json_as_text: bool) -> StorageClass {
    let l = text::lower(column_type);
    if text::starts_with(l, "int"@) {
        StorageClass::Integer
    } else if text::starts_with(l, "varchar"@) || text::starts_with(l, "text"@) {
        StorageClass::Text
    } else if text::starts_with(l, "json"@) && json_as_text {
        StorageClass::Text
    } else {
        StorageClass::Blob
    }
}

/// The name of a storage class as SQL writes it.
pub open spec fn keyword_of(class: StorageClass) -> Seq<char> {
    match class {
        StorageClass::Integer => "INTEGER"@,
        StorageClass::Text => "TEXT"@,
        StorageClass::Blob => "BLOB"@,
    }
}

impl StorageClass {
    /// The name of the storage class as SQL writes it.
    pub fn keyword(&self) -> (s: &'static str)
        ensures
            s@ == keyword_of(*self),
    {
        match self {
            StorageClass::Integer => "INTEGER",
            StorageClass::Text => "TEXT",
            StorageClass::Blob => "BLOB",
        }
    }
}

/// Maps a MySQL column type to its storage class. Every name has exactly one.
pub fn map_type(column_type: &str, json_as_text: bool) -> (class: StorageClass)
    ensures
        class == storage_class_of(column_type@, json_as_text),
{
    let l = scan::lower(&scan::chars_of(column_type));
    if scan::starts_with_str(&l, "int") {
        StorageClass::Integer
    } else if scan::starts_with_str(&l, "varchar") || scan::starts_with_str(&l, "text") {
        StorageClass::Text
    } else if scan::starts_with_str(&l, "json") && json_as_text {
        StorageClass::Text
    } else {
        StorageClass::Blob
    }
}

/// Only the flag decides where a `json` column goes, and it decides nothing
/// else: a type whose name does not begin with `json` has the same storage
/// class whether the flag is set or not.
pub proof fn lemma_flag_matters_for_json_only(column_type: Seq<char>)
    requires
        !text::starts_with(text::lower(column_type), "json"@),
    ensures
        storage_class_of(column_type, true) == storage_class_of(column_type, false),
{
}

} // verus!
