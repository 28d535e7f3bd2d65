//! The filter on `ALTER TABLE` statements. SQLite cannot add a key, a unique
//! constraint or an index to a table that exists, so a statement that asks for
//! one is left out. The statement is searched as text, in lower case.

use crate::scan;
use crate::text;
use vstd::prelude::*;

verus! {

/// The statement asks for what SQLite's `ALTER TABLE` cannot do: in lower case
/// it holds `add primary key`, `add unique`, `add key` or `add index`.
pub open spec fn adds_key(statement: Seq<char>) -> bool {
    let l = text::lower(statement);
    ||| text::contains(l, "add primary key"@)
    ||| text::contains(l, "add unique"@)
    ||| text::contains(l, "add key"@)
    ||| text::contains(l, "add index"@)
}

/// Whether an `ALTER TABLE` statement has to be discarded.
pub fn alter_adds_key(statement: &str) -> (b: bool)
    ensures
        b == adds_key(statement@),
{
    let l = scan::lower(&scan::chars_of(statement));
    scan::contains_str(&l, "add primary key")
        || scan::contains_str(&l, "add unique")
        || scan::contains_str(&l, "add key")
        || scan::contains_str(&l, "add index")
}

} // verus!
