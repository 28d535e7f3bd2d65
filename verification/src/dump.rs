//! What becomes of each statement of a dump, and of a dump as a whole.
//!
//! A statement that the reassembler hands out is translated if it creates a
//! table, left out if it alters a table in a way that SQLite cannot follow,
//! and passed through unchanged otherwise. Statements are taken one at a time
//! and in the order of the dump.

use crate::alter;
use crate::reassembler;
use crate::scan;
use crate::scan::string_texts;
use crate::schema;
use crate::text;
use vstd::prelude::*;

verus! {

/// What to do with a statement of the dump.
#[derive(Clone, Debug, PartialEq, Eq)]
pub enum StatementAction {
    /// Execute this SQL against the destination.
    Execute(String),
    /// Leave this statement out: the destination cannot express it.
    Skip(String),
}

/// The statement as it is executed: translated where it begins with `CREATE
/// TABLE`, unchanged otherwise.
pub open spec fn prepared(statement: Seq<char>) -> Seq<char> {
    if text::starts_with(statement, "CREATE TABLE"@) {
        schema::translated(statement)
    } else {
        statement
    }
}

/// The statement is left out: it begins with `ALTER TABLE` and adds a key, a
/// unique constraint or an index.
pub open spec fn is_skipped(statement: Seq<char>) -> bool {
    text::starts_with(statement, "ALTER TABLE"@) && alter::adds_key(statement)
}

/// The SQL to execute for the given statements: each one prepared, without
/// those that are left out, in order.
pub open spec fn executable(statements: Seq<Seq<char>>) -> Seq<Seq<char>>
    decreases statements.len(),
{
    if statements.len() == 0 {
        Seq::empty()
    } else if is_skipped(statements.last()) {
        executable(statements.drop_last())
    } else {
        executable(statements.drop_last()).push(prepared(statements.last()))
    }
}

/// The SQL to execute for a dump, given as its lines.
pub open spec fn dump_sql(lines: Seq<Seq<char>>) -> Seq<Seq<char>> {
    executable(reassembler::statements(lines))
}

/// Decides what to do with one complete statement of a dump.
pub fn route_statement(statement: &str) -> (action: StatementAction)
    ensures
        match action {
            StatementAction::Execute(sql) => !is_skipped(statement@) && sql@ == prepared(
                statement@,
            ),
            StatementAction::Skip(sql) => is_skipped(statement@) && sql@ == statement@,
        },
{
    let chars = scan::chars_of(statement);
    if scan::starts_with_str(&chars, "CREATE TABLE") {
        proof {
            lemma_create_is_not_alter(statement@);
        }
        StatementAction::Execute(schema::translate_create_table(statement))
    } else if scan::starts_with_str(&chars, "ALTER TABLE") && alter::alter_adds_key(statement) {
        StatementAction::Skip(statement.to_owned())
    } else {
        StatementAction::Execute(statement.to_owned())
    }
}

/// The SQL to execute for a dump, given as its lines without their
/// terminators: the dump's statements, each translated as its kind demands,
/// in the order of the dump.
pub fn convert_dump(lines: &Vec<String>) -> (out: Vec<String>)
    ensures
        string_texts(out@) == dump_sql(string_texts(lines@)),
{
    let statements = reassembler::reassemble(lines);
    let mut out: Vec<String> = Vec::new();
    let mut i: usize = 0;
    while i < statements.len()
        invariant
            i <= statements.len(),
            string_texts(out@) == executable(string_texts(statements@).take(i as int)),
        decreases statements.len() - i,
    {
        assert(string_texts(statements@).take(i + 1).drop_last() == string_texts(statements@).take(
            i as int,
        ));
        match route_statement(statements[i].as_str()) {
            StatementAction::Execute(sql) => {
                out.push(sql);
            },
            StatementAction::Skip(_) => {},
        }
        i += 1;
    }
    assert(string_texts(statements@).take(statements.len() as int) == string_texts(statements@));
    out
}

/// A text that begins with `CREATE TABLE` does not begin with `ALTER TABLE`.
proof fn lemma_create_is_not_alter(statement: Seq<char>)
    requires
        text::starts_with(statement, "CREATE TABLE"@),
    ensures
        !text::starts_with(statement, "ALTER TABLE"@),
{
    reveal_strlit("CREATE TABLE");
    reveal_strlit("ALTER TABLE");
    assert(statement.subrange(0, 12)[0] == statement[0]);
}

/// A statement that SQLite cannot follow is never executed: nothing in the
/// SQL to execute is an `ALTER TABLE` that adds a key, a unique constraint or
/// an index.
pub proof fn lemma_unsupported_alter_is_never_executed(statements: Seq<Seq<char>>)
    ensures
        forall|i: int|
            0 <= i < executable(statements).len() ==> !is_skipped(
                #[trigger] executable(statements)[i],
            ),
    decreases statements.len(),
{
    if statements.len() > 0 {
        let last = statements.last();
        lemma_unsupported_alter_is_never_executed(statements.drop_last());
        if text::starts_with(last, "CREATE TABLE"@) {
            schema::lemma_translation_begins_with_create_table(last);
            lemma_create_is_not_alter(schema::translated(last));
        }
        let init = executable(statements.drop_last());
        assert forall|i: int| 0 <= i < executable(statements).len() implies !is_skipped(
            #[trigger] executable(statements)[i],
        ) by {
            if i < init.len() {
                assert(executable(statements)[i] == init[i]);
            }
        }
    }
}

} // verus!
