//! Copying tables from a live source: which tables are copied, and the SQL
//! that creates, reads and fills each of them.
//!
//! A table is created with `IF NOT EXISTS` and rows are only ever added, so a
//! second run against the same destination adds every row again unless the
//! destination's own constraints refuse it.

use crate::scan;
use crate::scan::string_texts;
use crate::storage;
use crate::storage::keyword_of;
use crate::storage::storage_class_of;
use vstd::prelude::*;

verus! {

/// The tables to copy: `allow`, where it names any table, admits only the
/// tables it names; `deny` then refuses those it names.
#[derive(Clone, Debug, PartialEq, Eq)]
pub struct TableFilter {
    pub allow: Vec<String>,
    pub deny: Vec<String>,
}

/// A column of a source table: its name and its MySQL type.
#[derive(Clone, Debug, PartialEq, Eq)]
pub struct ColumnDescriptor {
    pub name: String,
    pub source_type: String,
}

/// What a `ColumnDescriptor` stands for.
pub struct ColumnModel {
    pub name: Seq<char>,
    pub source_type: Seq<char>,
}

impl View for ColumnDescriptor {
    type V = ColumnModel;

    open spec fn view(&self) -> ColumnModel {
        ColumnModel { name: self.name@, source_type: self.source_type@ }
    }
}

/// What the columns of a table stand for.
pub open spec fn column_models(columns: Seq<ColumnDescriptor>) -> Seq<ColumnModel> {
    Seq::new(columns.len(), |i: int| columns[i]@)
}

/// The table is copied: it is named in `allow` or `allow` is empty, and it
/// is not named in `deny`.
pub open spec fn admits(allow: Seq<Seq<char>>, deny: Seq<Seq<char>>, table: Seq<char>) -> bool {
    (allow.len() == 0 || allow.contains(table)) && !deny.contains(table)
}

/// The tables that are copied, in the order in which they were listed.
pub open spec fn admitted(
    allow: Seq<Seq<char>>,
    deny: Seq<Seq<char>>,
    tables: Seq<Seq<char>>,
) -> Seq<Seq<char>>
    decreases tables.len(),
{
    if tables.len() == 0 {
        Seq::empty()
    } else if admits(allow, deny, tables.last()) {
        admitted(allow, deny, tables.drop_last()).push(tables.last())
    } else {
        admitted(allow, deny, tables.drop_last())
    }
}

/// A name between backticks.
pub open spec fn quoted(name: Seq<char>) -> Seq<char> {
    seq!['`'] + name + seq!['`']
}

/// The statement that asks the source for a table's columns.
pub open spec fn describe_text(table: Seq<char>) -> Seq<char> {
    "DESCRIBE "@ + quoted(table)
}

/// The statement that reads every row of a table from the source.
pub open spec fn select_text(table: Seq<char>) -> Seq<char> {
    "SELECT * FROM "@ + quoted(table)
}

/// A column as the destination declares it: its quoted name and its storage
/// class.
pub open spec fn column_definition(column: ColumnModel, json_as_text: bool) -> Seq<char> {
    quoted(column.name) + seq![' '] + keyword_of(storage_class_of(column.source_type, json_as_text))
}

/// The declarations of the columns, separated by a comma and a space.
pub open spec fn column_definitions(columns: Seq<ColumnModel>, json_as_text: bool) -> Seq<char>
    decreases columns.len(),
{
    if columns.len() == 0 {
        Seq::empty()
    } else if columns.len() == 1 {
        column_definition(columns[0], json_as_text)
    } else {
        column_definitions(columns.drop_last(), json_as_text) + ", "@ + column_definition(
            columns.last(),
            json_as_text,
        )
    }
}

/// The statement that creates a table in the destination.
pub open spec fn create_table_text(
    table: Seq<char>,
    columns: Seq<ColumnModel>,
    json_as_text: bool,
) -> Seq<char> {
    "CREATE TABLE IF NOT EXISTS "@ + quoted(table) + " ("@ + column_definitions(
        columns,
        json_as_text,
    ) + ")"@
}

/// The quoted names of the columns, separated by commas.
pub open spec fn column_names(columns: Seq<ColumnModel>) -> Seq<char>
    decreases columns.len(),
{
    if columns.len() == 0 {
        Seq::empty()
    } else if columns.len() == 1 {
        quoted(columns[0].name)
    } else {
        column_names(columns.drop_last()) + seq![','] + quoted(columns.last().name)
    }
}

/// `count` placeholders, separated by commas.
pub open spec fn placeholders(count: nat) -> Seq<char>
    decreases count,
{
    if count == 0 {
        Seq::empty()
    } else if count == 1 {
        seq!['?']
    } else {
        placeholders((count - 1) as nat) + seq![',', '?']
    }
}

/// The parameterised statement that adds one row to a table of the
/// destination, with one placeholder for each column, in column order.
pub open spec fn insert_text(table: Seq<char>, columns: Seq<ColumnModel>) -> Seq<char> {
    "INSERT INTO "@ + quoted(table) + " ("@ + column_names(columns) + ") VALUES ("@ + placeholders(
        columns.len(),
    ) + ")"@
}

/// Whether `names` holds `name`.
fn holds(names: &Vec<String>, name: &str) -> (b: bool)
    ensures
        b == string_texts(names@).contains(name@),
{
    let wanted = name.to_owned();
    let mut i: usize = 0;
    while i < names.len()
        invariant
            i <= names.len(),
            wanted@ == name@,
            forall|j: int| 0 <= j < i ==> string_texts(names@)[j] != name@,
        decreases names.len() - i,
    {
        if names[i] == wanted {
            assert(string_texts(names@)[i as int] == name@);
            return true;
        }
        i += 1;
    }
    false
}

/// Whether a table of the source is left out.
pub fn should_skip_table(filter: &TableFilter, table: &str) -> (skip: bool)
    ensures
        skip == !admits(string_texts(filter.allow@), string_texts(filter.deny@), table@),
{
    if filter.allow.len() > 0 && !holds(&filter.allow, table) {
        return true;
    }
    holds(&filter.deny, table)
}

/// The tables to copy, of those that the source lists, in the order of the
/// listing.
pub fn tables_to_copy(filter: &TableFilter, tables: &Vec<String>) -> (out: Vec<String>)
    ensures
        string_texts(out@) == admitted(
            string_texts(filter.allow@),
            string_texts(filter.deny@),
            string_texts(tables@),
        ),
{
    let mut out: Vec<String> = Vec::new();
    let mut i: usize = 0;
    while i < tables.len()
        invariant
            i <= tables.len(),
            string_texts(out@) == admitted(
                string_texts(filter.allow@),
                string_texts(filter.deny@),
                string_texts(tables@).take(i as int),
            ),
        decreases tables.len() - i,
    {
        assert(string_texts(tables@).take(i + 1).drop_last() == string_texts(tables@).take(
            i as int,
        ));
        if !should_skip_table(filter, tables[i].as_str()) {
            out.push(tables[i].clone());
        }
        i += 1;
    }
    assert(string_texts(tables@).take(tables.len() as int) == string_texts(tables@));
    out
}

/// Appends the text of `piece`.
fn push_text(sql: &mut Vec<char>, piece: &str)
    ensures
        final(sql)@ == old(sql)@ + piece@,
{
    scan::append(sql, &scan::chars_of(piece));
}

/// Appends `name` between backticks.
fn push_quoted(sql: &mut Vec<char>, name: &str)
    ensures
        final(sql)@ == old(sql)@ + quoted(name@),
{
    sql.push('`');
    push_text(sql, name);
    sql.push('`');
}

/// The statement that asks the source for the columns of `table`.
pub fn describe_sql(table: &str) -> (sql: String)
    ensures
        sql@ == describe_text(table@),
{
    let mut sql = scan::chars_of("DESCRIBE ");
    push_quoted(&mut sql, table);
    scan::string_of(&sql)
}

/// The statement that reads every row of `table` from the source.
pub fn select_sql(table: &str) -> (sql: String)
    ensures
        sql@ == select_text(table@),
{
    let mut sql = scan::chars_of("SELECT * FROM ");
    push_quoted(&mut sql, table);
    scan::string_of(&sql)
}

/// The statement that creates `table` in the destination, with one column for
/// each column of the source, in order, each with the storage class of its
/// type.
pub fn create_table_sql(table: &str, columns: &Vec<ColumnDescriptor>, json_as_text: bool) -> (sql:
    String)
    ensures
        sql@ == create_table_text(table@, column_models(columns@), json_as_text),
{
    let mut list: Vec<char> = Vec::new();
    let mut i: usize = 0;
    while i < columns.len()
        invariant
            i <= columns.len(),
            list@ == column_definitions(column_models(columns@).take(i as int), json_as_text),
        decreases columns.len() - i,
    {
        let ghost upto = column_models(columns@).take(i + 1);
        assert(upto.drop_last() == column_models(columns@).take(i as int));
        if i > 0 {
            push_text(&mut list, ", ");
        }
        push_quoted(&mut list, columns[i].name.as_str());
        list.push(' ');
        let class = storage::map_type(columns[i].source_type.as_str(), json_as_text);
        push_text(&mut list, class.keyword());
        i += 1;
    }
    assert(column_models(columns@).take(columns.len() as int) == column_models(columns@));
    let mut sql = scan::chars_of("CREATE TABLE IF NOT EXISTS ");
    push_quoted(&mut sql, table);
    push_text(&mut sql, " (");
    scan::append(&mut sql, &list);
    push_text(&mut sql, ")");
    scan::string_of(&sql)
}

/// The parameterised statement that adds one row to `table`, naming every
/// column in order and holding one placeholder for each.
pub fn insert_sql(table: &str, columns: &Vec<ColumnDescriptor>) -> (sql: String)
    ensures
        sql@ == insert_text(table@, column_models(columns@)),
{
    let mut names: Vec<char> = Vec::new();
    let mut marks: Vec<char> = Vec::new();
    let mut i: usize = 0;
    while i < columns.len()
        invariant
            i <= columns.len(),
            names@ == column_names(column_models(columns@).take(i as int)),
            marks@ == placeholders(i as nat),
        decreases columns.len() - i,
    {
        let ghost upto = column_models(columns@).take(i + 1);
        assert(upto.drop_last() == column_models(columns@).take(i as int));
        if i > 0 {
            names.push(',');
            marks.push(',');
        }
        push_quoted(&mut names, columns[i].name.as_str());
        marks.push('?');
        i += 1;
    }
    assert(column_models(columns@).take(columns.len() as int) == column_models(columns@));
    let mut sql = scan::chars_of("INSERT INTO ");
    push_quoted(&mut sql, table);
    push_text(&mut sql, " (");
    scan::append(&mut sql, &names);
    push_text(&mut sql, ") VALUES (");
    scan::append(&mut sql, &marks);
    push_text(&mut sql, ")");
    scan::string_of(&sql)
}

/// The filter decides each table on its own: a table is copied exactly when
/// `allow` is empty or names it, and `deny` does not name it. A table that
/// both name is left out.
pub proof fn lemma_filter_decides(
    allow: Seq<Seq<char>>,
    deny: Seq<Seq<char>>,
    tables: Seq<Seq<char>>,
    table: Seq<char>,
)
    ensures
        admitted(allow, deny, tables).contains(table) <==> tables.contains(table) && admits(
            allow,
            deny,
            table,
        ),
        deny.contains(table) ==> !admits(allow, deny, table),
    decreases tables.len(),
{
    if tables.len() > 0 {
        let init = tables.drop_last();
        lemma_filter_decides(allow, deny, init, table);
        let kept = admitted(allow, deny, init);
        assert(tables.contains(table) <==> init.contains(table) || tables.last() == table) by {
            if tables.contains(table) {
                let i = choose|i: int| 0 <= i < tables.len() && tables[i] == table;
                if i < tables.len() - 1 {
                    assert(init[i] == table);
                }
            }
            if init.contains(table) {
                let i = choose|i: int| 0 <= i < init.len() && init[i] == table;
                assert(tables[i] == table);
            }
            if tables.last() == table {
                assert(tables[tables.len() - 1] == table);
            }
        }
        if admits(allow, deny, tables.last()) {
            let all = kept.push(tables.last());
            assert(all.contains(table) <==> kept.contains(table) || tables.last() == table) by {
                if all.contains(table) {
                    let i = choose|i: int| 0 <= i < all.len() && all[i] == table;
                    if i < kept.len() {
                        assert(kept[i] == table);
                    }
                }
                if kept.contains(table) {
                    let i = choose|i: int| 0 <= i < kept.len() && kept[i] == table;
                    assert(all[i] == table);
                }
                if tables.last() == table {
                    assert(all[kept.len() as int] == table);
                }
            }
        }
    }
}

} // verus!
