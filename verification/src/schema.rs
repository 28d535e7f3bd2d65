//! Translation of a MySQL `CREATE TABLE` statement into SQLite's dialect.
//!
//! The statement is rewritten line by line, by looking for keywords in the
//! text; it is not parsed. The statement is expected in the layout of a dump,
//! one column or key declaration to a line.
//!
//! Known limits: a keyword inside a string literal or an identifier is
//! treated like any other, so a column whose name begins with `key` is taken
//! for a key declaration; a statement written on a single line is rewritten
//! as one column line; and the type of an `AUTO_INCREMENT` column is left as
//! it is, although SQLite takes `AUTOINCREMENT` only on a column declared
//! `INTEGER`.

use crate::scan;
use crate::scan::texts;
use crate::text;
use vstd::prelude::*;

verus! {

/// The statement cut after its last `)` and closed with `;`, which drops the
/// table options that follow the column list. Without a `)` it stays whole.
pub open spec fn without_table_options(statement: Seq<char>) -> Seq<char> {
    match text::rfind_char(statement, ')') {
        Some(i) => statement.take(i + 1) + seq![';'],
        None => statement,
    }
}

/// The line declares a key or a constraint: left-trimmed and upper-cased it
/// begins with `PRIMARY KEY`, `UNIQUE KEY`, `KEY` or `CONSTRAINT`.
pub open spec fn is_key_declaration(line: Seq<char>) -> bool {
    let u = text::upper(text::trim_start(line));
    ||| text::starts_with(u, "PRIMARY KEY"@)
    ||| text::starts_with(u, "UNIQUE KEY"@)
    ||| text::starts_with(u, "KEY"@)
    ||| text::starts_with(u, "CONSTRAINT"@)
}

/// The line ends with a comma, whitespace after it aside.
pub open spec fn has_trailing_comma(line: Seq<char>) -> bool {
    text::ends_with(text::trim_end(line), ","@)
}

/// The line, followed by a comma where `comma` holds.
pub open spec fn with_comma(line: Seq<char>, comma: bool) -> Seq<char> {
    if comma {
        line + seq![',']
    } else {
        line
    }
}

/// The line with `AUTO_INCREMENT` turned into SQLite's form. A line that does
/// not hold the token, in any case, is unchanged. Otherwise the token is
/// removed wherever it stands, and the column is made the auto-incrementing
/// primary key: ` PRIMARY KEY AUTOINCREMENT` is appended where the line does
/// not declare `PRIMARY KEY`, ` AUTOINCREMENT` where it declares that but not
/// `AUTOINCREMENT`, behind the definition and before the comma that the line
/// ended with.
pub open spec fn auto_increment_rewritten(line: Seq<char>) -> Seq<char> {
    let u = text::upper(line);
    if !text::contains(u, "AUTO_INCREMENT"@) {
        line
    } else {
        let stripped = text::remove_ignoring_case(line, "AUTO_INCREMENT"@);
        if !text::contains(u, "PRIMARY KEY"@) {
            with_comma(
                text::trim_end_matches(stripped, ',') + " PRIMARY KEY AUTOINCREMENT"@,
                has_trailing_comma(line),
            )
        } else if !text::contains(u, "AUTOINCREMENT"@) {
            with_comma(
                text::trim_end_matches(stripped, ',') + " AUTOINCREMENT"@,
                has_trailing_comma(line),
            )
        } else {
            stripped
        }
    }
}

/// The line without the token `UNSIGNED`, wherever it stands.
pub open spec fn unsigned_removed(line: Seq<char>) -> Seq<char> {
    text::replace_all(line, "UNSIGNED"@, Seq::empty())
}

/// The line cut at its first `COMMENT`, in any case, and followed by a comma
/// if it ended with one. A line without the token is unchanged.
pub open spec fn comment_removed(line: Seq<char>) -> Seq<char> {
    match text::find(text::upper(line), "COMMENT"@) {
        Some(i) => with_comma(line.take(i), has_trailing_comma(line)),
        None => line,
    }
}

/// A column line as SQLite takes it: `AUTO_INCREMENT` rewritten, then
/// `UNSIGNED` removed, then the `COMMENT` clause cut off.
pub open spec fn rewritten_line(line: Seq<char>) -> Seq<char> {
    comment_removed(unsigned_removed(auto_increment_rewritten(line)))
}

/// The lines without the key declarations, each of the others rewritten.
pub open spec fn rewritten_lines(lines: Seq<Seq<char>>) -> Seq<Seq<char>>
    decreases lines.len(),
{
    if lines.len() == 0 {
        Seq::empty()
    } else if is_key_declaration(lines.last()) {
        rewritten_lines(lines.drop_last())
    } else {
        rewritten_lines(lines.drop_last()).push(rewritten_line(lines.last()))
    }
}

/// The statement without a comma that dangles on the line before the closing
/// `)`.
pub open spec fn without_dangling_comma(statement: Seq<char>) -> Seq<char> {
    text::replace_all(text::replace_all(statement, ",\n)"@, "\n)"@), ",\n);"@, "\n);"@)
}

/// The `CREATE TABLE` statement as SQLite takes it.
pub open spec fn translated(statement: Seq<char>) -> Seq<char> {
    without_dangling_comma(
        text::join_lines(rewritten_lines(text::split_lines(without_table_options(statement)))),
    )
}

/// The statement without its table options.
pub fn strip_table_options(statement: &Vec<char>) -> (r: Vec<char>)
    ensures
        r@ == without_table_options(statement@),
{
    match scan::rfind_char(statement, ')') {
        Some(i) => {
            let mut r = scan::slice(statement, 0, i + 1);
            r.push(';');
            r
        },
        None => statement.clone(),
    }
}

/// Whether the line declares a key or a constraint.
pub fn is_key_declaration_line(line: &Vec<char>) -> (b: bool)
    ensures
        b == is_key_declaration(line@),
{
    let u = scan::upper(&scan::trim_start(line));
    scan::starts_with_str(&u, "PRIMARY KEY")
        || scan::starts_with_str(&u, "UNIQUE KEY")
        || scan::starts_with_str(&u, "KEY")
        || scan::starts_with_str(&u, "CONSTRAINT")
}

/// Whether the line ends with a comma, whitespace after it aside.
pub fn ends_with_comma(line: &Vec<char>) -> (b: bool)
    ensures
        b == has_trailing_comma(line@),
{
    scan::ends_with(&scan::trim_end(line), &scan::chars_of(","))
}

/// Appends `tail` to `line`, and a comma where `comma` holds.
fn close_line(line: Vec<char>, tail: &str, comma: bool) -> (r: Vec<char>)
    ensures
        r@ == with_comma(line@ + tail@, comma),
{
    let mut r = line;
    scan::append(&mut r, &scan::chars_of(tail));
    if comma {
        r.push(',');
    }
    r
}

/// The line with `AUTO_INCREMENT` turned into SQLite's form.
pub fn rewrite_auto_increment(line: &Vec<char>) -> (r: Vec<char>)
    ensures
        r@ == auto_increment_rewritten(line@),
{
    let u = scan::upper(line);
    if !scan::contains_str(&u, "AUTO_INCREMENT") {
        return line.clone();
    }
    let comma = ends_with_comma(line);
    let stripped = scan::remove_ignoring_case(line, &scan::chars_of("AUTO_INCREMENT"));
    if !scan::contains_str(&u, "PRIMARY KEY") {
        close_line(scan::trim_end_matches(&stripped, ','), " PRIMARY KEY AUTOINCREMENT", comma)
    } else if !scan::contains_str(&u, "AUTOINCREMENT") {
        close_line(scan::trim_end_matches(&stripped, ','), " AUTOINCREMENT", comma)
    } else {
        stripped
    }
}

/// The line without the token `UNSIGNED`.
pub fn remove_unsigned(line: &Vec<char>) -> (r: Vec<char>)
    ensures
        r@ == unsigned_removed(line@),
{
    let nothing: Vec<char> = Vec::new();
    scan::replace_all(line, &scan::chars_of("UNSIGNED"), &nothing)
}

/// The line without its `COMMENT` clause.
pub fn remove_comment(line: &Vec<char>) -> (r: Vec<char>)
    ensures
        r@ == comment_removed(line@),
{
    let u = scan::upper(line);
    match scan::find(&u, &scan::chars_of("COMMENT")) {
        Some(i) => {
            let comma = ends_with_comma(line);
            let mut r = scan::slice(line, 0, i);
            if comma {
                r.push(',');
            }
            r
        },
        None => line.clone(),
    }
}

/// A column line as SQLite takes it.
pub fn rewrite_line(line: &Vec<char>) -> (r: Vec<char>)
    ensures
        r@ == rewritten_line(line@),
{
    remove_comment(&remove_unsigned(&rewrite_auto_increment(line)))
}

/// The lines without the key declarations, each of the others rewritten.
pub fn rewrite_lines(lines: &Vec<Vec<char>>) -> (r: Vec<Vec<char>>)
    ensures
        texts(r@) == rewritten_lines(texts(lines@)),
{
    let mut r: Vec<Vec<char>> = Vec::new();
    let mut i: usize = 0;
    while i < lines.len()
        invariant
            i <= lines.len(),
            texts(r@) == rewritten_lines(texts(lines@).take(i as int)),
        decreases lines.len() - i,
    {
        assert(texts(lines@).take(i + 1).drop_last() == texts(lines@).take(i as int));
        if !is_key_declaration_line(&lines[i]) {
            r.push(rewrite_line(&lines[i]));
        }
        i += 1;
    }
    assert(texts(lines@).take(lines.len() as int) == texts(lines@));
    r
}

/// The statement without a comma that dangles before the closing `)`.
pub fn fix_dangling_comma(statement: &Vec<char>) -> (r: Vec<char>)
    ensures
        r@ == without_dangling_comma(statement@),
{
    let first = scan::replace_all(statement, &scan::chars_of(",\n)"), &scan::chars_of("\n)"));
    scan::replace_all(&first, &scan::chars_of(",\n);"), &scan::chars_of("\n);"))
}

/// Translates a complete `CREATE TABLE` statement of a MySQL dump.
///
/// Table options after the column list are dropped; key and constraint lines
/// are dropped; on each line that is left `AUTO_INCREMENT` is rewritten,
/// `UNSIGNED` removed and the `COMMENT` clause cut off; and a comma left
/// dangling before the closing `)` is removed. `IF NOT EXISTS` is neither
/// added nor removed.
pub fn translate_create_table(statement: &str) -> (r: String)
    ensures
        r@ == translated(statement@),
{
    let chars = scan::chars_of(statement);
    let cut = strip_table_options(&chars);
    let lines = scan::split_lines(&cut);
    let kept = rewrite_lines(&lines);
    let joined = scan::join_lines(&kept);
    let fixed = fix_dangling_comma(&joined);
    scan::string_of(&fixed)
}

/// The first twelve characters of a text that begins with `CREATE TABLE`.
proof fn lemma_create_table_characters(t: Seq<char>)
    requires
        text::starts_with(t, "CREATE TABLE"@),
    ensures
        t.len() >= 12,
        t.take(12) == "CREATE TABLE"@,
        t[0] == 'C' && t[1] == 'R' && t[2] == 'E' && t[3] == 'A' && t[4] == 'T' && t[5] == 'E',
        t[6] == ' ' && t[7] == 'T' && t[8] == 'A' && t[9] == 'B' && t[10] == 'L' && t[11] == 'E',
{
    reveal_strlit("CREATE TABLE");
    let head = t.subrange(0, 12);
    assert(t[0] == head[0] && t[1] == head[1] && t[2] == head[2] && t[3] == head[3]);
    assert(t[4] == head[4] && t[5] == head[5] && t[6] == head[6] && t[7] == head[7]);
    assert(t[8] == head[8] && t[9] == head[9] && t[10] == head[10] && t[11] == head[11]);
}

/// A text that shares its first twelve characters with one that begins with
/// `CREATE TABLE` begins so too.
proof fn lemma_same_beginning(t: Seq<char>, x: Seq<char>)
    requires
        text::starts_with(t, "CREATE TABLE"@),
        x.len() >= 12,
        x.take(12) == t.take(12),
    ensures
        text::starts_with(x, "CREATE TABLE"@),
{
    lemma_create_table_characters(t);
}

/// None of the tokens that the translation looks for stands at the beginning
/// of a text that begins with `CREATE TABLE`.
proof fn lemma_no_token_at_the_beginning(t: Seq<char>)
    requires
        text::starts_with(t, "CREATE TABLE"@),
    ensures
        forall|j: int| 0 <= j < 12 ==> !text::occurs_at(text::upper(t), "AUTO_INCREMENT"@, j),
        forall|j: int| 0 <= j < 12 ==> !text::occurs_at(text::upper(t), "COMMENT"@, j),
        forall|j: int| 0 <= j < 12 ==> !text::occurs_at(t, "UNSIGNED"@, j),
        forall|j: int| 0 <= j < 12 ==> !text::occurs_at(t, ",\n)"@, j),
        forall|j: int| 0 <= j < 12 ==> !text::occurs_at(t, ",\n);"@, j),
{
    lemma_create_table_characters(t);
    reveal_strlit("AUTO_INCREMENT");
    reveal_strlit("COMMENT");
    reveal_strlit("UNSIGNED");
    reveal_strlit(",\n)");
    reveal_strlit(",\n);");
    let u = text::upper(t);
    assert forall|j: int| 0 <= j < 12 implies !text::occurs_at(u, "AUTO_INCREMENT"@, j) by {
        if text::occurs_at(u, "AUTO_INCREMENT"@, j) {
            let w = u.subrange(j, j + 14);
            assert(w[0] == u[j] && w[1] == u[j + 1]);
        }
    }
    assert forall|j: int| 0 <= j < 12 implies !text::occurs_at(u, "COMMENT"@, j) by {
        if text::occurs_at(u, "COMMENT"@, j) {
            let w = u.subrange(j, j + 7);
            assert(w[0] == u[j] && w[1] == u[j + 1]);
        }
    }
    assert forall|j: int| 0 <= j < 12 implies !text::occurs_at(t, "UNSIGNED"@, j) by {
        if text::occurs_at(t, "UNSIGNED"@, j) {
            let w = t.subrange(j, j + 8);
            assert(w[0] == t[j]);
        }
    }
    assert forall|j: int| 0 <= j < 12 implies !text::occurs_at(t, ",\n)"@, j) by {
        if text::occurs_at(t, ",\n)"@, j) {
            let w = t.subrange(j, j + 3);
            assert(w[0] == t[j]);
        }
    }
    assert forall|j: int| 0 <= j < 12 implies !text::occurs_at(t, ",\n);"@, j) by {
        if text::occurs_at(t, ",\n);"@, j) {
            let w = t.subrange(j, j + 4);
            assert(w[0] == t[j]);
        }
    }
}

/// Cutting off the table options leaves the beginning of the statement.
proof fn lemma_options_keep_the_beginning(statement: Seq<char>)
    requires
        text::starts_with(statement, "CREATE TABLE"@),
    ensures
        text::starts_with(without_table_options(statement), "CREATE TABLE"@),
{
    lemma_create_table_characters(statement);
    text::lemma_rfind_char(statement, ')');
    match text::rfind_char(statement, ')') {
        Some(i) => {
            let cut = statement.take(i + 1) + seq![';'];
            assert(cut.take(12) =~= statement.take(12));
            lemma_same_beginning(statement, cut);
        },
        None => {},
    }
}

/// The first line of a text that begins with `CREATE TABLE` begins so too.
proof fn lemma_first_line_keeps_the_beginning(s: Seq<char>)
    requires
        text::starts_with(s, "CREATE TABLE"@),
    ensures
        text::split_lines(s).len() >= 1,
        text::starts_with(text::split_lines(s)[0], "CREATE TABLE"@),
{
    lemma_create_table_characters(s);
    text::lemma_line_end(s);
    let k = text::line_end(s) as int;
    if k < s.len() {
        let line = text::without_carriage_return(s.take(k));
        assert(line.take(12) =~= s.take(12));
        lemma_same_beginning(s, line);
    }
}

/// A line that begins with `CREATE TABLE` declares no key.
proof fn lemma_create_line_declares_no_key(line: Seq<char>)
    requires
        text::starts_with(line, "CREATE TABLE"@),
    ensures
        !is_key_declaration(line),
{
    lemma_create_table_characters(line);
    reveal_strlit("PRIMARY KEY");
    reveal_strlit("UNIQUE KEY");
    reveal_strlit("KEY");
    reveal_strlit("CONSTRAINT");
    assert(text::trim_start(line) =~= line);
    let u = text::upper(line);
    assert(u[0] == 'C' && u[1] == 'R');
    if text::starts_with(u, "PRIMARY KEY"@) {
        assert(u.subrange(0, 11)[0] == u[0]);
    }
    if text::starts_with(u, "UNIQUE KEY"@) {
        assert(u.subrange(0, 10)[0] == u[0]);
    }
    if text::starts_with(u, "KEY"@) {
        assert(u.subrange(0, 3)[0] == u[0]);
    }
    if text::starts_with(u, "CONSTRAINT"@) {
        assert(u.subrange(0, 10)[1] == u[1]);
    }
}

/// Rewriting a line that begins with `CREATE TABLE` leaves its beginning.
proof fn lemma_rewriting_keeps_the_beginning(line: Seq<char>)
    requires
        text::starts_with(line, "CREATE TABLE"@),
    ensures
        text::starts_with(rewritten_line(line), "CREATE TABLE"@),
{
    lemma_create_table_characters(line);
    lemma_no_token_at_the_beginning(line);
    let first = auto_increment_rewritten(line);
    assert(text::starts_with(first, "CREATE TABLE"@)) by {
        if text::contains(text::upper(line), "AUTO_INCREMENT"@) {
            let stripped = text::remove_ignoring_case(line, "AUTO_INCREMENT"@);
            text::lemma_remove_ignoring_case_keeps_prefix(line, "AUTO_INCREMENT"@, 12);
            assert(stripped[11] == stripped.take(12)[11]);
            assert(line[11] == line.take(12)[11]);
            text::lemma_trailing_run_stops(stripped, ',', 12);
            let bare = text::trim_end_matches(stripped, ',');
            assert(bare.take(12) =~= stripped.take(12));
            assert(first.len() >= 12 && first.take(12) =~= bare.take(12));
            lemma_same_beginning(line, first);
        }
    }
    lemma_no_token_at_the_beginning(first);
    let second = unsigned_removed(first);
    text::lemma_replace_all_keeps_prefix(first, "UNSIGNED"@, Seq::empty(), 12);
    lemma_same_beginning(first, second);
    lemma_no_token_at_the_beginning(second);
    let third = comment_removed(second);
    text::lemma_find(text::upper(second), "COMMENT"@);
    match text::find(text::upper(second), "COMMENT"@) {
        Some(i) => {
            assert(i >= 12);
            assert(third.len() >= 12 && third.take(12) =~= second.take(12));
            lemma_same_beginning(second, third);
        },
        None => {},
    }
}

/// The first of the lines, where it declares no key, is the first of the
/// rewritten lines.
proof fn lemma_first_line_stays_first(lines: Seq<Seq<char>>)
    requires
        lines.len() >= 1,
        !is_key_declaration(lines[0]),
    ensures
        rewritten_lines(lines).len() >= 1,
        rewritten_lines(lines)[0] == rewritten_line(lines[0]),
    decreases lines.len(),
{
    if lines.len() > 1 {
        lemma_first_line_stays_first(lines.drop_last());
    } else {
        assert(rewritten_lines(lines.drop_last()) =~= Seq::<Seq<char>>::empty());
    }
}

/// Joined lines begin with the first line.
proof fn lemma_joined_lines_begin_with_the_first(lines: Seq<Seq<char>>)
    requires
        lines.len() >= 1,
    ensures
        text::join_lines(lines).len() >= lines[0].len(),
        text::join_lines(lines).take(lines[0].len() as int) == lines[0],
    decreases lines.len(),
{
    if lines.len() > 1 {
        lemma_joined_lines_begin_with_the_first(lines.drop_last());
    }
}

/// The translation of a `CREATE TABLE` statement is a `CREATE TABLE`
/// statement: it begins as the statement began.
pub proof fn lemma_translation_begins_with_create_table(statement: Seq<char>)
    requires
        text::starts_with(statement, "CREATE TABLE"@),
    ensures
        text::starts_with(translated(statement), "CREATE TABLE"@),
{
    lemma_options_keep_the_beginning(statement);
    let cut = without_table_options(statement);
    lemma_first_line_keeps_the_beginning(cut);
    let lines = text::split_lines(cut);
    lemma_create_line_declares_no_key(lines[0]);
    lemma_rewriting_keeps_the_beginning(lines[0]);
    lemma_first_line_stays_first(lines);
    let kept = rewritten_lines(lines);
    lemma_joined_lines_begin_with_the_first(kept);
    let joined = text::join_lines(kept);
    lemma_create_table_characters(kept[0]);
    assert(joined.take(12) =~= kept[0].take(12));
    lemma_same_beginning(kept[0], joined);
    lemma_no_token_at_the_beginning(joined);
    let once = text::replace_all(joined, ",\n)"@, "\n)"@);
    text::lemma_replace_all_keeps_prefix(joined, ",\n)"@, "\n)"@, 12);
    lemma_same_beginning(joined, once);
    lemma_no_token_at_the_beginning(once);
    text::lemma_replace_all_keeps_prefix(once, ",\n);"@, "\n);"@, 12);
    lemma_same_beginning(once, translated(statement));
}

/// A line that holds none of the tokens is left as it is.
pub proof fn lemma_plain_line_is_kept(line: Seq<char>)
    requires
        !text::contains(text::upper(line), "AUTO_INCREMENT"@),
        !text::contains(line, "UNSIGNED"@),
        !text::contains(text::upper(line), "COMMENT"@),
    ensures
        rewritten_line(line) == line,
{
    text::lemma_replace_all_without_occurrence(line, "UNSIGNED"@, Seq::empty());
    text::lemma_find(text::upper(line), "COMMENT"@);
}

} // verus!
