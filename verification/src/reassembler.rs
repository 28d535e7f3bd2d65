//! Reassembly of a dump's lines into complete statements.
//!
//! A dump is read line by line. Directives and comments are dropped, what is
//! left of a line is gathered in a buffer, and a line that ends with `;`
//! completes the statement held there.
//!
//! Known limits: the inline comment is found by counting single quotes before
//! the first `--`, so double-quoted strings and escaped quotes mislead it; and
//! a statement that the dump does not terminate is never handed out (see
//! `Reassembler::dangling`).

use crate::scan;
use crate::scan::string_texts;
use crate::text;
use vstd::prelude::*;

verus! {

/// A line that carries no statement text: blank, a comment, transaction
/// control, or a directive on the session, the schema or the storage engine.
/// It is judged by how it begins once leading whitespace is gone.
pub open spec fn is_noise(line: Seq<char>) -> bool {
    let t = text::trim_start(line);
    ||| t.len() == 0
    ||| text::starts_with(t, "--"@)
    ||| text::starts_with(t, "/*"@)
    ||| text::starts_with(t, "/*!"@)
    ||| text::starts_with(t, "LOCK TABLES"@)
    ||| text::starts_with(t, "UNLOCK TABLES"@)
    ||| text::starts_with(t, "SET "@)
    ||| text::starts_with(t, "DELIMITER "@)
    ||| text::starts_with(t, "START TRANSACTION"@)
    ||| text::starts_with(t, "COMMIT"@)
    ||| text::starts_with(t, "ROLLBACK"@)
    ||| text::starts_with(t, "USE "@)
    ||| text::starts_with(t, "CREATE DATABASE"@)
    ||| text::starts_with(t, "CREATE SCHEMA"@)
    ||| text::starts_with(t, "DROP DATABASE"@)
}

/// The line without its trailing comment: cut at the first `--` when an even
/// number of single quotes stands before it, whole otherwise.
pub open spec fn without_inline_comment(line: Seq<char>) -> Seq<char> {
    match text::find(line, "--"@) {
        Some(i) => if text::count_char(line.take(i), '\'') % 2 == 0 {
            line.take(i)
        } else {
            line
        },
        None => line,
    }
}

/// The line closes a statement: it ends with `;`.
pub open spec fn is_terminated(line: Seq<char>) -> bool {
    text::ends_with(text::trim_start(line), ";"@)
}

/// What a content line adds to the buffer: the line without its inline
/// comment, and a line feed.
pub open spec fn contribution(line: Seq<char>) -> Seq<char> {
    without_inline_comment(line) + seq!['\n']
}

/// The buffer after `line` was fed to a reassembler that held `buffer`.
pub open spec fn pending_after(buffer: Seq<char>, line: Seq<char>) -> Seq<char> {
    if is_noise(line) {
        buffer
    } else if is_terminated(line) {
        Seq::empty()
    } else {
        buffer + contribution(line)
    }
}

/// The statement that `line` completes when fed to a reassembler that held
/// `buffer`, if it completes one.
pub open spec fn completed(buffer: Seq<char>, line: Seq<char>) -> Option<Seq<char>> {
    if !is_noise(line) && is_terminated(line) {
        Some(text::trim(buffer + contribution(line)))
    } else {
        None
    }
}

/// The statements handed out while `lines` are fed, in order, to a
/// reassembler that held `buffer`.
pub open spec fn statements_from(buffer: Seq<char>, lines: Seq<Seq<char>>) -> Seq<Seq<char>>
    decreases lines.len(),
{
    if lines.len() == 0 {
        Seq::empty()
    } else {
        let rest = statements_from(pending_after(buffer, lines.first()), lines.drop_first());
        match completed(buffer, lines.first()) {
            Some(statement) => seq![statement] + rest,
            None => rest,
        }
    }
}

/// The buffer left when `lines` were fed, in order, to a reassembler that held
/// `buffer`.
pub open spec fn pending_from(buffer: Seq<char>, lines: Seq<Seq<char>>) -> Seq<char>
    decreases lines.len(),
{
    if lines.len() == 0 {
        buffer
    } else {
        pending_from(pending_after(buffer, lines.first()), lines.drop_first())
    }
}

/// The statements of a dump, given as its lines.
pub open spec fn statements(lines: Seq<Seq<char>>) -> Seq<Seq<char>> {
    statements_from(Seq::empty(), lines)
}

/// The lines that are not noise, in order.
pub open spec fn content_lines(lines: Seq<Seq<char>>) -> Seq<Seq<char>>
    decreases lines.len(),
{
    if lines.len() == 0 {
        Seq::empty()
    } else if is_noise(lines.first()) {
        content_lines(lines.drop_first())
    } else {
        seq![lines.first()] + content_lines(lines.drop_first())
    }
}

/// What the lines add to the buffer, one after the other.
pub open spec fn contributions(lines: Seq<Seq<char>>) -> Seq<char>
    decreases lines.len(),
{
    if lines.len() == 0 {
        Seq::empty()
    } else {
        contribution(lines.first()) + contributions(lines.drop_first())
    }
}

/// Whether the line is noise.
pub fn is_noise_line(line: &Vec<char>) -> (b: bool)
    ensures
        b == is_noise(line@),
{
    let t = scan::trim_start(line);
    t.len() == 0
        || scan::starts_with_str(&t, "--")
        || scan::starts_with_str(&t, "/*")
        || scan::starts_with_str(&t, "/*!")
        || scan::starts_with_str(&t, "LOCK TABLES")
        || scan::starts_with_str(&t, "UNLOCK TABLES")
        || scan::starts_with_str(&t, "SET ")
        || scan::starts_with_str(&t, "DELIMITER ")
        || scan::starts_with_str(&t, "START TRANSACTION")
        || scan::starts_with_str(&t, "COMMIT")
        || scan::starts_with_str(&t, "ROLLBACK")
        || scan::starts_with_str(&t, "USE ")
        || scan::starts_with_str(&t, "CREATE DATABASE")
        || scan::starts_with_str(&t, "CREATE SCHEMA")
        || scan::starts_with_str(&t, "DROP DATABASE")
}

/// The line without its trailing comment.
pub fn strip_inline_comment(line: &Vec<char>) -> (r: Vec<char>)
    ensures
        r@ == without_inline_comment(line@),
{
    match scan::find(line, &scan::chars_of("--")) {
        Some(i) => {
            let before = scan::slice(line, 0, i);
            if scan::count_char(&before, '\'') % 2 == 0 {
                before
            } else {
                line.clone()
            }
        },
        None => line.clone(),
    }
}

/// Whether the line closes a statement.
pub fn is_terminated_line(line: &Vec<char>) -> (b: bool)
    ensures
        b == is_terminated(line@),
{
    let t = scan::trim_start(line);
    scan::ends_with(&t, &scan::chars_of(";"))
}

/// The statement buffer of a dump that is being read.
pub struct Reassembler {
    buffer: Vec<char>,
}

impl View for Reassembler {
    type V = Seq<char>;

    /// The text gathered since the last complete statement.
    closed spec fn view(&self) -> Seq<char> {
        self.buffer@
    }
}

impl Reassembler {
    /// A reassembler at the start of a dump: nothing is pending.
    pub fn new() -> (r: Reassembler)
        ensures
            r@ == Seq::<char>::empty(),
    {
        Reassembler { buffer: Vec::new() }
    }

    /// Takes the next line of the dump, without its line terminator. Noise
    /// changes nothing. A content line joins the buffer; if it ends with `;`
    /// the buffer is handed out, trimmed, as one statement, and emptied.
    pub fn feed(&mut self, line: &str) -> (out: Option<String>)
        ensures
            final(self)@ == pending_after(old(self)@, line@),
            match out {
                Some(statement) => completed(old(self)@, line@) == Some(statement@),
                None => completed(old(self)@, line@) is None,
            },
    {
        match self.feed_chars(&scan::chars_of(line)) {
            Some(statement) => Some(scan::string_of(&statement)),
            None => None,
        }
    }

    /// As `feed`, for a line and a statement given as characters.
    pub fn feed_chars(&mut self, line: &Vec<char>) -> (out: Option<Vec<char>>)
        ensures
            final(self)@ == pending_after(old(self)@, line@),
            match out {
                Some(statement) => completed(old(self)@, line@) == Some(statement@),
                None => completed(old(self)@, line@) is None,
            },
    {
        if is_noise_line(line) {
            return None;
        }
        let kept = strip_inline_comment(line);
        scan::append(&mut self.buffer, &kept);
        self.buffer.push('\n');
        assert(self.buffer@ =~= old(self).buffer@ + contribution(line@));
        if is_terminated_line(line) {
            let statement = scan::trim(&self.buffer);
            self.buffer.clear();
            Some(statement)
        } else {
            None
        }
    }

    /// The text of a statement that was begun and not terminated, trimmed, or
    /// `None` where the buffer holds nothing but whitespace. At the end of a
    /// dump this is what the dump left unfinished: it is never handed out as
    /// a statement.
    pub fn dangling(&self) -> (out: Option<String>)
        ensures
            match out {
                Some(rest) => rest@ == text::trim(self@) && rest@.len() > 0,
                None => text::trim(self@).len() == 0,
            },
    {
        let rest = scan::trim(&self.buffer);
        if rest.len() == 0 {
            None
        } else {
            Some(scan::string_of(&rest))
        }
    }
}

/// The statements of a dump, given as its lines without their terminators.
pub fn reassemble(lines: &Vec<String>) -> (out: Vec<String>)
    ensures
        string_texts(out@) == statements(string_texts(lines@)),
{
    let mut state = Reassembler::new();
    let mut out: Vec<String> = Vec::new();
    let mut i: usize = 0;
    assert(string_texts(lines@).skip(0) == string_texts(lines@));
    while i < lines.len()
        invariant
            i <= lines.len(),
            string_texts(out@) + statements_from(state@, string_texts(lines@).skip(i as int))
                == statements(string_texts(lines@)),
        decreases lines.len() - i,
    {
        assert(string_texts(lines@).skip(i as int).drop_first() == string_texts(lines@).skip(
            i + 1,
        ));
        if let Some(statement) = state.feed(lines[i].as_str()) {
            out.push(statement);
        }
        i += 1;
    }
    out
}

/// The statements of a dump, given as its text.
pub fn reassemble_text(dump: &str) -> (out: Vec<String>)
    ensures
        string_texts(out@) == statements(text::split_lines(dump@)),
{
    let chars = scan::chars_of(dump);
    let lines = scan::split_lines(&chars);
    let mut state = Reassembler::new();
    let mut out: Vec<String> = Vec::new();
    let mut i: usize = 0;
    assert(scan::texts(lines@).skip(0) == scan::texts(lines@));
    while i < lines.len()
        invariant
            i <= lines.len(),
            string_texts(out@) + statements_from(state@, scan::texts(lines@).skip(i as int))
                == statements(scan::texts(lines@)),
        decreases lines.len() - i,
    {
        assert(scan::texts(lines@).skip(i as int).drop_first() == scan::texts(lines@).skip(i + 1));
        if let Some(statement) = state.feed_chars(&lines[i]) {
            out.push(scan::string_of(&statement));
        }
        i += 1;
    }
    out
}

/// Feeding is sequential: the statements of two runs of lines fed one after
/// the other are those of the first run, then those of the second run fed to
/// a reassembler that holds what the first run left pending.
pub proof fn lemma_feeding_is_sequential(
    buffer: Seq<char>,
    first: Seq<Seq<char>>,
    second: Seq<Seq<char>>,
)
    ensures
        statements_from(buffer, first + second) == statements_from(buffer, first)
            + statements_from(pending_from(buffer, first), second),
        pending_from(buffer, first + second) == pending_from(pending_from(buffer, first), second),
    decreases first.len(),
{
    if first.len() > 0 {
        assert((first + second).drop_first() =~= first.drop_first() + second);
        lemma_feeding_is_sequential(
            pending_after(buffer, first.first()),
            first.drop_first(),
            second,
        );
    }
}

/// Noise never reaches a statement: a dump yields the statements that its
/// content lines alone would yield, and leaves pending what they would leave,
/// whatever the reassembler held at the start.
pub proof fn lemma_noise_is_ignored(buffer: Seq<char>, lines: Seq<Seq<char>>)
    ensures
        statements_from(buffer, lines) == statements_from(buffer, content_lines(lines)),
        pending_from(buffer, lines) == pending_from(buffer, content_lines(lines)),
    decreases lines.len(),
{
    if lines.len() > 0 {
        lemma_noise_is_ignored(pending_after(buffer, lines.first()), lines.drop_first());
        if !is_noise(lines.first()) {
            assert(content_lines(lines).drop_first() == content_lines(lines.drop_first()));
        }
    }
}

/// Between two terminated lines the buffer only grows: where no content line
/// is terminated, no statement is handed out, and what is pending afterwards
/// is what was pending before and every content line's contribution, in
/// order.
pub proof fn lemma_open_statement_accumulates(buffer: Seq<char>, lines: Seq<Seq<char>>)
    requires
        forall|i: int| 0 <= i < lines.len() && !is_noise(lines[i]) ==> !is_terminated(lines[i]),
    ensures
        statements_from(buffer, lines) == Seq::<Seq<char>>::empty(),
        pending_from(buffer, lines) == buffer + contributions(content_lines(lines)),
    decreases lines.len(),
{
    if lines.len() > 0 {
        let head = lines.first();
        let tail = lines.drop_first();
        assert forall|i: int| 0 <= i < tail.len() && !is_noise(tail[i]) implies !is_terminated(
            tail[i],
        ) by {
            assert(tail[i] == lines[i + 1]);
        }
        lemma_open_statement_accumulates(pending_after(buffer, head), tail);
        if !is_noise(head) {
            assert(content_lines(lines).drop_first() == content_lines(tail));
        }
    }
}

/// A statement that spans several lines and ends with `;` on the last of them
/// comes out once and whole: where every content line but the last is
/// unterminated and the last line is a terminated content line, the lines
/// yield exactly one statement, made of what was pending and of every content
/// line's contribution, in order, trimmed. Nothing is left pending.
pub proof fn lemma_one_statement(buffer: Seq<char>, lines: Seq<Seq<char>>)
    requires
        lines.len() > 0,
        !is_noise(lines.last()),
        is_terminated(lines.last()),
        forall|i: int| 0 <= i < lines.len() - 1 && !is_noise(lines[i]) ==> !is_terminated(lines[i]),
    ensures
        statements_from(buffer, lines) == seq![
            text::trim(buffer + contributions(content_lines(lines))),
        ],
        pending_from(buffer, lines) == Seq::<char>::empty(),
{
    let init = lines.drop_last();
    let last = lines.last();
    assert(lines =~= init + seq![last]);
    assert forall|i: int| 0 <= i < init.len() && !is_noise(init[i]) implies !is_terminated(
        init[i],
    ) by {
        assert(init[i] == lines[i]);
    }
    lemma_open_statement_accumulates(buffer, init);
    lemma_feeding_is_sequential(buffer, init, seq![last]);
    let held = buffer + contributions(content_lines(init));
    assert(statements_from(pending_after(held, last), seq![last].drop_first())
        =~= Seq::<Seq<char>>::empty());
    assert(pending_from(pending_after(held, last), seq![last].drop_first()) =~= pending_after(
        held,
        last,
    ));
    lemma_content_lines_of_two(init, seq![last]);
    assert(content_lines(seq![last]) =~= seq![last]) by {
        assert(content_lines(seq![last].drop_first()) =~= Seq::<Seq<char>>::empty());
    }
    lemma_contributions_of_two(content_lines(init), seq![last]);
    assert(contributions(seq![last]) =~= contribution(last)) by {
        assert(contributions(seq![last].drop_first()) =~= Seq::<char>::empty());
    }
    assert(held + contribution(last) =~= buffer + contributions(content_lines(lines)));
}

/// The content lines of two runs are those of the first, then those of the
/// second.
pub proof fn lemma_content_lines_of_two(first: Seq<Seq<char>>, second: Seq<Seq<char>>)
    ensures
        content_lines(first + second) == content_lines(first) + content_lines(second),
    decreases first.len(),
{
    if first.len() > 0 {
        assert((first + second).drop_first() =~= first.drop_first() + second);
        lemma_content_lines_of_two(first.drop_first(), second);
    }
}

/// The contributions of two runs are those of the first, then those of the
/// second.
pub proof fn lemma_contributions_of_two(first: Seq<Seq<char>>, second: Seq<Seq<char>>)
    ensures
        contributions(first + second) == contributions(first) + contributions(second),
    decreases first.len(),
{
    if first.len() > 0 {
        assert((first + second).drop_first() =~= first.drop_first() + second);
        lemma_contributions_of_two(first.drop_first(), second);
    }
}

/// A dump that is one statement over several lines: read from its start, it
/// yields that statement and nothing else.
pub proof fn lemma_statement_spans_lines(lines: Seq<Seq<char>>)
    requires
        lines.len() > 0,
        !is_noise(lines.last()),
        is_terminated(lines.last()),
        forall|i: int| 0 <= i < lines.len() - 1 && !is_noise(lines[i]) ==> !is_terminated(lines[i]),
    ensures
        statements(lines) == seq![text::trim(contributions(content_lines(lines)))],
{
    lemma_one_statement(Seq::empty(), lines);
}

} // verus!
