//! The model of text: what each operation on a line or a statement means,
//! stated over sequences of characters.
//!
//! Case is folded in ASCII only: `a`..`z` and `A`..`Z` are paired, every other
//! character stands for itself. Whitespace is Unicode `White_Space`.

use vstd::prelude::*;

verus! {

/// Unicode `White_Space`: the characters that trimming removes.
pub open spec fn is_whitespace(c: char) -> bool {
    let n = c as u32;
    (0x09 <= n <= 0x0D) || n == 0x20 || n == 0x85 || n == 0xA0 || n == 0x1680 || (0x2000 <= n
        <= 0x200A) || n == 0x2028 || n == 0x2029 || n == 0x202F || n == 0x205F || n == 0x3000
}

/// `a`..`z` become `A`..`Z`; every other character is unchanged.
pub open spec fn upper_char(c: char) -> char {
    if 'a' <= c <= 'z' {
        ((c as u32) - 32) as char
    } else {
        c
    }
}

/// `A`..`Z` become `a`..`z`; every other character is unchanged.
pub open spec fn lower_char(c: char) -> char {
    if 'A' <= c <= 'Z' {
        ((c as u32) + 32) as char
    } else {
        c
    }
}

/// The text with every character upper-cased.
pub open spec fn upper(s: Seq<char>) -> Seq<char> {
    Seq::new(s.len(), |i: int| upper_char(s[i]))
}

/// The text with every character lower-cased.
pub open spec fn lower(s: Seq<char>) -> Seq<char> {
    Seq::new(s.len(), |i: int| lower_char(s[i]))
}

/// `p` stands in `s` at position `i`.
pub open spec fn occurs_at(s: Seq<char>, p: Seq<char>, i: int) -> bool {
    &&& 0 <= i
    &&& i + p.len() <= s.len()
    &&& s.subrange(i, i + p.len()) == p
}

/// `s` begins with `p`.
pub open spec fn starts_with(s: Seq<char>, p: Seq<char>) -> bool {
    occurs_at(s, p, 0)
}

/// `s` ends with `p`.
pub open spec fn ends_with(s: Seq<char>, p: Seq<char>) -> bool {
    occurs_at(s, p, s.len() - p.len())
}

/// `p` stands somewhere in `s`.
pub open spec fn contains(s: Seq<char>, p: Seq<char>) -> bool {
    exists|i: int| occurs_at(s, p, i)
}

/// The first position at or after `from` where `p` stands in `s`.
pub open spec fn find_from(s: Seq<char>, p: Seq<char>, from: int) -> Option<int>
    decreases s.len() + 1 - from,
{
    if from < 0 || from + p.len() > s.len() {
        None
    } else if occurs_at(s, p, from) {
        Some(from)
    } else {
        find_from(s, p, from + 1)
    }
}

/// The first position where `p` stands in `s`.
pub open spec fn find(s: Seq<char>, p: Seq<char>) -> Option<int> {
    find_from(s, p, 0)
}

/// The last position of the character `c` in `s`.
pub open spec fn rfind_char(s: Seq<char>, c: char) -> Option<int>
    decreases s.len(),
{
    if s.len() == 0 {
        None
    } else if s.last() == c {
        Some(s.len() - 1)
    } else {
        rfind_char(s.drop_last(), c)
    }
}

/// How often the character `c` stands in `s`.
pub open spec fn count_char(s: Seq<char>, c: char) -> nat
    decreases s.len(),
{
    if s.len() == 0 {
        0
    } else {
        count_char(s.drop_last(), c) + if s.last() == c {
            1nat
        } else {
            0nat
        }
    }
}

/// The characters of `s` from `a` up to `b`, where `b` is cut down to the
/// length of `s` and `a` to `b`.
pub open spec fn window(s: Seq<char>, a: int, b: int) -> Seq<char> {
    let hi = if b < s.len() {
        b
    } else {
        s.len() as int
    };
    let lo = if a < hi {
        a
    } else {
        hi
    };
    s.subrange(lo, hi)
}

/// The number of whitespace characters that `s` begins with.
pub open spec fn leading_whitespace(s: Seq<char>) -> nat
    decreases s.len(),
{
    if s.len() > 0 && is_whitespace(s.first()) {
        1 + leading_whitespace(s.drop_first())
    } else {
        0
    }
}

/// The number of whitespace characters that `s` ends with.
pub open spec fn trailing_whitespace(s: Seq<char>) -> nat
    decreases s.len(),
{
    if s.len() > 0 && is_whitespace(s.last()) {
        1 + trailing_whitespace(s.drop_last())
    } else {
        0
    }
}

/// `s` without its leading whitespace.
pub open spec fn trim_start(s: Seq<char>) -> Seq<char> {
    s.skip(leading_whitespace(s) as int)
}

/// `s` without its trailing whitespace.
pub open spec fn trim_end(s: Seq<char>) -> Seq<char> {
    s.take(s.len() - trailing_whitespace(s))
}

/// `s` without leading and trailing whitespace.
pub open spec fn trim(s: Seq<char>) -> Seq<char> {
    trim_end(trim_start(s))
}

/// The number of times the character `c` is repeated at the end of `s`.
pub open spec fn trailing_run(s: Seq<char>, c: char) -> nat
    decreases s.len(),
{
    if s.len() > 0 && s.last() == c {
        1 + trailing_run(s.drop_last(), c)
    } else {
        0
    }
}

/// `s` without the run of `c` at its end.
pub open spec fn trim_end_matches(s: Seq<char>, c: char) -> Seq<char> {
    s.take(s.len() - trailing_run(s, c))
}

/// `s` with every occurrence of `from` replaced by `to`, scanning from the
/// left and never looking again at what was replaced. An empty `from` occurs
/// nowhere.
pub open spec fn replace_all(s: Seq<char>, from: Seq<char>, to: Seq<char>) -> Seq<char>
    decreases s.len(),
{
    if from.len() == 0 || s.len() < from.len() {
        s
    } else if occurs_at(s, from, 0) {
        to + replace_all(s.skip(from.len() as int), from, to)
    } else {
        seq![s.first()] + replace_all(s.drop_first(), from, to)
    }
}

/// `s` without the stretches that read `token` when upper-cased, scanning from
/// the left. An empty `token` occurs nowhere.
pub open spec fn remove_ignoring_case(s: Seq<char>, token: Seq<char>) -> Seq<char>
    decreases s.len(),
{
    if token.len() == 0 || s.len() < token.len() {
        s
    } else if occurs_at(upper(s), token, 0) {
        remove_ignoring_case(s.skip(token.len() as int), token)
    } else {
        seq![s.first()] + remove_ignoring_case(s.drop_first(), token)
    }
}

/// The position of the first line feed in `s`, or the length of `s`.
pub open spec fn line_end(s: Seq<char>) -> nat
    decreases s.len(),
{
    if s.len() == 0 || s.first() == '\n' {
        0
    } else {
        1 + line_end(s.drop_first())
    }
}

/// A line as it stood before its line feed, without the carriage return of a
/// CR LF pair.
pub open spec fn without_carriage_return(line: Seq<char>) -> Seq<char> {
    if line.len() > 0 && line.last() == '\r' {
        line.drop_last()
    } else {
        line
    }
}

/// The lines of `s`. A line ends at a line feed or at a carriage return and
/// line feed; the last line needs no terminator, and a terminator at the very
/// end opens no further line.
pub open spec fn split_lines(s: Seq<char>) -> Seq<Seq<char>>
    decreases s.len(),
{
    if s.len() == 0 {
        Seq::empty()
    } else {
        let k = line_end(s) as int;
        if k >= s.len() {
            seq![s]
        } else {
            seq![without_carriage_return(s.take(k))] + split_lines(s.skip(k + 1))
        }
    }
}

/// The lines joined by single line feeds.
pub open spec fn join_lines(lines: Seq<Seq<char>>) -> Seq<char>
    decreases lines.len(),
{
    if lines.len() == 0 {
        Seq::empty()
    } else if lines.len() == 1 {
        lines[0]
    } else {
        join_lines(lines.drop_last()) + seq!['\n'] + lines.last()
    }
}

/// What `leading_whitespace` counts: whitespace before it, none at it.
pub proof fn lemma_leading_whitespace(s: Seq<char>)
    ensures
        leading_whitespace(s) <= s.len(),
        forall|j: int| 0 <= j < leading_whitespace(s) ==> is_whitespace(#[trigger] s[j]),
        leading_whitespace(s) < s.len() ==> !is_whitespace(s[leading_whitespace(s) as int]),
    decreases s.len(),
{
    if s.len() > 0 && is_whitespace(s.first()) {
        lemma_leading_whitespace(s.drop_first());
        assert forall|j: int| 0 <= j < leading_whitespace(s) implies is_whitespace(
            #[trigger] s[j],
        ) by {
            if j > 0 {
                assert(s[j] == s.drop_first()[j - 1]);
            }
        }
    }
}

/// What `trailing_whitespace` counts: whitespace behind it, none before it.
pub proof fn lemma_trailing_whitespace(s: Seq<char>)
    ensures
        trailing_whitespace(s) <= s.len(),
        forall|j: int|
            s.len() - trailing_whitespace(s) <= j < s.len() ==> is_whitespace(#[trigger] s[j]),
        trailing_whitespace(s) < s.len() ==> !is_whitespace(
            s[s.len() - trailing_whitespace(s) - 1],
        ),
    decreases s.len(),
{
    if s.len() > 0 && is_whitespace(s.last()) {
        lemma_trailing_whitespace(s.drop_last());
        assert forall|j: int| s.len() - trailing_whitespace(s) <= j < s.len() implies is_whitespace(
            #[trigger] s[j],
        ) by {
            if j < s.len() - 1 {
                assert(s[j] == s.drop_last()[j]);
            }
        }
    }
}

/// `rfind_char` gives the greatest position of the character, if there is
/// one.
pub proof fn lemma_rfind_char(s: Seq<char>, c: char)
    ensures
        match rfind_char(s, c) {
            Some(i) => 0 <= i < s.len() && s[i] == c && forall|j: int|
                i < j < s.len() ==> s[j] != c,
            None => forall|j: int| 0 <= j < s.len() ==> s[j] != c,
        },
    decreases s.len(),
{
    if s.len() > 0 && s.last() != c {
        lemma_rfind_char(s.drop_last(), c);
        assert forall|j: int| 0 <= j < s.len() - 1 implies s[j] == s.drop_last()[j] by {}
    }
}

/// `find_from` gives the least position at or after `from`, if there is one.
pub proof fn lemma_find_from(s: Seq<char>, p: Seq<char>, from: int)
    requires
        0 <= from,
    ensures
        match find_from(s, p, from) {
            Some(i) => from <= i && occurs_at(s, p, i) && forall|j: int|
                from <= j < i ==> !occurs_at(s, p, j),
            None => forall|j: int| from <= j ==> !occurs_at(s, p, j),
        },
    decreases s.len() + 1 - from,
{
    if from + p.len() <= s.len() && !occurs_at(s, p, from) {
        lemma_find_from(s, p, from + 1);
    }
}

/// `find` gives the first occurrence, and finds one exactly when the text
/// contains the pattern.
pub proof fn lemma_find(s: Seq<char>, p: Seq<char>)
    ensures
        find(s, p) is Some <==> contains(s, p),
        find(s, p) matches Some(i) ==> occurs_at(s, p, i) && forall|j: int|
            0 <= j < i ==> !occurs_at(s, p, j),
{
    lemma_find_from(s, p, 0);
}

/// Folding case keeps positions: the upper-cased text has the length of the
/// text, and a stretch of it is the stretch upper-cased.
pub proof fn lemma_upper_subrange(s: Seq<char>, a: int, b: int)
    requires
        0 <= a <= b <= s.len(),
    ensures
        upper(s).len() == s.len(),
        upper(s).subrange(a, b) == upper(s.subrange(a, b)),
{
}

/// `line_end` stays within the text; no line feed stands before it, and one
/// stands at it unless it is the end of the text.
pub proof fn lemma_line_end(s: Seq<char>)
    ensures
        line_end(s) <= s.len(),
        forall|j: int| 0 <= j < line_end(s) ==> s[j] != '\n',
        line_end(s) < s.len() ==> s[line_end(s) as int] == '\n',
    decreases s.len(),
{
    if s.len() > 0 && s.first() != '\n' {
        lemma_line_end(s.drop_first());
        assert forall|j: int| 0 <= j < line_end(s) implies s[j] != '\n' by {
            if j > 0 {
                assert(s[j] == s.drop_first()[j - 1]);
            }
        }
    }
}

/// A pattern stands in the text without its first character where it stands
/// one position later in the text.
pub proof fn lemma_occurs_after_first(s: Seq<char>, p: Seq<char>, j: int)
    requires
        s.len() > 0,
        0 <= j,
    ensures
        occurs_at(s.drop_first(), p, j) <==> occurs_at(s, p, j + 1),
{
    if j + p.len() <= s.len() - 1 {
        assert(s.drop_first().subrange(j, j + p.len()) =~= s.subrange(j + 1, j + 1 + p.len()));
    }
}

/// Replacing leaves the beginning of the text alone as far as `from` does not
/// stand there: where no occurrence starts before position `k`, the first `k`
/// characters stay.
pub proof fn lemma_replace_all_keeps_prefix(s: Seq<char>, from: Seq<char>, to: Seq<char>, k: int)
    requires
        0 <= k <= s.len(),
        forall|j: int| 0 <= j < k ==> !occurs_at(s, from, j),
    ensures
        replace_all(s, from, to).len() >= k,
        replace_all(s, from, to).take(k) == s.take(k),
    decreases k,
{
    if k > 0 && from.len() > 0 && s.len() >= from.len() {
        let rest = s.drop_first();
        assert forall|j: int| 0 <= j < k - 1 implies !occurs_at(rest, from, j) by {
            lemma_occurs_after_first(s, from, j);
        }
        lemma_replace_all_keeps_prefix(rest, from, to, k - 1);
        let done = replace_all(rest, from, to);
        assert((seq![s.first()] + done).take(k) =~= seq![s.first()] + done.take(k - 1));
    }
}

/// As `lemma_replace_all_keeps_prefix`, for removal in any case.
pub proof fn lemma_remove_ignoring_case_keeps_prefix(s: Seq<char>, token: Seq<char>, k: int)
    requires
        0 <= k <= s.len(),
        forall|j: int| 0 <= j < k ==> !occurs_at(upper(s), token, j),
    ensures
        remove_ignoring_case(s, token).len() >= k,
        remove_ignoring_case(s, token).take(k) == s.take(k),
    decreases k,
{
    if k > 0 && token.len() > 0 && s.len() >= token.len() {
        let rest = s.drop_first();
        assert(upper(rest) =~= upper(s).drop_first());
        assert forall|j: int| 0 <= j < k - 1 implies !occurs_at(upper(rest), token, j) by {
            lemma_occurs_after_first(upper(s), token, j);
        }
        lemma_remove_ignoring_case_keeps_prefix(rest, token, k - 1);
        let done = remove_ignoring_case(rest, token);
        assert((seq![s.first()] + done).take(k) =~= seq![s.first()] + done.take(k - 1));
    }
}

/// The run of `c` at the end of the text begins behind every character that is
/// not `c`.
pub proof fn lemma_trailing_run_stops(s: Seq<char>, c: char, k: int)
    requires
        1 <= k <= s.len(),
        s[k - 1] != c,
    ensures
        trailing_run(s, c) <= s.len() - k,
    decreases s.len(),
{
    if s.len() > k && s.last() == c {
        lemma_trailing_run_stops(s.drop_last(), c, k);
    }
}

/// Where `from` does not occur, nothing is replaced.
pub proof fn lemma_replace_all_without_occurrence(s: Seq<char>, from: Seq<char>, to: Seq<char>)
    requires
        !contains(s, from),
    ensures
        replace_all(s, from, to) == s,
    decreases s.len(),
{
    if from.len() > 0 && s.len() >= from.len() {
        let rest = s.drop_first();
        assert forall|j: int| !occurs_at(rest, from, j) by {
            if 0 <= j {
                lemma_occurs_after_first(s, from, j);
            }
        }
        lemma_replace_all_without_occurrence(rest, from, to);
    }
}

} // verus!
