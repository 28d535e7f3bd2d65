//! The text operations, executable on vectors of characters. Each one computes
//! what the function of the same name in `text` defines.

use crate::text;
use vstd::prelude::*;

verus! {

/// `String::push` of the standard library: it appends the one character to the
/// string and changes nothing else.
pub assume_specification[ String::push ](s: &mut String, c: char)
    ensures
        final(s)@ == old(s)@.push(c),
;

/// The texts that a vector of character vectors holds.
pub open spec fn texts(lines: Seq<Vec<char>>) -> Seq<Seq<char>> {
    Seq::new(lines.len(), |i: int| lines[i]@)
}

/// The texts that a vector of strings holds.
pub open spec fn string_texts(lines: Seq<String>) -> Seq<Seq<char>> {
    Seq::new(lines.len(), |i: int| lines[i]@)
}

/// The characters of a string slice, in order.
pub fn chars_of(s: &str) -> (v: Vec<char>)
    ensures
        v@ == s@,
{
    let mut v: Vec<char> = Vec::new();
    for c in it: s.chars()
        invariant
            v@ == it.seq().take(it.index() as int),
    {
        v.push(c);
    }
    v
}

/// The string that holds the given characters, in order.
pub fn string_of(v: &Vec<char>) -> (s: String)
    ensures
        s@ == v@,
{
    let mut s = String::new();
    let mut i: usize = 0;
    while i < v.len()
        invariant
            i <= v.len(),
            s@ == v@.take(i as int),
        decreases v.len() - i,
    {
        s.push(v[i]);
        i += 1;
    }
    s
}

/// Whether trimming removes the character.
pub fn is_whitespace(c: char) -> (b: bool)
    ensures
        b == text::is_whitespace(c),
{
    let n: u32 = c as u32;
    (0x09 <= n && n <= 0x0D) || n == 0x20 || n == 0x85 || n == 0xA0 || n == 0x1680 || (0x2000 <= n
        && n <= 0x200A) || n == 0x2028 || n == 0x2029 || n == 0x202F || n == 0x205F || n == 0x3000
}

/// The character in upper case, if it is one of `a`..`z`.
pub fn upper_char(c: char) -> (r: char)
    ensures
        r == text::upper_char(c),
{
    if 'a' <= c && c <= 'z' {
        let n: u8 = c as u8;
        (n - 32) as char
    } else {
        c
    }
}

/// The character in lower case, if it is one of `A`..`Z`.
pub fn lower_char(c: char) -> (r: char)
    ensures
        r == text::lower_char(c),
{
    if 'A' <= c && c <= 'Z' {
        let n: u8 = c as u8;
        (n + 32) as char
    } else {
        c
    }
}

/// The text in upper case.
pub fn upper(s: &Vec<char>) -> (r: Vec<char>)
    ensures
        r@ == text::upper(s@),
{
    let mut r: Vec<char> = Vec::new();
    let mut i: usize = 0;
    while i < s.len()
        invariant
            i <= s.len(),
            r@.len() == i,
            forall|j: int| 0 <= j < i ==> r@[j] == text::upper_char(s@[j]),
        decreases s.len() - i,
    {
        r.push(upper_char(s[i]));
        i += 1;
    }
    r
}

/// The text in lower case.
pub fn lower(s: &Vec<char>) -> (r: Vec<char>)
    ensures
        r@ == text::lower(s@),
{
    let mut r: Vec<char> = Vec::new();
    let mut i: usize = 0;
    while i < s.len()
        invariant
            i <= s.len(),
            r@.len() == i,
            forall|j: int| 0 <= j < i ==> r@[j] == text::lower_char(s@[j]),
        decreases s.len() - i,
    {
        r.push(lower_char(s[i]));
        i += 1;
    }
    r
}

/// The characters of `s` from `a` up to `b`, where `b` is cut down to the
/// length of `s` and `a` to `b`.
pub fn slice(s: &Vec<char>, a: usize, b: usize) -> (r: Vec<char>)
    ensures
        r@ == text::window(s@, a as int, b as int),
{
    let hi: usize = if b < s.len() {
        b
    } else {
        s.len()
    };
    let lo: usize = if a < hi {
        a
    } else {
        hi
    };
    let mut r: Vec<char> = Vec::new();
    let mut i: usize = lo;
    while i < hi
        invariant
            lo <= i <= hi <= s.len(),
            r@ == s@.subrange(lo as int, i as int),
        decreases hi - i,
    {
        r.push(s[i]);
        i += 1;
    }
    r
}

/// Appends `src` to `dst`.
pub fn append(dst: &mut Vec<char>, src: &Vec<char>)
    ensures
        final(dst)@ == old(dst)@ + src@,
{
    let mut i: usize = 0;
    while i < src.len()
        invariant
            i <= src.len(),
            dst@ == old(dst)@ + src@.take(i as int),
        decreases src.len() - i,
    {
        dst.push(src[i]);
        i += 1;
    }
}

/// Whether `p` stands in `s` at position `i`.
pub fn occurs_at(s: &Vec<char>, p: &Vec<char>, i: usize) -> (b: bool)
    ensures
        b == text::occurs_at(s@, p@, i as int),
{
    if p.len() > s.len() || i > s.len() - p.len() {
        return false;
    }
    let mut k: usize = 0;
    while k < p.len()
        invariant
            k <= p.len(),
            i + p.len() <= s.len(),
            forall|j: int| 0 <= j < k ==> s@[i + j] == p@[j],
        decreases p.len() - k,
    {
        if s[i + k] != p[k] {
            return false;
        }
        k += 1;
    }
    assert(s@.subrange(i as int, i + p.len()) =~= p@);
    true
}

/// Whether `s` begins with `p`.
pub fn starts_with(s: &Vec<char>, p: &Vec<char>) -> (b: bool)
    ensures
        b == text::starts_with(s@, p@),
{
    occurs_at(s, p, 0)
}

/// Whether `s` begins with the text of `p`.
pub fn starts_with_str(s: &Vec<char>, p: &str) -> (b: bool)
    ensures
        b == text::starts_with(s@, p@),
{
    starts_with(s, &chars_of(p))
}

/// Whether `s` ends with `p`.
pub fn ends_with(s: &Vec<char>, p: &Vec<char>) -> (b: bool)
    ensures
        b == text::ends_with(s@, p@),
{
    if p.len() > s.len() {
        false
    } else {
        occurs_at(s, p, s.len() - p.len())
    }
}

/// Whether `s` ends with the character `c`.
pub fn ends_with_char(s: &Vec<char>, c: char) -> (b: bool)
    ensures
        b == text::ends_with(s@, seq![c]),
{
    if s.len() == 0 {
        false
    } else {
        let b = s[s.len() - 1] == c;
        assert(s@.subrange(s.len() - 1, s.len() as int) =~= seq![s@[s.len() - 1]]);
        assert(seq![c][0] == c);
        b
    }
}

/// The first position where `p` stands in `s`: `p` stands there and nowhere
/// before; `None` where `s` does not contain `p`.
pub fn find(s: &Vec<char>, p: &Vec<char>) -> (r: Option<usize>)
    ensures
        match r {
            Some(i) => {
                &&& text::find(s@, p@) == Some(i as int)
                &&& text::occurs_at(s@, p@, i as int)
                &&& forall|j: int| 0 <= j < i ==> !text::occurs_at(s@, p@, j)
            },
            None => text::find(s@, p@) is None && !text::contains(s@, p@),
        },
{
    proof {
        text::lemma_find(s@, p@);
    }
    if p.len() > s.len() {
        return None;
    }
    let last: usize = s.len() - p.len();
    let mut i: usize = 0;
    loop
        invariant
            last == s.len() - p.len(),
            i <= last,
            text::find_from(s@, p@, i as int) == text::find(s@, p@),
        decreases last - i,
    {
        proof {
            text::lemma_find(s@, p@);
        }
        if occurs_at(s, p, i) {
            return Some(i);
        }
        if i == last {
            assert(text::find_from(s@, p@, i + 1) is None);
            return None;
        }
        i += 1;
    }
}

/// Whether `p` stands somewhere in `s`.
pub fn contains(s: &Vec<char>, p: &Vec<char>) -> (b: bool)
    ensures
        b == text::contains(s@, p@),
{
    find(s, p).is_some()
}

/// Whether the text of `p` stands somewhere in `s`.
pub fn contains_str(s: &Vec<char>, p: &str) -> (b: bool)
    ensures
        b == text::contains(s@, p@),
{
    contains(s, &chars_of(p))
}

/// The last position of the character `c` in `s`: `c` stands there and
/// nowhere behind; `None` where `c` is not in `s`.
pub fn rfind_char(s: &Vec<char>, c: char) -> (r: Option<usize>)
    ensures
        match r {
            Some(i) => {
                &&& text::rfind_char(s@, c) == Some(i as int)
                &&& i < s.len()
                &&& s@[i as int] == c
                &&& forall|j: int| i < j < s.len() ==> s@[j] != c
            },
            None => text::rfind_char(s@, c) is None && forall|j: int|
                0 <= j < s.len() ==> s@[j] != c,
        },
{
    let mut i: usize = s.len();
    assert(s@.take(s.len() as int) == s@);
    while i > 0
        invariant
            i <= s.len(),
            text::rfind_char(s@.take(i as int), c) == text::rfind_char(s@, c),
        decreases i,
    {
        if s[i - 1] == c {
            proof {
                text::lemma_rfind_char(s@, c);
            }
            return Some(i - 1);
        }
        assert(s@.take(i as int).drop_last() == s@.take(i - 1));
        i -= 1;
    }
    proof {
        text::lemma_rfind_char(s@, c);
    }
    None
}

/// How often the character `c` stands in `s`.
pub fn count_char(s: &Vec<char>, c: char) -> (n: usize)
    ensures
        n == text::count_char(s@, c),
{
    let mut n: usize = 0;
    let mut i: usize = 0;
    while i < s.len()
        invariant
            i <= s.len(),
            n <= i,
            n == text::count_char(s@.take(i as int), c),
        decreases s.len() - i,
    {
        assert(s@.take(i + 1).drop_last() == s@.take(i as int));
        if s[i] == c {
            n += 1;
        }
        i += 1;
    }
    assert(s@.take(s.len() as int) == s@);
    n
}

/// The number of whitespace characters that `s` begins with.
pub fn leading_whitespace(s: &Vec<char>) -> (n: usize)
    ensures
        n == text::leading_whitespace(s@),
        n <= s.len(),
        forall|j: int| 0 <= j < n ==> text::is_whitespace(#[trigger] s@[j]),
        n < s.len() ==> !text::is_whitespace(s@[n as int]),
{
    let mut i: usize = 0;
    assert(s@.skip(0) == s@);
    while i < s.len() && is_whitespace(s[i])
        invariant
            i <= s.len(),
            i + text::leading_whitespace(s@.skip(i as int)) == text::leading_whitespace(s@),
        decreases s.len() - i,
    {
        assert(s@.skip(i as int).drop_first() == s@.skip(i + 1));
        i += 1;
    }
    proof {
        text::lemma_leading_whitespace(s@);
    }
    i
}

/// The number of whitespace characters that `s` ends with.
pub fn trailing_whitespace(s: &Vec<char>) -> (n: usize)
    ensures
        n == text::trailing_whitespace(s@),
        n <= s.len(),
        forall|j: int| s.len() - n <= j < s.len() ==> text::is_whitespace(#[trigger] s@[j]),
        n < s.len() ==> !text::is_whitespace(s@[s.len() - n - 1]),
{
    let mut i: usize = s.len();
    assert(s@.take(s.len() as int) == s@);
    while i > 0 && is_whitespace(s[i - 1])
        invariant
            i <= s.len(),
            (s.len() - i) + text::trailing_whitespace(s@.take(i as int))
                == text::trailing_whitespace(s@),
        decreases i,
    {
        assert(s@.take(i as int).drop_last() == s@.take(i - 1));
        i -= 1;
    }
    proof {
        text::lemma_trailing_whitespace(s@);
    }
    s.len() - i
}

/// `s` without its leading whitespace.
pub fn trim_start(s: &Vec<char>) -> (r: Vec<char>)
    ensures
        r@ == text::trim_start(s@),
{
    let n = leading_whitespace(s);
    slice(s, n, s.len())
}

/// `s` without its trailing whitespace.
pub fn trim_end(s: &Vec<char>) -> (r: Vec<char>)
    ensures
        r@ == text::trim_end(s@),
{
    let n = trailing_whitespace(s);
    slice(s, 0, s.len() - n)
}

/// `s` without leading and trailing whitespace.
pub fn trim(s: &Vec<char>) -> (r: Vec<char>)
    ensures
        r@ == text::trim(s@),
{
    let t = trim_start(s);
    trim_end(&t)
}

/// `s` without the run of `c` at its end.
pub fn trim_end_matches(s: &Vec<char>, c: char) -> (r: Vec<char>)
    ensures
        r@ == text::trim_end_matches(s@, c),
{
    let mut i: usize = s.len();
    assert(s@.take(s.len() as int) == s@);
    while i > 0 && s[i - 1] == c
        invariant
            i <= s.len(),
            (s.len() - i) + text::trailing_run(s@.take(i as int), c) == text::trailing_run(s@, c),
        decreases i,
    {
        assert(s@.take(i as int).drop_last() == s@.take(i - 1));
        i -= 1;
    }
    slice(s, 0, i)
}

/// `s` with every occurrence of `from` replaced by `to`, scanning from the
/// left. An empty `from` replaces nothing.
pub fn replace_all(s: &Vec<char>, from: &Vec<char>, to: &Vec<char>) -> (r: Vec<char>)
    ensures
        r@ == text::replace_all(s@, from@, to@),
{
    let mut r: Vec<char> = Vec::new();
    let mut i: usize = 0;
    assert(s@.skip(0) == s@);
    if from.len() > 0 {
        while i < s.len() && from.len() <= s.len() - i
            invariant
                i <= s.len(),
                from.len() > 0,
                r@ + text::replace_all(s@.skip(i as int), from@, to@) == text::replace_all(
                    s@,
                    from@,
                    to@,
                ),
            decreases s.len() - i,
        {
            let ghost rest = s@.skip(i as int);
            assert(rest.subrange(0, from.len() as int) == s@.subrange(i as int, i + from.len()));
            if occurs_at(s, from, i) {
                assert(rest.skip(from.len() as int) == s@.skip(i + from.len()));
                append(&mut r, to);
                i += from.len();
            } else {
                assert(rest.drop_first() == s@.skip(i + 1));
                r.push(s[i]);
                i += 1;
            }
        }
    }
    let tail = slice(s, i, s.len());
    append(&mut r, &tail);
    r
}

/// `s` without the stretches that read `token` when upper-cased. `token` is
/// given in upper case; an empty one removes nothing.
pub fn remove_ignoring_case(s: &Vec<char>, token: &Vec<char>) -> (r: Vec<char>)
    ensures
        r@ == text::remove_ignoring_case(s@, token@),
{
    let folded = upper(s);
    let mut r: Vec<char> = Vec::new();
    let mut i: usize = 0;
    assert(s@.skip(0) == s@);
    if token.len() > 0 {
        while i < s.len() && token.len() <= s.len() - i
            invariant
                i <= s.len(),
                token.len() > 0,
                folded@ == text::upper(s@),
                r@ + text::remove_ignoring_case(s@.skip(i as int), token@)
                    == text::remove_ignoring_case(s@, token@),
            decreases s.len() - i,
        {
            let ghost rest = s@.skip(i as int);
            proof {
                text::lemma_upper_subrange(s@, i as int, i + token.len());
                text::lemma_upper_subrange(rest, 0, token.len() as int);
                assert(rest.subrange(0, token.len() as int) == s@.subrange(
                    i as int,
                    i + token.len(),
                ));
            }
            if occurs_at(&folded, token, i) {
                assert(rest.skip(token.len() as int) == s@.skip(i + token.len()));
                i += token.len();
            } else {
                assert(rest.drop_first() == s@.skip(i + 1));
                r.push(s[i]);
                i += 1;
            }
        }
    }
    let tail = slice(s, i, s.len());
    append(&mut r, &tail);
    r
}

/// The lines of `s`, without their terminators.
pub fn split_lines(s: &Vec<char>) -> (lines: Vec<Vec<char>>)
    ensures
        texts(lines@) == text::split_lines(s@),
{
    let mut lines: Vec<Vec<char>> = Vec::new();
    let mut start: usize = 0;
    assert(s@.skip(0) == s@);
    while start < s.len()
        invariant
            start <= s.len(),
            texts(lines@) + text::split_lines(s@.skip(start as int)) == text::split_lines(s@),
        decreases s.len() - start,
    {
        let ghost rest = s@.skip(start as int);
        let mut end: usize = start;
        while end < s.len() && s[end] != '\n'
            invariant
                start <= end <= s.len(),
                (end - start) + text::line_end(s@.skip(end as int)) == text::line_end(
                    s@.skip(start as int),
                ),
            decreases s.len() - end,
        {
            assert(s@.skip(end as int).drop_first() == s@.skip(end + 1));
            end += 1;
        }
        if end == s.len() {
            let line = slice(s, start, end);
            lines.push(line);
            start = end;
        } else {
            let stop: usize = if end > start && s[end - 1] == '\r' {
                end - 1
            } else {
                end
            };
            let line = slice(s, start, stop);
            assert(line@ == text::without_carriage_return(rest.take(end - start)));
            lines.push(line);
            assert(rest.skip(end - start + 1) == s@.skip(end + 1));
            start = end + 1;
        }
    }
    lines
}

/// The lines joined by single line feeds.
pub fn join_lines(lines: &Vec<Vec<char>>) -> (r: Vec<char>)
    ensures
        r@ == text::join_lines(texts(lines@)),
{
    let mut r: Vec<char> = Vec::new();
    let mut i: usize = 0;
    while i < lines.len()
        invariant
            i <= lines.len(),
            r@ == text::join_lines(texts(lines@).take(i as int)),
        decreases lines.len() - i,
    {
        let ghost upto = texts(lines@).take(i + 1);
        assert(upto.drop_last() == texts(lines@).take(i as int));
        if i > 0 {
            r.push('\n');
        }
        append(&mut r, &lines[i]);
        i += 1;
    }
    assert(texts(lines@).take(lines.len() as int) == texts(lines@));
    r
}

} // verus!
