//! Text as a sequence of characters: searching, splitting into lines, trimming
//! and reading decimal numbers.
//!
//! Every function here works on `&[char]` and states its result over `Seq<char>`,
//! the same model that `str` and `String` have through their view.

use vstd::prelude::*;
use vstd::std_specs::iter::IteratorSpec;

verus! {

/// Collects the characters of `s`, in order.
pub fn to_chars(s: &str) -> (out: Vec<char>)
    ensures
        out@ == s@,
{
    broadcast use vstd::string::group_string_axioms;

    let mut out: Vec<char> = Vec::new();
    for c in it: s.chars()
        invariant
            it.seq() == s@,
            out@ == s@.take(it.index() as int),
    {
        out.push(c);
        assert(s@.take(it.index() + 1) == s@.take(it.index() as int).push(c));
    }
    out
}

/// The position of the first character of `s` that occurs in `set`, or
/// `s.len()` when no character of `s` does.
pub open spec fn first_of(s: Seq<char>, set: Seq<char>) -> nat
    decreases s.len(),
{
    if s.len() == 0 || set.contains(s[0]) {
        0
    } else {
        (1 + first_of(s.drop_first(), set)) as nat
    }
}

/// `first_of` is in range, nothing before it is in `set`, and the character at
/// it is.
pub proof fn lemma_first_of(s: Seq<char>, set: Seq<char>)
    ensures
        first_of(s, set) <= s.len(),
        forall|j: int| 0 <= j < first_of(s, set) ==> !set.contains(#[trigger] s[j]),
        first_of(s, set) < s.len() ==> set.contains(s[first_of(s, set) as int]),
    decreases s.len(),
{
    if s.len() == 0 || set.contains(s[0]) {
    } else {
        let rest = s.drop_first();
        lemma_first_of(rest, set);
        assert forall|j: int| 0 <= j < first_of(s, set) implies !set.contains(#[trigger] s[j]) by {
            if j > 0 {
                assert(s[j] == rest[j - 1]);
            }
        }
        if first_of(s, set) < s.len() {
            assert(s[first_of(s, set) as int] == rest[first_of(rest, set) as int]);
        }
    }
}

/// A position with the three properties of `lemma_first_of` is `first_of`.
pub proof fn lemma_first_of_is(s: Seq<char>, set: Seq<char>, i: int)
    requires
        0 <= i <= s.len(),
        forall|j: int| 0 <= j < i ==> !set.contains(#[trigger] s[j]),
        i < s.len() ==> set.contains(s[i]),
    ensures
        first_of(s, set) == i,
    decreases s.len(),
{
    if s.len() == 0 {
    } else if set.contains(s[0]) {
        if i > 0 {
            assert(!set.contains(s[0]));
        }
    } else {
        let rest = s.drop_first();
        assert forall|j: int| 0 <= j < i - 1 implies !set.contains(#[trigger] rest[j]) by {
            assert(rest[j] == s[j + 1]);
        }
        if i < s.len() {
            assert(rest[i - 1] == s[i]);
        }
        lemma_first_of_is(rest, set, i - 1);
    }
}

/// Whether `c` is one of `set`.
pub fn is_one_of(c: char, set: &[char]) -> (found: bool)
    ensures
        found == set@.contains(c),
{
    let mut k: usize = 0;
    while k < set.len()
        invariant
            k <= set.len(),
            forall|j: int| 0 <= j < k ==> set@[j] != c,
        decreases set.len() - k,
    {
        if set[k] == c {
            return true;
        }
        k += 1;
    }
    false
}

/// Finds the first character of `s` that occurs in `set`; gives `s.len()` when
/// there is none.
pub fn find_any(s: &[char], set: &[char]) -> (at: usize)
    ensures
        at == first_of(s@, set@),
        at <= s.len(),
{
    let mut i: usize = 0;
    while i < s.len()
        invariant
            i <= s.len(),
            forall|j: int| 0 <= j < i ==> !set@.contains(#[trigger] s@[j]),
        decreases s.len() - i,
    {
        if is_one_of(s[i], set) {
            proof {
                lemma_first_of_is(s@, set@, i as int);
            }
            return i;
        }
        i += 1;
    }
    proof {
        lemma_first_of_is(s@, set@, i as int);
    }
    i
}

/// A line without the carriage return that may end it.
pub open spec fn strip_cr(line: Seq<char>) -> Seq<char> {
    if line.len() > 0 && line.last() == '\r' {
        line.drop_last()
    } else {
        line
    }
}

/// The lines of `s`.
///
/// A line ends at each line feed. The line feed is not part of the line, nor
/// is a carriage return that stands directly before it. Text after the last
/// line feed is a line of its own, kept as it is; no line follows a final line
/// feed, and empty text has no lines.
pub open spec fn lines(s: Seq<char>) -> Seq<Seq<char>>
    decreases s.len(),
{
    if s.len() == 0 {
        Seq::empty()
    } else {
        let n = first_of(s, seq!['\n']) as int;
        if n >= s.len() {
            seq![s]
        } else {
            seq![strip_cr(s.take(n))] + lines(s.skip(n + 1))
        }
    }
}

/// Whether `l` can stand as a line of its own: it holds no line feed and does
/// not end in a carriage return.
pub open spec fn is_line(l: Seq<char>) -> bool {
    &&& forall|i: int| 0 <= i < l.len() ==> #[trigger] l[i] != '\n'
    &&& l.len() > 0 ==> l.last() != '\r'
}

/// The text that holds the lines `ls`, each ended by a line feed.
pub open spec fn joined(ls: Seq<Seq<char>>) -> Seq<char>
    decreases ls.len(),
{
    if ls.len() == 0 {
        Seq::empty()
    } else {
        ls[0] + seq!['\n'] + joined(ls.drop_first())
    }
}

/// Text that begins with a part without line feed, followed by a line feed,
/// has that part as its first line; the other lines are those of the rest.
pub proof fn lemma_lines_first(l: Seq<char>, rest: Seq<char>)
    requires
        forall|i: int| 0 <= i < l.len() ==> #[trigger] l[i] != '\n',
    ensures
        lines(l + seq!['\n'] + rest) == seq![strip_cr(l)] + lines(rest),
{
    let s = l + seq!['\n'] + rest;
    let feed = seq!['\n'];
    assert forall|j: int| 0 <= j < l.len() implies !feed.contains(#[trigger] s[j]) by {
        assert(s[j] == l[j]);
    }
    let n = l.len() as int;
    assert(s[n] == '\n');
    assert(feed[0] == '\n');
    lemma_first_of_is(s, feed, n);
    assert(s.take(n) == l);
    assert(s.skip(n + 1) == rest);
}

/// Lines that are written out, each with a line feed after it, are read back
/// as they were.
pub proof fn lemma_lines_of_joined(ls: Seq<Seq<char>>)
    requires
        forall|i: int| 0 <= i < ls.len() ==> is_line(#[trigger] ls[i]),
    ensures
        lines(joined(ls)) == ls,
    decreases ls.len(),
{
    if ls.len() > 0 {
        let tail = ls.drop_first();
        assert forall|i: int| 0 <= i < tail.len() implies is_line(#[trigger] tail[i]) by {
            assert(tail[i] == ls[i + 1]);
        }
        lemma_lines_of_joined(tail);
        assert(is_line(ls[0]));
        lemma_lines_first(ls[0], joined(tail));
        assert(seq![ls[0]] + tail == ls);
    }
}

/// No line holds a line feed.
pub proof fn lemma_lines_hold_no_feed(s: Seq<char>, i: int, k: int)
    requires
        0 <= i < lines(s).len(),
        0 <= k < lines(s)[i].len(),
    ensures
        lines(s)[i][k] != '\n',
    decreases s.len(),
{
    let feed = seq!['\n'];
    let n = first_of(s, feed) as int;
    lemma_first_of(s, feed);
    assert(feed[0] == '\n');
    if n >= s.len() {
        assert(!feed.contains(s[k]));
    } else if i == 0 {
        assert(!feed.contains(s[k]));
    } else {
        lemma_lines_hold_no_feed(s.skip(n + 1), i - 1, k);
    }
}

/// The texts of a sequence of borrowed lines.
pub open spec fn texts(ls: Seq<&[char]>) -> Seq<Seq<char>> {
    ls.map_values(|l: &[char]| l@)
}

/// Splits `text` into its lines, each a part of `text`.
pub fn split_lines<'a>(text: &'a [char]) -> (out: Vec<&'a [char]>)
    ensures
        texts(out@) == lines(text@),
{
    let mut out: Vec<&'a [char]> = Vec::new();
    let mut rest: &'a [char] = text;
    assert(texts(out@) + lines(rest@) == lines(text@));
    while rest.len() > 0
        invariant
            lines(text@) == texts(out@) + lines(rest@),
        decreases rest.len(),
    {
        let ghost before = out@;
        let ghost tail = rest@;
        let feed = ['\n'];
        let n = find_any(rest, &feed);
        assert(feed@ == seq!['\n']);
        if n >= rest.len() {
            out.push(rest);
            rest = &rest[n..n];
            assert(texts(out@) == texts(before) + seq![tail]);
        } else {
            let whole = &rest[0..n];
            let line = if n > 0 && whole[n - 1] == '\r' {
                &whole[0..n - 1]
            } else {
                whole
            };
            assert(line@ == strip_cr(tail.take(n as int)));
            out.push(line);
            rest = &rest[n + 1..rest.len()];
            assert(rest@ == tail.skip(n + 1));
            assert(texts(out@) == texts(before) + seq![line@]);
        }
    }
    assert(lines(rest@) == Seq::<Seq<char>>::empty());
    out
}

/// Whether `chars` spells exactly the text of `lit`.
pub fn is_text(chars: &[char], lit: &str) -> (same: bool)
    ensures
        same == (chars@ == lit@),
{
    broadcast use vstd::string::group_string_axioms;

    let mut i: usize = 0;
    for c in it: lit.chars()
        invariant
            it.seq() == lit@,
            i == it.index(),
            i <= chars.len(),
            chars@.take(i as int) == lit@.take(i as int),
    {
        if i >= chars.len() || chars[i] != c {
            assert(chars@ != lit@) by {
                if chars@ == lit@ {
                    assert(chars@[i as int] == c);
                }
            }
            return false;
        }
        assert(chars@.take(i + 1) == chars@.take(i as int).push(c));
        assert(lit@.take(i + 1) == lit@.take(i as int).push(c));
        i += 1;
    }
    assert(lit@.take(i as int) == lit@);
    if i == chars.len() {
        assert(chars@.take(i as int) == chars@);
        true
    } else {
        false
    }
}

/// The position at which `pat` first occurs in `s`; `s.len()` when `pat` is
/// not empty and occurs nowhere.
pub open spec fn first_occurrence(s: Seq<char>, pat: Seq<char>) -> nat
    decreases s.len(),
{
    if s.len() == 0 || pat.is_prefix_of(s) {
        0
    } else {
        (1 + first_occurrence(s.drop_first(), pat)) as nat
    }
}

/// `s` cut at the first occurrence of `sep`: what stands before it and what
/// stands after it. `None` when `sep` does not occur.
pub open spec fn split_once(s: Seq<char>, sep: Seq<char>) -> Option<(Seq<char>, Seq<char>)> {
    let i = first_occurrence(s, sep) as int;
    if sep.is_prefix_of(s.skip(i)) {
        Some((s.take(i), s.skip(i + sep.len())))
    } else {
        None
    }
}

/// `first_occurrence` is in range and no earlier position starts an occurrence.
pub proof fn lemma_first_occurrence(s: Seq<char>, pat: Seq<char>)
    ensures
        first_occurrence(s, pat) <= s.len(),
        forall|j: int| 0 <= j < first_occurrence(s, pat) ==> !pat.is_prefix_of(#[trigger] s.skip(j)),
    decreases s.len(),
{
    if s.len() == 0 || pat.is_prefix_of(s) {
    } else {
        let rest = s.drop_first();
        lemma_first_occurrence(rest, pat);
        assert forall|j: int| 0 <= j < first_occurrence(s, pat) implies !pat.is_prefix_of(
            #[trigger] s.skip(j),
        ) by {
            if j == 0 {
                assert(s.skip(0) == s);
            } else {
                assert(s.skip(j) == rest.skip(j - 1));
            }
        }
    }
}

/// A position that no occurrence starts before, and that either starts one or
/// is the end of `s`, is `first_occurrence`.
pub proof fn lemma_first_occurrence_is(s: Seq<char>, pat: Seq<char>, i: int)
    requires
        0 <= i <= s.len(),
        forall|j: int| 0 <= j < i ==> !pat.is_prefix_of(#[trigger] s.skip(j)),
        i < s.len() ==> pat.is_prefix_of(s.skip(i)),
    ensures
        first_occurrence(s, pat) == i,
    decreases s.len(),
{
    assert(s.skip(0) == s);
    if s.len() == 0 || pat.is_prefix_of(s) {
    } else {
        let rest = s.drop_first();
        assert forall|j: int| 0 <= j < i - 1 implies !pat.is_prefix_of(#[trigger] rest.skip(j)) by {
            assert(rest.skip(j) == s.skip(j + 1));
        }
        assert(rest.skip(i - 1) == s.skip(i));
        lemma_first_occurrence_is(rest, pat, i - 1);
    }
}

/// Whether `sep` occurs nowhere in `head + sep` but at its end.
pub open spec fn is_free_of(head: Seq<char>, sep: Seq<char>) -> bool {
    forall|j: int| 0 <= j < head.len() ==> !sep.is_prefix_of(#[trigger] (head + sep).skip(j))
}

/// Two texts that are written with a separator between them are cut apart
/// again where the separator stands, if the separator occurs no earlier.
pub proof fn lemma_split_once_recovers(head: Seq<char>, sep: Seq<char>, tail: Seq<char>)
    requires
        sep.len() > 0,
        is_free_of(head, sep),
    ensures
        split_once(head + sep + tail, sep) == Some((head, tail)),
{
    let s = head + sep + tail;
    let n = head.len() as int;
    assert forall|j: int| 0 <= j < n implies !sep.is_prefix_of(#[trigger] s.skip(j)) by {
        let short = (head + sep).skip(j);
        assert(!sep.is_prefix_of(short));
        if sep.is_prefix_of(s.skip(j)) {
            assert(short.len() >= sep.len());
            assert(short.subrange(0, sep.len() as int) =~= s.skip(j).subrange(0, sep.len() as int));
        }
    }
    assert(s.skip(n).subrange(0, sep.len() as int) =~= sep);
    lemma_first_occurrence_is(s, sep, n);
    assert(s.take(n) =~= head);
    assert(s.skip(n + sep.len()) =~= tail);
}

/// Text in which the separator does not occur is not cut.
pub proof fn lemma_split_once_none(s: Seq<char>, sep: Seq<char>)
    requires
        sep.len() > 0,
        forall|j: int| 0 <= j <= s.len() ==> !sep.is_prefix_of(#[trigger] s.skip(j)),
    ensures
        split_once(s, sep) is None,
{
    lemma_first_occurrence(s, sep);
}

/// Whether `pat` stands in `s` at position `at`.
pub fn occurs_at(s: &[char], at: usize, pat: &[char]) -> (found: bool)
    requires
        at <= s.len(),
    ensures
        found == pat@.is_prefix_of(s@.skip(at as int)),
{
    if pat.len() > s.len() - at {
        return false;
    }
    let mut k: usize = 0;
    while k < pat.len()
        invariant
            at + pat.len() <= s.len(),
            k <= pat.len(),
            forall|j: int| 0 <= j < k ==> pat@[j] == s@[at + j],
        decreases pat.len() - k,
    {
        if s[at + k] != pat[k] {
            assert(!pat@.is_prefix_of(s@.skip(at as int))) by {
                if pat@.is_prefix_of(s@.skip(at as int)) {
                    assert(s@.skip(at as int).subrange(0, pat@.len() as int)[k as int] == pat@[k as int]);
                }
            }
            return false;
        }
        k += 1;
    }
    assert(s@.skip(at as int).subrange(0, pat@.len() as int) =~= pat@);
    true
}

/// Cuts `s` at the first occurrence of `sep`.
pub fn cut_once<'a>(s: &'a [char], sep: &[char]) -> (out: Option<(&'a [char], &'a [char])>)
    ensures
        match out {
            Some((head, tail)) => split_once(s@, sep@) == Some((head@, tail@)),
            None => split_once(s@, sep@) is None,
        },
{
    let mut i: usize = 0;
    while i < s.len()
        invariant
            i <= s.len(),
            forall|j: int| 0 <= j < i ==> !sep@.is_prefix_of(#[trigger] s@.skip(j)),
        decreases s.len() - i,
    {
        if occurs_at(s, i, sep) {
            proof {
                lemma_first_occurrence_is(s@, sep@, i as int);
            }
            let head = &s[0..i];
            let tail = &s[i + sep.len()..s.len()];
            return Some((head, tail));
        }
        i += 1;
    }
    proof {
        lemma_first_occurrence_is(s@, sep@, i as int);
    }
    if occurs_at(s, i, sep) {
        let head = &s[0..i];
        let tail = &s[i + sep.len()..s.len()];
        Some((head, tail))
    } else {
        None
    }
}

/// Whether `c` is one of the ten ASCII digits.
pub open spec fn is_digit(c: char) -> bool {
    '0' <= c <= '9'
}

/// The number that a digit stands for.
pub open spec fn digit_value(c: char) -> nat {
    (c as int - '0' as int) as nat
}

/// The number that a sequence of digits spells in base ten; 0 for no digits.
pub open spec fn digits_value(s: Seq<char>) -> nat
    decreases s.len(),
{
    if s.len() == 0 {
        0
    } else {
        digits_value(s.drop_last()) * 10 + digit_value(s.last())
    }
}

/// Whether every character of `s` is a digit.
pub open spec fn all_digits(s: Seq<char>) -> bool {
    forall|i: int| 0 <= i < s.len() ==> is_digit(#[trigger] s[i])
}

/// The number that `s` spells, when `s` is a decimal numeral of a `u64`: an
/// optional `+`, then one or more digits, with a value that fits. `None` for
/// any other text; leading zeros are accepted.
pub open spec fn decimal_u64(s: Seq<char>) -> Option<u64> {
    let digits = if s.len() > 0 && s[0] == '+' {
        s.drop_first()
    } else {
        s
    };
    if digits.len() > 0 && all_digits(digits) && digits_value(digits) <= u64::MAX {
        Some(digits_value(digits) as u64)
    } else {
        None
    }
}

/// A prefix of a sequence of digits spells a number that is no larger.
pub proof fn lemma_digits_value_prefix(s: Seq<char>, k: int)
    requires
        0 <= k <= s.len(),
    ensures
        digits_value(s.take(k)) <= digits_value(s),
    decreases s.len() - k,
{
    if k == s.len() {
        assert(s.take(k) == s);
    } else {
        lemma_digits_value_prefix(s.drop_last(), k);
        assert(s.drop_last().take(k) == s.take(k));
    }
}

/// Reads a decimal numeral of a `u64`.
pub fn parse_u64(s: &[char]) -> (out: Option<u64>)
    ensures
        out == decimal_u64(s@),
{
    let digits = if s.len() > 0 && s[0] == '+' {
        &s[1..s.len()]
    } else {
        s
    };
    if digits.len() == 0 {
        return None;
    }
    let mut value: u64 = 0;
    let mut i: usize = 0;
    while i < digits.len()
        invariant
            i <= digits.len(),
            digits.len() > 0,
            digits@ == if s@.len() > 0 && s@[0] == '+' {
                s@.drop_first()
            } else {
                s@
            },
            all_digits(digits@.take(i as int)),
            value == digits_value(digits@.take(i as int)),
        decreases digits.len() - i,
    {
        let c = digits[i];
        if c < '0' || c > '9' {
            assert(!is_digit(digits@[i as int]));
            return None;
        }
        let d: u64 = (c as u32 - '0' as u32) as u64;
        proof {
            let next = digits@.take(i + 1);
            assert(next.drop_last() == digits@.take(i as int));
            assert(next.last() == c);
            assert(all_digits(next)) by {
                assert forall|j: int| 0 <= j < next.len() implies is_digit(#[trigger] next[j]) by {
                    if j < i {
                        assert(next[j] == digits@.take(i as int)[j]);
                    }
                }
            }
            lemma_digits_value_prefix(digits@, i + 1);
        }
        let scaled = match value.checked_mul(10) {
            Some(v) => v,
            None => {
                return None;
            },
        };
        value = match scaled.checked_add(d) {
            Some(v) => v,
            None => {
                return None;
            },
        };
        i += 1;
    }
    assert(digits@.take(i as int) == digits@);
    Some(value)
}

/// Whether `c` is white space: one of the 25 characters with the Unicode
/// property `White_Space`.
pub open spec fn is_whitespace(c: char) -> bool {
    ||| '\u{9}' <= c <= '\u{d}'
    ||| c == ' '
    ||| c == '\u{85}'
    ||| c == '\u{a0}'
    ||| c == '\u{1680}'
    ||| '\u{2000}' <= c <= '\u{200a}'
    ||| c == '\u{2028}'
    ||| c == '\u{2029}'
    ||| c == '\u{202f}'
    ||| c == '\u{205f}'
    ||| c == '\u{3000}'
}

/// Whether `c` is white space.
pub fn char_is_whitespace(c: char) -> (white: bool)
    ensures
        white == is_whitespace(c),
{
    ('\u{9}' <= c && c <= '\u{d}') || c == ' ' || c == '\u{85}' || c == '\u{a0}' || c
        == '\u{1680}' || ('\u{2000}' <= c && c <= '\u{200a}') || c == '\u{2028}' || c
        == '\u{2029}' || c == '\u{202f}' || c == '\u{205f}' || c == '\u{3000}'
}

/// `s` without the white space that it begins with.
pub open spec fn trim_start(s: Seq<char>) -> Seq<char>
    decreases s.len(),
{
    if s.len() > 0 && is_whitespace(s[0]) {
        trim_start(s.drop_first())
    } else {
        s
    }
}

/// `s` without the white space that it ends with.
pub open spec fn trim_end(s: Seq<char>) -> Seq<char>
    decreases s.len(),
{
    if s.len() > 0 && is_whitespace(s.last()) {
        trim_end(s.drop_last())
    } else {
        s
    }
}

/// `s` without the white space around it.
pub open spec fn trimmed(s: Seq<char>) -> Seq<char> {
    trim_end(trim_start(s))
}

/// The part of `s` that is left when the white space around it is taken away.
pub fn trim<'a>(s: &'a [char]) -> (out: &'a [char])
    ensures
        out@ == trimmed(s@),
{
    let mut i: usize = 0;
    assert(s@.skip(0) == s@);
    while i < s.len() && char_is_whitespace(s[i])
        invariant
            i <= s.len(),
            trim_start(s@) == trim_start(s@.skip(i as int)),
        decreases s.len() - i,
    {
        assert(s@.skip(i as int).drop_first() == s@.skip(i + 1));
        i += 1;
    }
    assert(trim_start(s@) == s@.skip(i as int));
    let mut j: usize = s.len();
    assert(s@.subrange(i as int, j as int) == s@.skip(i as int));
    while j > i && char_is_whitespace(s[j - 1])
        invariant
            i <= j <= s.len(),
            trimmed(s@) == trim_end(s@.subrange(i as int, j as int)),
        decreases j,
    {
        assert(s@.subrange(i as int, j as int).drop_last() == s@.subrange(i as int, j - 1));
        j -= 1;
    }
    &s[i..j]
}

/// Whether `a` stands before `b` in lexicographic order: at the first
/// position where they differ `a` has the smaller code point, or `a` ends
/// there and `b` does not.
pub open spec fn text_lt(a: Seq<char>, b: Seq<char>) -> bool
    decreases a.len(),
{
    if b.len() == 0 {
        false
    } else if a.len() == 0 {
        true
    } else if a[0] != b[0] {
        a[0] < b[0]
    } else {
        text_lt(a.drop_first(), b.drop_first())
    }
}

/// Of two texts exactly one of these holds: the first stands before the
/// second, they are equal, or the second stands before the first.
pub proof fn lemma_text_lt_total(a: Seq<char>, b: Seq<char>)
    ensures
        text_lt(a, b) || a == b || text_lt(b, a),
        !(text_lt(a, b) && a == b),
        !(text_lt(b, a) && a == b),
        !(text_lt(a, b) && text_lt(b, a)),
    decreases a.len(),
{
    if a.len() == 0 || b.len() == 0 {
        if a.len() == 0 && b.len() == 0 {
            assert(a =~= b);
        }
    } else if a[0] != b[0] {
    } else {
        lemma_text_lt_total(a.drop_first(), b.drop_first());
        if a.drop_first() == b.drop_first() {
            assert(a =~= seq![a[0]] + a.drop_first());
            assert(b =~= seq![b[0]] + b.drop_first());
        }
        if a == b {
            assert(a.drop_first() == b.drop_first());
        }
    }
}

/// The order of texts is transitive.
pub proof fn lemma_text_lt_transitive(a: Seq<char>, b: Seq<char>, c: Seq<char>)
    requires
        text_lt(a, b),
        text_lt(b, c),
    ensures
        text_lt(a, c),
    decreases a.len(),
{
    if a.len() > 0 && a[0] == b[0] && b[0] == c[0] {
        lemma_text_lt_transitive(a.drop_first(), b.drop_first(), c.drop_first());
    }
}

} // verus!
