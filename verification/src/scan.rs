//! Scans over text: white space and trimming, searching and splitting,
//! words, and unsigned numbers. The scans that take a text apart work on its
//! characters and name the parts by their positions.

use vstd::prelude::*;
use crate::text::digits_value;
use crate::text::lemma_digits_bad;
use crate::text::lemma_digits_prefix;

verus! {

/// Whether a character is white space: a blank, a tab, one of the line
/// ends, or one of the other spaces of the character set.
pub open spec fn is_space(c: char) -> bool {
    ||| ('\u{9}' <= c && c <= '\u{d}')
    ||| c == ' '
    ||| c == '\u{85}'
    ||| c == '\u{a0}'
    ||| c == '\u{1680}'
    ||| ('\u{2000}' <= c && c <= '\u{200a}')
    ||| c == '\u{2028}'
    ||| c == '\u{2029}'
    ||| c == '\u{202f}'
    ||| c == '\u{205f}'
    ||| c == '\u{3000}'
}

/// Whether a character is white space.
pub fn char_is_space(c: char) -> (space: bool)
    ensures
        space == is_space(c),
{
    ('\u{9}' <= c && c <= '\u{d}') || c == ' ' || c == '\u{85}' || c == '\u{a0}' || c
        == '\u{1680}' || ('\u{2000}' <= c && c <= '\u{200a}') || c == '\u{2028}' || c
        == '\u{2029}' || c == '\u{202f}' || c == '\u{205f}' || c == '\u{3000}'
}

/// The text without the white space at its start.
pub open spec fn trimmed_start(s: Seq<char>) -> Seq<char>
    decreases s.len(),
{
    if s.len() > 0 && is_space(s[0]) {
        trimmed_start(s.drop_first())
    } else {
        s
    }
}

/// The text without the white space at its end.
pub open spec fn trimmed_end(s: Seq<char>) -> Seq<char>
    decreases s.len(),
{
    if s.len() > 0 && is_space(s.last()) {
        trimmed_end(s.drop_last())
    } else {
        s
    }
}

/// The text without the white space at its start and at its end.
pub open spec fn trimmed(s: Seq<char>) -> Seq<char> {
    trimmed_end(trimmed_start(s))
}

proof fn lemma_trimmed_start(s: Seq<char>, from: int)
    requires
        0 <= from <= s.len(),
        forall|i: int| 0 <= i < from ==> is_space(#[trigger] s[i]),
        from < s.len() ==> !is_space(s[from]),
    ensures
        trimmed_start(s) == s.subrange(from, s.len() as int),
    decreases from,
{
    if from == 0 {
        assert(s.subrange(0, s.len() as int) =~= s);
    } else {
        let rest = s.drop_first();
        assert forall|i: int| 0 <= i < from - 1 implies is_space(#[trigger] rest[i]) by {
            assert(rest[i] == s[i + 1]);
        }
        if from - 1 < rest.len() {
            assert(rest[from - 1] == s[from]);
        }
        lemma_trimmed_start(rest, from - 1);
        assert(rest.subrange(from - 1, rest.len() as int) =~= s.subrange(from, s.len() as int));
    }
}

proof fn lemma_trimmed_end(s: Seq<char>, to: int)
    requires
        0 <= to <= s.len(),
        forall|i: int| to <= i < s.len() ==> is_space(#[trigger] s[i]),
        to > 0 ==> !is_space(s[to - 1]),
    ensures
        trimmed_end(s) == s.subrange(0, to),
    decreases s.len() - to,
{
    if to == s.len() {
        assert(s.subrange(0, to) =~= s);
        if s.len() > 0 {
            assert(s.last() == s[to - 1]);
        }
    } else {
        let front = s.drop_last();
        assert(is_space(s[s.len() - 1]));
        assert forall|i: int| to <= i < front.len() implies is_space(#[trigger] front[i]) by {
            assert(front[i] == s[i]);
        }
        if to > 0 {
            assert(front[to - 1] == s[to - 1]);
        }
        lemma_trimmed_end(front, to);
        assert(front.subrange(0, to) =~= s.subrange(0, to));
    }
}

/// The part of `s` without the white space at its start and at its end.
pub fn trim(s: &str) -> (t: &str)
    ensures
        t@ == trimmed(s@),
{
    let n = s.unicode_len();
    let mut from: usize = 0;
    while from < n && char_is_space(s.get_char(from))
        invariant
            from <= n,
            n == s@.len(),
            forall|i: int| 0 <= i < from ==> is_space(#[trigger] s@[i]),
        decreases n - from,
    {
        from += 1;
    }
    let mut to: usize = n;
    while to > from && char_is_space(s.get_char(to - 1))
        invariant
            from <= to <= n,
            n == s@.len(),
            forall|i: int| to <= i < n ==> is_space(#[trigger] s@[i]),
        decreases to,
    {
        to -= 1;
    }
    proof {
        lemma_trimmed_start(s@, from as int);
        let rest = s@.subrange(from as int, n as int);
        assert forall|i: int| to - from <= i < rest.len() implies is_space(#[trigger] rest[i]) by {
            assert(rest[i] == s@[i + from]);
        }
        if to > from {
            assert(rest[to - from - 1] == s@[to - 1]);
        }
        lemma_trimmed_end(rest, to - from);
        assert(rest.subrange(0, to - from) =~= s@.subrange(from as int, to as int));
    }
    s.substring_char(from, to)
}

/// Whether `needle` stands in `haystack` at position `at`.
pub open spec fn occurs_at(haystack: Seq<char>, needle: Seq<char>, at: int) -> bool {
    0 <= at && at + needle.len() <= haystack.len() && haystack.subrange(
        at,
        at + needle.len(),
    ) == needle
}

/// Whether `needle` stands somewhere in `haystack`.
pub open spec fn has_text(haystack: Seq<char>, needle: Seq<char>) -> bool {
    exists|at: int| occurs_at(haystack, needle, at)
}

fn matches_at(haystack: &str, needle: &str, at: usize, h: usize, n: usize) -> (found: bool)
    requires
        h == haystack@.len(),
        n == needle@.len(),
        at + n <= h,
    ensures
        found == occurs_at(haystack@, needle@, at as int),
{
    let mut k: usize = 0;
    while k < n
        invariant
            k <= n,
            h == haystack@.len(),
            n == needle@.len(),
            at + n <= h,
            forall|i: int| 0 <= i < k ==> haystack@[at + i] == needle@[i],
        decreases n - k,
    {
        if haystack.get_char(at + k) != needle.get_char(k) {
            proof {
                let part = haystack@.subrange(at as int, at + n);
                assert(part[k as int] == haystack@[at + k]);
            }
            return false;
        }
        k += 1;
    }
    assert(haystack@.subrange(at as int, at + n) =~= needle@);
    true
}

/// Whether `needle` stands somewhere in `haystack`.
pub fn contains_text(haystack: &str, needle: &str) -> (found: bool)
    ensures
        found == has_text(haystack@, needle@),
{
    let h = haystack.unicode_len();
    let n = needle.unicode_len();
    if n > h {
        return false;
    }
    if n == 0 {
        assert(haystack@.subrange(0, 0) =~= needle@);
        assert(occurs_at(haystack@, needle@, 0));
        return true;
    }
    let mut at: usize = 0;
    while at <= h - n
        invariant
            0 < n <= h,
            at <= h - n + 1,
            h == haystack@.len(),
            n == needle@.len(),
            forall|i: int| 0 <= i < at ==> !occurs_at(haystack@, needle@, i),
        decreases h - n + 1 - at,
    {
        if matches_at(haystack, needle, at, h, n) {
            return true;
        }
        at += 1;
    }
    false
}

/// Whether `s` begins with `prefix`.
pub fn starts_with_text(s: &str, prefix: &str) -> (found: bool)
    ensures
        found == occurs_at(s@, prefix@, 0),
{
    let h = s.unicode_len();
    let n = prefix.unicode_len();
    if n > h {
        return false;
    }
    matches_at(s, prefix, 0, h, n)
}

/// The characters of a text.
pub fn chars_of(s: &str) -> (chars: Vec<char>)
    ensures
        chars@ == s@,
{
    let mut chars: Vec<char> = Vec::new();
    for c in it: s.chars()
        invariant
            chars@ == it.seq().take(it.index() as int),
            it.seq() == s@,
    {
        chars.push(c);
    }
    chars
}

/// A stretch of a text: the characters from position `from` up to, but
/// without, position `to`.
#[derive(Debug, Clone, Copy, PartialEq, Eq, Structural)]
pub struct Span {
    pub from: usize,
    pub to: usize,
}

impl Span {
    /// Whether the stretch lies within a text of `len` characters.
    pub open spec fn within(self, len: nat) -> bool {
        self.from <= self.to <= len
    }

    /// The characters of the stretch.
    pub open spec fn of(self, s: Seq<char>) -> Seq<char> {
        s.subrange(self.from as int, self.to as int)
    }

    /// Whether the stretch lies within the stretch `outer`.
    pub open spec fn inside(self, outer: Span) -> bool {
        outer.from <= self.from <= self.to <= outer.to
    }
}

/// The texts of the stretches.
pub open spec fn span_texts(s: Seq<char>, spans: Seq<Span>) -> Seq<Seq<char>> {
    Seq::new(spans.len(), |i: int| spans[i].of(s))
}

/// Whether all stretches lie within `outer`.
pub open spec fn spans_inside(spans: Seq<Span>, outer: Span) -> bool {
    forall|i: int| 0 <= i < spans.len() ==> (#[trigger] spans[i]).inside(outer)
}

/// The stretch of a text as a text of its own.
pub fn span_string(s: &str, span: Span) -> (text: String)
    requires
        span.within(s@.len()),
    ensures
        text@ == span.of(s@),
{
    String::from_str(s.substring_char(span.from, span.to))
}

/// The stretch without the white space at its start and at its end.
pub fn trim_span(chars: &Vec<char>, span: Span) -> (inner: Span)
    requires
        span.within(chars@.len()),
    ensures
        inner.inside(span),
        inner.of(chars@) == trimmed(span.of(chars@)),
{
    let mut from: usize = span.from;
    while from < span.to && char_is_space(chars[from])
        invariant
            span.within(chars@.len()),
            span.from <= from <= span.to,
            forall|i: int| span.from <= i < from ==> is_space(#[trigger] chars@[i]),
        decreases span.to - from,
    {
        from += 1;
    }
    let mut to: usize = span.to;
    while to > from && char_is_space(chars[to - 1])
        invariant
            span.within(chars@.len()),
            span.from <= from <= to <= span.to,
            forall|i: int| to <= i < span.to ==> is_space(#[trigger] chars@[i]),
        decreases to,
    {
        to -= 1;
    }
    proof {
        let text = span.of(chars@);
        assert forall|i: int| 0 <= i < from - span.from implies is_space(#[trigger] text[i]) by {
            assert(text[i] == chars@[i + span.from]);
        }
        if from < span.to {
            assert(text[from - span.from] == chars@[from as int]);
        }
        lemma_trimmed_start(text, from - span.from);
        let rest = text.subrange(from - span.from, text.len() as int);
        assert forall|i: int| to - from <= i < rest.len() implies is_space(#[trigger] rest[i]) by {
            assert(rest[i] == chars@[i + from]);
        }
        if to > from {
            assert(rest[to - from - 1] == chars@[to - 1]);
        }
        lemma_trimmed_end(rest, to - from);
        assert(rest.subrange(0, to - from) =~= chars@.subrange(from as int, to as int));
    }
    Span { from, to }
}

/// The first position at or behind `from` at which `needle` stands in `s`;
/// none if it stands nowhere from there on.
pub open spec fn find_from(s: Seq<char>, needle: Seq<char>, from: int) -> Option<int>
    decreases s.len() - from + 1,
{
    if from < 0 || from + needle.len() > s.len() {
        None
    } else if occurs_at(s, needle, from) {
        Some(from)
    } else {
        find_from(s, needle, from + 1)
    }
}

/// The first position at which `needle` stands in `s`.
pub open spec fn find_text(s: Seq<char>, needle: Seq<char>) -> Option<int> {
    find_from(s, needle, 0)
}

/// What `find_from` finds is the first occurrence: the needle stands there,
/// within the text, and nowhere between the start of the search and there.
pub proof fn lemma_find_from(s: Seq<char>, needle: Seq<char>, from: int)
    requires
        0 <= from,
    ensures
        match find_from(s, needle, from) {
            Some(at) => from <= at && at + needle.len() <= s.len() && occurs_at(s, needle, at)
                && forall|i: int| from <= i < at ==> !occurs_at(s, needle, i),
            None => forall|i: int| from <= i ==> !occurs_at(s, needle, i),
        },
    decreases s.len() - from + 1,
{
    if from + needle.len() <= s.len() && !occurs_at(s, needle, from) {
        lemma_find_from(s, needle, from + 1);
    }
}

fn needle_at(chars: &Vec<char>, span: Span, needle: &Vec<char>, at: usize) -> (found: bool)
    requires
        span.within(chars@.len()),
        span.from <= at,
        at + needle@.len() <= span.to,
    ensures
        found == occurs_at(span.of(chars@), needle@, at - span.from),
{
    let n = needle.len();
    let mut k: usize = 0;
    while k < n
        invariant
            k <= n,
            n == needle@.len(),
            span.within(chars@.len()),
            span.from <= at,
            at + n <= span.to,
            forall|i: int| 0 <= i < k ==> chars@[at + i] == needle@[i],
        decreases n - k,
    {
        if chars[at + k] != needle[k] {
            proof {
                let part = span.of(chars@).subrange(at - span.from, at - span.from + n);
                assert(part[k as int] == chars@[at + k]);
            }
            return false;
        }
        k += 1;
    }
    assert(span.of(chars@).subrange(at - span.from, at - span.from + n) =~= needle@);
    true
}

/// Finds the first place at or behind `from` at which `needle` stands in
/// the stretch.
pub fn find_in(chars: &Vec<char>, span: Span, needle: &Vec<char>, from: usize) -> (at: Option<usize>)
    requires
        span.within(chars@.len()),
        span.from <= from <= span.to,
    ensures
        match at {
            Some(p) => from <= p && p + needle@.len() <= span.to && find_from(
                span.of(chars@),
                needle@,
                from - span.from,
            ) == Some(p - span.from),
            None => find_from(span.of(chars@), needle@, from - span.from) is None,
        },
{
    let n = needle.len();
    if n > span.to - from {
        return None;
    }
    let last: usize = span.to - n;
    let mut at: usize = from;
    while at <= last
        invariant
            span.within(chars@.len()),
            span.from <= from <= at,
            at <= last + 1,
            last + n == span.to,
            n == needle@.len(),
            find_from(span.of(chars@), needle@, from - span.from) == find_from(
                span.of(chars@),
                needle@,
                at - span.from,
            ),
        decreases last + 1 - at,
    {
        if needle_at(chars, span, needle, at) {
            return Some(at);
        }
        if at == last {
            assert(find_from(span.of(chars@), needle@, at - span.from + 1) is None);
            return None;
        }
        at += 1;
    }
    None
}

/// The parts of `s` between the occurrences of `separator`, from position
/// `from` on. The occurrences are taken from left to right and do not
/// overlap.
pub open spec fn split_from(s: Seq<char>, separator: Seq<char>, from: int) -> Seq<Seq<char>>
    decreases s.len() - from + 1,
{
    if from < 0 || from > s.len() || separator.len() == 0 {
        Seq::empty()
    } else {
        match find_from(s, separator, from) {
            Some(at) => {
                proof {
                    lemma_find_from(s, separator, from);
                }
                seq![s.subrange(from, at)] + split_from(s, separator, at + separator.len())
            },
            None => seq![s.subrange(from, s.len() as int)],
        }
    }
}

/// The parts of `s` between the occurrences of `separator`: one more than
/// there are occurrences.
pub open spec fn split_text(s: Seq<char>, separator: Seq<char>) -> Seq<Seq<char>> {
    split_from(s, separator, 0)
}

/// The lines of `s`: its parts between line feeds.
pub open spec fn lines_of(s: Seq<char>) -> Seq<Seq<char>> {
    split_text(s, seq!['\n'])
}

/// Splits the stretch at the occurrences of `separator`.
pub fn split_span(chars: &Vec<char>, span: Span, separator: &Vec<char>) -> (parts: Vec<Span>)
    requires
        span.within(chars@.len()),
        separator@.len() > 0,
    ensures
        span_texts(chars@, parts@) == split_text(span.of(chars@), separator@),
        spans_inside(parts@, span),
        parts@.len() > 0,
{
    let n = separator.len();
    let mut parts: Vec<Span> = Vec::new();
    let mut from: usize = span.from;
    let ghost text = span.of(chars@);
    assert(span_texts(chars@, parts@) =~= Seq::<Seq<char>>::empty());
    loop
        invariant
            span.within(chars@.len()),
            span.from <= from <= span.to,
            n == separator@.len(),
            n > 0,
            text == span.of(chars@),
            spans_inside(parts@, span),
            split_text(text, separator@) == span_texts(chars@, parts@) + split_from(
                text,
                separator@,
                from - span.from,
            ),
        decreases span.to - from,
    {
        let ghost before = parts@;
        match find_in(chars, span, separator, from) {
            Some(at) => {
                let part = Span { from, to: at };
                parts.push(part);
                proof {
                    assert(part.of(chars@) =~= text.subrange(from - span.from, at - span.from));
                    assert(span_texts(chars@, parts@) =~= span_texts(chars@, before).push(
                        part.of(chars@),
                    ));
                    assert(split_text(text, separator@) =~= span_texts(chars@, parts@) + split_from(
                        text,
                        separator@,
                        at + n - span.from,
                    ));
                }
                from = at + n;
            },
            None => {
                let part = Span { from, to: span.to };
                parts.push(part);
                proof {
                    assert(part.of(chars@) =~= text.subrange(from - span.from, text.len() as int));
                    assert(span_texts(chars@, parts@) =~= span_texts(chars@, before).push(
                        part.of(chars@),
                    ));
                    assert(split_text(text, separator@) =~= span_texts(chars@, parts@));
                }
                return parts;
            },
        }
    }
}

/// The first position at or behind `from` that holds no white space; the
/// length of the text if there is none.
pub open spec fn word_start(s: Seq<char>, from: int) -> int
    decreases s.len() - from,
{
    if from < 0 || from >= s.len() || !is_space(s[from]) {
        from
    } else {
        word_start(s, from + 1)
    }
}

/// The first position at or behind `from` that holds white space; the
/// length of the text if there is none.
pub open spec fn word_end(s: Seq<char>, from: int) -> int
    decreases s.len() - from,
{
    if from < 0 || from >= s.len() || is_space(s[from]) {
        from
    } else {
        word_end(s, from + 1)
    }
}

/// A word starts at or behind the start of the search, within the text or
/// at its end, and on a character that is no white space; it ends behind
/// its start and within the text.
pub proof fn lemma_word_bounds(s: Seq<char>, from: int)
    requires
        0 <= from <= s.len(),
    ensures
        from <= word_start(s, from) <= s.len(),
        word_start(s, from) < s.len() ==> !is_space(s[word_start(s, from)]),
        forall|i: int| from <= i < word_start(s, from) ==> is_space(#[trigger] s[i]),
        from <= word_end(s, from) <= s.len(),
        from < s.len() && !is_space(s[from]) ==> from < word_end(s, from),
        word_end(s, from) < s.len() ==> is_space(s[word_end(s, from)]),
        forall|i: int| from <= i < word_end(s, from) ==> !is_space(#[trigger] s[i]),
    decreases s.len() - from,
{
    if from < s.len() {
        lemma_word_bounds(s, from + 1);
    }
}

/// The words of `s` from position `from` on: the longest runs of
/// characters that are no white space.
pub open spec fn words_from(s: Seq<char>, from: int) -> Seq<Seq<char>>
    decreases s.len() - from,
{
    if from < 0 || from > s.len() {
        Seq::empty()
    } else {
        let start = word_start(s, from);
        if start >= s.len() {
            Seq::empty()
        } else {
            let end = word_end(s, start);
            proof {
                lemma_word_bounds(s, from);
                lemma_word_bounds(s, start);
            }
            seq![s.subrange(start, end)] + words_from(s, end)
        }
    }
}

/// The words of `s`.
pub open spec fn words_of(s: Seq<char>) -> Seq<Seq<char>> {
    words_from(s, 0)
}

proof fn lemma_word_start_found(s: Seq<char>, from: int, at: int)
    requires
        0 <= from <= at <= s.len(),
        forall|i: int| from <= i < at ==> is_space(#[trigger] s[i]),
        at < s.len() ==> !is_space(s[at]),
    ensures
        word_start(s, from) == at,
    decreases at - from,
{
    if from < at {
        lemma_word_start_found(s, from + 1, at);
    }
}

proof fn lemma_word_end_found(s: Seq<char>, from: int, at: int)
    requires
        0 <= from <= at <= s.len(),
        forall|i: int| from <= i < at ==> !is_space(#[trigger] s[i]),
        at < s.len() ==> is_space(s[at]),
    ensures
        word_end(s, from) == at,
    decreases at - from,
{
    if from < at {
        lemma_word_end_found(s, from + 1, at);
    }
}

/// Splits the stretch into its words.
pub fn words_in(chars: &Vec<char>, span: Span) -> (words: Vec<Span>)
    requires
        span.within(chars@.len()),
    ensures
        span_texts(chars@, words@) == words_of(span.of(chars@)),
        spans_inside(words@, span),
{
    let mut words: Vec<Span> = Vec::new();
    let mut from: usize = span.from;
    let ghost text = span.of(chars@);
    assert(span_texts(chars@, words@) =~= Seq::<Seq<char>>::empty());
    loop
        invariant
            span.within(chars@.len()),
            span.from <= from <= span.to,
            text == span.of(chars@),
            spans_inside(words@, span),
            words_of(text) == span_texts(chars@, words@) + words_from(text, from - span.from),
        decreases span.to - from,
    {
        let mut start: usize = from;
        while start < span.to && char_is_space(chars[start])
            invariant
                span.within(chars@.len()),
                from <= start <= span.to,
                forall|i: int| from <= i < start ==> is_space(#[trigger] chars@[i]),
            decreases span.to - start,
        {
            start += 1;
        }
        proof {
            assert forall|i: int| from - span.from <= i < start - span.from implies is_space(
                #[trigger] text[i],
            ) by {
                assert(text[i] == chars@[i + span.from]);
            }
            if start < span.to {
                assert(text[start - span.from] == chars@[start as int]);
            }
            lemma_word_start_found(text, from - span.from, start - span.from);
        }
        if start >= span.to {
            assert(words_of(text) =~= span_texts(chars@, words@));
            return words;
        }
        let mut end: usize = start;
        while end < span.to && !char_is_space(chars[end])
            invariant
                span.within(chars@.len()),
                start <= end <= span.to,
                forall|i: int| start <= i < end ==> !is_space(#[trigger] chars@[i]),
            decreases span.to - end,
        {
            end += 1;
        }
        let ghost before = words@;
        let word = Span { from: start, to: end };
        proof {
            assert forall|i: int| start - span.from <= i < end - span.from implies !is_space(
                #[trigger] text[i],
            ) by {
                assert(text[i] == chars@[i + span.from]);
            }
            if end < span.to {
                assert(text[end - span.from] == chars@[end as int]);
            }
            lemma_word_end_found(text, start - span.from, end - span.from);
            assert(word.of(chars@) =~= text.subrange(start - span.from, end - span.from));
        }
        words.push(word);
        proof {
            assert(span_texts(chars@, words@) =~= span_texts(chars@, before).push(word.of(chars@)));
            assert(words_of(text) =~= span_texts(chars@, words@) + words_from(
                text,
                end - span.from,
            ));
        }
        from = end;
    }
}

/// The number that a text stands for when it is read as an unsigned number
/// of at most `limit`: an optional plus sign, then at least one decimal
/// digit and nothing else, and a value that fits; none for any other text.
pub open spec fn parsed_unsigned(s: Seq<char>, limit: nat) -> Option<nat> {
    if s.len() == 0 {
        None
    } else {
        let body = if s[0] == '+' {
            s.drop_first()
        } else {
            s
        };
        if body.len() == 0 {
            None
        } else {
            match digits_value(body) {
                Some(v) => if v <= limit {
                    Some(v)
                } else {
                    None
                },
                None => None,
            }
        }
    }
}

/// Reads an unsigned number of at most `limit` from the stretch.
pub fn parse_unsigned(chars: &Vec<char>, span: Span, limit: u64) -> (value: Option<u64>)
    requires
        span.within(chars@.len()),
    ensures
        match value {
            Some(v) => parsed_unsigned(span.of(chars@), limit as nat) == Some(v as nat),
            None => parsed_unsigned(span.of(chars@), limit as nat) is None,
        },
{
    if span.from == span.to {
        return None;
    }
    let ghost text = span.of(chars@);
    assert(text[0] == chars@[span.from as int]);
    let start: usize = if chars[span.from] == '+' {
        span.from + 1
    } else {
        span.from
    };
    if start == span.to {
        assert(text.drop_first().len() == 0);
        return None;
    }
    let ghost body = chars@.subrange(start as int, span.to as int);
    assert(body =~= if text[0] == '+' {
        text.drop_first()
    } else {
        text
    });
    let mut acc: u64 = 0;
    let mut i: usize = start;
    assert(body.subrange(0, 0) =~= Seq::<char>::empty());
    while i < span.to
        invariant
            span.within(chars@.len()),
            start <= i <= span.to,
            body == chars@.subrange(start as int, span.to as int),
            body.len() > 0,
            text == span.of(chars@),
            text.len() > 0,
            body == (if text[0] == '+' {
                text.drop_first()
            } else {
                text
            }),
            digits_value(body.subrange(0, i - start)) == Some(acc as nat),
            acc <= limit,
        decreases span.to - i,
    {
        let c = chars[i];
        assert(body[i - start] == c);
        if !('0' <= c && c <= '9') {
            proof {
                lemma_digits_bad(body, i - start);
            }
            return None;
        }
        let d: u64 = (c as u32 - '0' as u32) as u64;
        let next: u128 = (acc as u128) * 10 + (d as u128);
        proof {
            let longer = body.subrange(0, i - start + 1);
            assert(longer.drop_last() =~= body.subrange(0, i - start));
            assert(longer.last() == c);
            assert(digits_value(longer) == Some(next as nat));
            if next > limit {
                if digits_value(body) is Some {
                    lemma_digits_prefix(body, i - start + 1);
                }
            }
        }
        if next > limit as u128 {
            return None;
        }
        acc = next as u64;
        i += 1;
    }
    assert(body.subrange(0, span.to - start) =~= body);
    Some(acc)
}

/// The last position at which `c` stands in `s`.
pub open spec fn last_index_of(s: Seq<char>, c: char) -> Option<int>
    decreases s.len(),
{
    if s.len() == 0 {
        None
    } else if s.last() == c {
        Some(s.len() - 1)
    } else {
        last_index_of(s.drop_last(), c)
    }
}

/// Finds the last place at which `c` stands in the stretch.
pub fn rfind_char(chars: &Vec<char>, span: Span, c: char) -> (at: Option<usize>)
    requires
        span.within(chars@.len()),
    ensures
        match at {
            Some(p) => span.from <= p < span.to && last_index_of(span.of(chars@), c) == Some(
                p - span.from,
            ),
            None => last_index_of(span.of(chars@), c) is None,
        },
{
    let ghost text = span.of(chars@);
    let mut to: usize = span.to;
    assert(text.subrange(0, to - span.from) =~= text);
    while to > span.from
        invariant
            span.within(chars@.len()),
            span.from <= to <= span.to,
            text == span.of(chars@),
            last_index_of(text, c) == last_index_of(text.subrange(0, to - span.from), c),
        decreases to,
    {
        let ghost head = text.subrange(0, to - span.from);
        assert(head.last() == chars@[to - 1]);
        if chars[to - 1] == c {
            return Some(to - 1);
        }
        assert(head.drop_last() =~= text.subrange(0, to - 1 - span.from));
        to -= 1;
    }
    None
}

/// The text without the characters `c` at its end.
pub open spec fn without_trailing(s: Seq<char>, c: char) -> Seq<char>
    decreases s.len(),
{
    if s.len() > 0 && s.last() == c {
        without_trailing(s.drop_last(), c)
    } else {
        s
    }
}

/// The stretch without the characters `c` at its end.
pub fn trim_end_span(chars: &Vec<char>, span: Span, c: char) -> (inner: Span)
    requires
        span.within(chars@.len()),
    ensures
        inner.inside(span),
        inner.from == span.from,
        inner.of(chars@) == without_trailing(span.of(chars@), c),
{
    let ghost text = span.of(chars@);
    let mut to: usize = span.to;
    assert(text.subrange(0, to - span.from) =~= text);
    while to > span.from && chars[to - 1] == c
        invariant
            span.within(chars@.len()),
            span.from <= to <= span.to,
            text == span.of(chars@),
            without_trailing(text, c) == without_trailing(text.subrange(0, to - span.from), c),
        decreases to,
    {
        let ghost head = text.subrange(0, to - span.from);
        assert(head.last() == chars@[to - 1]);
        assert(head.drop_last() =~= text.subrange(0, to - 1 - span.from));
        to -= 1;
    }
    proof {
        let head = text.subrange(0, to - span.from);
        if to > span.from {
            assert(head.last() == chars@[to - 1]);
        }
        assert(head =~= chars@.subrange(span.from as int, to as int));
    }
    Span { from: span.from, to }
}

/// The texts joined by single blanks.
pub open spec fn joined(words: Seq<Seq<char>>) -> Seq<char>
    decreases words.len(),
{
    if words.len() == 0 {
        Seq::empty()
    } else if words.len() == 1 {
        words[0]
    } else {
        joined(words.drop_last()) + seq![' '] + words.last()
    }
}

/// Joins the stretches `spans[from..]` of `s` by single blanks.
pub fn join_spans(s: &str, spans: &Vec<Span>, from: usize) -> (text: String)
    requires
        from <= spans@.len(),
        forall|i: int| 0 <= i < spans@.len() ==> (#[trigger] spans@[i]).within(s@.len()),
    ensures
        text@ == joined(span_texts(s@, spans@.subrange(from as int, spans@.len() as int))),
{
    proof {
        reveal_strlit(" ");
    }
    let mut text = String::new();
    let mut i: usize = from;
    let ghost all = spans@.subrange(from as int, spans@.len() as int);
    assert(span_texts(s@, all.subrange(0, 0)) =~= Seq::<Seq<char>>::empty());
    while i < spans.len()
        invariant
            from <= i <= spans@.len(),
            all == spans@.subrange(from as int, spans@.len() as int),
            forall|k: int| 0 <= k < spans@.len() ==> (#[trigger] spans@[k]).within(s@.len()),
            text@ == joined(span_texts(s@, all.subrange(0, i - from))),
            " "@ == seq![' '],
        decreases spans.len() - i,
    {
        let ghost sofar = span_texts(s@, all.subrange(0, i - from));
        let ghost longer = span_texts(s@, all.subrange(0, i - from + 1));
        assert(longer.drop_last() =~= sofar);
        assert(longer.last() == spans@[i as int].of(s@));
        if i > from {
            text.append(" ");
        }
        let word = span_string(s, spans[i]);
        text.append(word.as_str());
        proof {
            if i == from {
                assert(text@ =~= longer[0]);
            } else {
                assert(text@ =~= joined(sofar) + seq![' '] + longer.last());
            }
        }
        i += 1;
    }
    assert(all.subrange(0, i - from) =~= all);
    text
}

} // verus!
