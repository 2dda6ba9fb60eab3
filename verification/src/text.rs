//! Text scanning: Unicode whitespace, words, lines and prefixes.
//!
//! A string is modelled by its sequence of characters, `s@`.

use vstd::prelude::*;
use vstd::string::*;

verus! {

/// Whether `c` has the Unicode `White_Space` property.
pub open spec fn whitespace(c: char) -> bool {
    ||| '\u{9}' <= c && c <= '\u{d}'
    ||| c == ' '
    ||| c == '\u{85}'
    ||| c == '\u{a0}'
    ||| c == '\u{1680}'
    ||| '\u{2000}' <= c && c <= '\u{200a}'
    ||| c == '\u{2028}'
    ||| c == '\u{2029}'
    ||| c == '\u{202f}'
    ||| c == '\u{205f}'
    ||| c == '\u{3000}'
}

/// `s` without its leading whitespace.
pub open spec fn trim_start(s: Seq<char>) -> Seq<char>
    decreases s.len(),
{
    if s.len() > 0 && whitespace(s[0]) {
        trim_start(s.drop_first())
    } else {
        s
    }
}

/// `s` without its trailing whitespace.
pub open spec fn trim_end(s: Seq<char>) -> Seq<char>
    decreases s.len(),
{
    if s.len() > 0 && whitespace(s.last()) {
        trim_end(s.drop_last())
    } else {
        s
    }
}

/// `s` without its leading and trailing whitespace.
pub open spec fn trimmed(s: Seq<char>) -> Seq<char> {
    trim_end(trim_start(s))
}

/// How many characters of `s` come before its first whitespace.
pub open spec fn word_len(s: Seq<char>) -> nat
    decreases s.len(),
{
    if s.len() == 0 || whitespace(s[0]) {
        0
    } else {
        1 + word_len(s.drop_first())
    }
}

/// The maximal runs of non-whitespace characters of `s`, in order.
pub open spec fn words(s: Seq<char>) -> Seq<Seq<char>>
    decreases s.len(),
{
    let rest = trim_start(s);
    if rest.len() == 0 {
        Seq::empty()
    } else {
        let n = word_len(rest) as int;
        proof {
            lemma_trim_start(s);
            lemma_word_len(rest);
        }
        seq![rest.take(n)] + words(rest.skip(n))
    }
}

/// The first line of `s` without its terminator: the characters before the first
/// `\n`, less one `\r` directly in front of it; all of `s` where it has no `\n`.
pub open spec fn first_line(s: Seq<char>) -> Seq<char> {
    if s.contains('\n') {
        let line = s.take(s.index_of_first('\n')->0);
        if line.len() > 0 && line.last() == '\r' {
            line.drop_last()
        } else {
            line
        }
    } else {
        s
    }
}

/// The ASCII lower case of `c`; any other character as it is.
pub open spec fn ascii_lower(c: char) -> char {
    if 'A' <= c && c <= 'Z' {
        ((c as u32) + 32) as char
    } else {
        c
    }
}

/// Whether `a` and `b` differ at most in the case of ASCII letters.
pub open spec fn same_ignoring_ascii_case(a: Seq<char>, b: Seq<char>) -> bool {
    a.len() == b.len() && forall|i: int| 0 <= i < a.len() ==> ascii_lower(a[i]) == ascii_lower(#[trigger] b[i])
}

pub proof fn lemma_trim_start(s: Seq<char>)
    ensures
        trim_start(s).len() <= s.len(),
        trim_start(s) == s.skip(s.len() - trim_start(s).len()),
        trim_start(s).len() > 0 ==> !whitespace(trim_start(s)[0]),
    decreases s.len(),
{
    if s.len() > 0 && whitespace(s[0]) {
        lemma_trim_start(s.drop_first());
        let rest = trim_start(s.drop_first());
        assert(s.drop_first().skip(s.len() - 1 - rest.len()) == s.skip(s.len() - rest.len()));
    } else {
        assert(s.skip(0) == s);
    }
}

proof fn lemma_trim_end(s: Seq<char>)
    ensures
        trim_end(s).len() <= s.len(),
        trim_end(s) == s.take(trim_end(s).len() as int),
        trim_end(s).len() > 0 ==> !whitespace(trim_end(s).last()),
    decreases s.len(),
{
    if s.len() > 0 && whitespace(s.last()) {
        lemma_trim_end(s.drop_last());
        let rest = trim_end(s.drop_last());
        assert(s.drop_last().take(rest.len() as int) == s.take(rest.len() as int));
    } else {
        assert(s.take(s.len() as int) == s);
    }
}

pub proof fn lemma_word_len(s: Seq<char>)
    ensures
        word_len(s) <= s.len(),
        s.len() > 0 && !whitespace(s[0]) ==> word_len(s) > 0,
        forall|i: int| 0 <= i < word_len(s) ==> !whitespace(#[trigger] s[i]),
        word_len(s) < s.len() ==> whitespace(s[word_len(s) as int]),
    decreases s.len(),
{
    if s.len() > 0 && !whitespace(s[0]) {
        lemma_word_len(s.drop_first());
        assert forall|i: int| 0 <= i < word_len(s) implies !whitespace(#[trigger] s[i]) by {
            if i > 0 {
                assert(s[i] == s.drop_first()[i - 1]);
            }
        }
    }
}

/// Trimming is idempotent.
pub proof fn law_trimmed_idempotent(s: Seq<char>)
    ensures
        trimmed(trimmed(s)) == trimmed(s),
{
    let inner = trim_start(s);
    lemma_trim_start(s);
    lemma_trim_end(inner);
    let t = trim_end(inner);
    if t.len() > 0 {
        assert(t[0] == inner[0]);
    }
}

/// A word is not empty and holds no whitespace, so trimming leaves it as it is.
pub proof fn law_words_are_solid(s: Seq<char>, k: int)
    requires
        0 <= k < words(s).len(),
    ensures
        words(s)[k].len() > 0,
        forall|i: int| 0 <= i < words(s)[k].len() ==> !whitespace(#[trigger] words(s)[k][i]),
        trimmed(words(s)[k]) == words(s)[k],
    decreases s.len(),
{
    let rest = trim_start(s);
    let n = word_len(rest) as int;
    lemma_trim_start(s);
    lemma_word_len(rest);
    if k == 0 {
        let w = rest.take(n);
        assert(words(s)[0] == w);
        assert forall|i: int| 0 <= i < w.len() implies !whitespace(#[trigger] w[i]) by {
            assert(w[i] == rest[i]);
        }
    } else {
        law_words_are_solid(rest.skip(n), k - 1);
        assert(words(s)[k] == words(rest.skip(n))[k - 1]);
    }
    let w = words(s)[k];
    assert(!whitespace(w[0]));
    assert(!whitespace(w[w.len() - 1]));
}

/// A run of non-whitespace that whitespace or the end follows is the first word.
pub proof fn lemma_first_word(word: Seq<char>, after: Seq<char>)
    requires
        word.len() > 0,
        forall|i: int| 0 <= i < word.len() ==> !whitespace(#[trigger] word[i]),
        after.len() == 0 || whitespace(after[0]),
    ensures
        words(word + after).len() > 0,
        words(word + after)[0] == word,
{
    let s = word + after;
    assert(s[0] == word[0]);
    lemma_word_len(s);
    let n = word_len(s) as int;
    if n < word.len() {
        assert(s[n] == word[n]);
    }
    if n > word.len() {
        assert(s[word.len() as int] == after[0]);
    }
    assert(s.take(n) == word);
}

/// Whitespace in front does not change the words.
pub proof fn lemma_words_after_whitespace(blank: char, s: Seq<char>)
    requires
        whitespace(blank),
    ensures
        words(seq![blank] + s) == words(s),
{
    let longer = seq![blank] + s;
    assert(longer.drop_first() == s);
    assert(trim_start(longer) == trim_start(s));
}

/// Two runs of non-whitespace with whitespace between and behind them are the
/// first two words.
pub proof fn lemma_two_words(first: Seq<char>, blank: char, second: Seq<char>, after: Seq<char>)
    requires
        first.len() > 0,
        forall|i: int| 0 <= i < first.len() ==> !whitespace(#[trigger] first[i]),
        whitespace(blank),
        second.len() > 0,
        forall|i: int| 0 <= i < second.len() ==> !whitespace(#[trigger] second[i]),
        after.len() == 0 || whitespace(after[0]),
    ensures
        words(first + seq![blank] + second + after).len() > 1,
        words(first + seq![blank] + second + after)[0] == first,
        words(first + seq![blank] + second + after)[1] == second,
{
    let rest = seq![blank] + (second + after);
    let s = first + seq![blank] + second + after;
    assert(s == first + rest);
    lemma_first_word(first, rest);
    lemma_first_word(second, after);
    lemma_words_after_whitespace(blank, second + after);
    assert(s[0] == first[0]);
    assert(trim_start(s) == s);
    lemma_word_len(s);
    let n = word_len(s) as int;
    assert(s.take(n) == first);
    assert(s.skip(n) == rest);
    assert(words(s) == seq![s.take(n)] + words(s.skip(n)));
}

/// Whether `c` is Unicode whitespace.
pub fn is_whitespace(c: char) -> (res: bool)
    ensures
        res == whitespace(c),
{
    ('\u{9}' <= c && c <= '\u{d}') || c == ' ' || c == '\u{85}' || c == '\u{a0}' || c == '\u{1680}'
        || ('\u{2000}' <= c && c <= '\u{200a}') || c == '\u{2028}' || c == '\u{2029}'
        || c == '\u{202f}' || c == '\u{205f}' || c == '\u{3000}'
}

/// The characters of `s`.
pub fn to_chars(s: &str) -> (res: Vec<char>)
    ensures
        res@ == s@,
{
    let mut out: Vec<char> = Vec::new();
    for c in it: s.chars()
        invariant
            it.seq() == s@,
            out@ == s@.take(it.index() as int),
    {
        out.push(c);
    }
    out
}

/// The index of the first character of `chars`, from `from` on, that is not whitespace.
fn skip_whitespace(chars: &Vec<char>, from: usize) -> (res: usize)
    requires
        from <= chars@.len(),
    ensures
        from <= res <= chars@.len(),
        trim_start(chars@.skip(from as int)) == chars@.skip(res as int),
{
    let mut i: usize = from;
    while i < chars.len() && is_whitespace(chars[i])
        invariant
            from <= i <= chars@.len(),
            trim_start(chars@.skip(from as int)) == trim_start(chars@.skip(i as int)),
        decreases chars@.len() - i,
    {
        assert(chars@.skip(i as int).drop_first() == chars@.skip(i + 1));
        i = i + 1;
    }
    i
}

/// The index of the first whitespace of `chars` from `from` on, or their number.
fn skip_word(chars: &Vec<char>, from: usize) -> (res: usize)
    requires
        from <= chars@.len(),
    ensures
        from <= res <= chars@.len(),
        res - from == word_len(chars@.skip(from as int)),
{
    let mut i: usize = from;
    while i < chars.len() && !is_whitespace(chars[i])
        invariant
            from <= i <= chars@.len(),
            word_len(chars@.skip(from as int)) == (i - from) + word_len(chars@.skip(i as int)),
        decreases chars@.len() - i,
    {
        assert(chars@.skip(i as int).drop_first() == chars@.skip(i + 1));
        i = i + 1;
    }
    i
}

/// The word of `s` at index `n`, where it has that many.
pub fn nth_word(s: &str, n: usize) -> (res: Option<&str>)
    ensures
        res is Some <==> n < words(s@).len(),
        res matches Some(w) ==> w@ == words(s@)[n as int],
{
    let chars = to_chars(s);
    let mut from: usize = 0;
    let mut k: usize = 0;
    assert(chars@.skip(0) == chars@);
    assert(words(s@).skip(0) == words(s@));
    loop
        invariant
            chars@ == s@,
            from <= chars@.len(),
            k <= n,
            k <= words(s@).len(),
            words(chars@.skip(from as int)) == words(s@).skip(k as int),
        decreases n - k,
    {
        let start = skip_whitespace(&chars, from);
        let ghost rest = chars@.skip(start as int);
        proof {
            lemma_trim_start(chars@.skip(from as int));
            lemma_word_len(rest);
        }
        if start == chars.len() {
            assert(words(s@).skip(k as int).len() == 0);
            return None;
        }
        let end = skip_word(&chars, start);
        proof {
            let m = word_len(rest) as int;
            assert(rest.skip(m) == chars@.skip(end as int));
            assert(rest.take(m) == chars@.subrange(start as int, end as int));
            assert(words(chars@.skip(from as int)) == seq![rest.take(m)] + words(rest.skip(m)));
            assert(words(s@).skip(k as int)[0] == rest.take(m));
            assert(words(s@).skip(k as int).skip(1) == words(rest.skip(m)));
            assert(words(s@).skip(k as int).skip(1) == words(s@).skip(k + 1));
        }
        if k == n {
            return Some(s.substring_char(start, end));
        }
        from = end;
        k = k + 1;
    }
}

/// `s` without its leading and trailing whitespace.
pub fn trim(s: &str) -> (res: &str)
    ensures
        res@ == trimmed(s@),
{
    let chars = to_chars(s);
    assert(chars@.skip(0) == chars@);
    let start = skip_whitespace(&chars, 0);
    let ghost inner = chars@.skip(start as int);
    let mut end: usize = chars.len();
    assert(inner.take(end - start) == inner);
    while end > start && is_whitespace(chars[end - 1])
        invariant
            chars@ == s@,
            start <= end <= chars@.len(),
            inner == chars@.skip(start as int),
            trim_end(inner) == trim_end(inner.take(end - start)),
        decreases end,
    {
        assert(inner.take(end - start).drop_last() == inner.take(end - start - 1));
        end = end - 1;
    }
    assert(inner.take(end - start) == s@.subrange(start as int, end as int));
    s.substring_char(start, end)
}

/// The first line of `s`, without its terminator.
pub fn line_one(s: &str) -> (res: &str)
    ensures
        res@ == first_line(s@),
{
    let chars = to_chars(s);
    let mut i: usize = 0;
    while i < chars.len() && chars[i] != '\n'
        invariant
            i <= chars@.len(),
            forall|j: int| 0 <= j < i ==> chars@[j] != '\n',
        decreases chars@.len() - i,
    {
        i = i + 1;
    }
    if i == chars.len() {
        assert(s@.subrange(0, i as int) == s@);
        return s.substring_char(0, i);
    }
    proof {
        s@.index_of_first_ensures('\n');
        assert(s@.contains('\n')) by {
            assert(s@[i as int] == '\n');
        }
        assert(s@.index_of_first('\n') == Some(i as int));
        assert(s@.take(i as int) == s@.subrange(0, i as int));
    }
    if i > 0 && chars[i - 1] == '\r' {
        assert(s@.take(i as int).drop_last() == s@.subrange(0, i - 1));
        s.substring_char(0, i - 1)
    } else {
        s.substring_char(0, i)
    }
}

/// What follows `prefix` in `s`, where `s` starts with it.
pub fn strip_prefix<'a>(s: &'a str, prefix: &str) -> (res: Option<&'a str>)
    ensures
        res is Some <==> prefix@.is_prefix_of(s@),
        res matches Some(rest) ==> rest@ == s@.skip(prefix@.len() as int),
{
    let chars = to_chars(s);
    let head = to_chars(prefix);
    if head.len() > chars.len() {
        return None;
    }
    let mut i: usize = 0;
    while i < head.len()
        invariant
            chars@ == s@,
            head@ == prefix@,
            i <= head@.len() <= chars@.len(),
            forall|j: int| 0 <= j < i ==> head@[j] == chars@[j],
        decreases head@.len() - i,
    {
        if head[i] != chars[i] {
            assert(s@.subrange(0, prefix@.len() as int)[i as int] != prefix@[i as int]);
            return None;
        }
        i = i + 1;
    }
    assert(prefix@ =~= s@.subrange(0, prefix@.len() as int));
    assert(s@.subrange(i as int, s@.len() as int) == s@.skip(prefix@.len() as int));
    Some(s.substring_char(i, chars.len()))
}

/// Whether `s` starts with `prefix`.
pub fn starts_with(s: &str, prefix: &str) -> (res: bool)
    ensures
        res == prefix@.is_prefix_of(s@),
{
    strip_prefix(s, prefix).is_some()
}

/// The ASCII lower case of `c`.
fn to_ascii_lower(c: char) -> (res: char)
    ensures
        res == ascii_lower(c),
{
    if 'A' <= c && c <= 'Z' {
        let n: u8 = c as u8;
        (n + 32) as char
    } else {
        c
    }
}

/// Whether `a` and `b` differ at most in the case of ASCII letters.
pub fn eq_ignore_ascii_case(a: &str, b: &str) -> (res: bool)
    ensures
        res == same_ignoring_ascii_case(a@, b@),
{
    let left = to_chars(a);
    let right = to_chars(b);
    if left.len() != right.len() {
        return false;
    }
    let mut i: usize = 0;
    while i < left.len()
        invariant
            left@ == a@,
            right@ == b@,
            i <= left@.len() == right@.len(),
            forall|j: int| 0 <= j < i ==> ascii_lower(a@[j]) == ascii_lower(#[trigger] b@[j]),
        decreases left@.len() - i,
    {
        if to_ascii_lower(left[i]) != to_ascii_lower(right[i]) {
            return false;
        }
        i = i + 1;
    }
    true
}

/// `head` with `tail` behind it.
pub fn concat(head: &str, tail: &str) -> (res: String)
    ensures
        res@ == head@ + tail@,
{
    let mut out = head.to_string();
    out.append(tail);
    out
}

} // verus!
