//! What fixes the scanning of text: how its results relate to the text they were
//! made from, and to each other.

use crate::text::{
    ascii_lower, first_line, lemma_first_word, lemma_trim_start, lemma_word_len, same_ignoring_ascii_case, trim_end,
    trim_start, trimmed, whitespace, word_len, words,
};
use vstd::prelude::*;

verus! {

/// Whether `s` holds nothing but whitespace.
pub open spec fn blank(s: Seq<char>) -> bool {
    forall|i: int| 0 <= i < s.len() ==> whitespace(#[trigger] s[i])
}

/// Whether `s` holds no whitespace.
pub open spec fn solid(s: Seq<char>) -> bool {
    forall|i: int| 0 <= i < s.len() ==> !whitespace(#[trigger] s[i])
}

proof fn lemma_trim_start_skips(lead: Seq<char>, s: Seq<char>)
    requires
        blank(lead),
    ensures
        trim_start(lead + s) == trim_start(s),
    decreases lead.len(),
{
    if lead.len() == 0 {
        assert(lead + s == s);
    } else {
        let rest = lead.drop_first();
        assert(blank(rest)) by {
            assert forall|i: int| 0 <= i < rest.len() implies whitespace(#[trigger] rest[i]) by {
                assert(rest[i] == lead[i + 1]);
            }
        }
        lemma_trim_start_skips(rest, s);
        assert((lead + s)[0] == lead[0]);
        assert((lead + s).drop_first() == rest + s);
    }
}

proof fn lemma_trim_end_skips(s: Seq<char>, trail: Seq<char>)
    requires
        blank(trail),
    ensures
        trim_end(s + trail) == trim_end(s),
    decreases trail.len(),
{
    if trail.len() == 0 {
        assert(s + trail == s);
    } else {
        let rest = trail.drop_last();
        assert(blank(rest)) by {
            assert forall|i: int| 0 <= i < rest.len() implies whitespace(#[trigger] rest[i]) by {
                assert(rest[i] == trail[i]);
            }
        }
        lemma_trim_end_skips(s, rest);
        assert(whitespace(trail[trail.len() - 1]));
        assert((s + trail).last() == trail[trail.len() - 1]);
        assert((s + trail).drop_last() == s + rest);
    }
}

/// Trimming removes the blanks on both sides, and nothing else: what lies between them
/// comes out as it was, whatever it holds inside.
pub proof fn law_trimming_removes_only_blanks_around(lead: Seq<char>, core: Seq<char>, trail: Seq<char>)
    requires
        blank(lead),
        blank(trail),
        core.len() > 0 ==> !whitespace(core[0]) && !whitespace(core[core.len() - 1]),
    ensures
        trimmed(lead + core + trail) == core,
{
    assert(lead + core + trail == lead + (core + trail));
    lemma_trim_start_skips(lead, core + trail);
    if core.len() == 0 {
        assert(core + trail == trail);
        lemma_trim_start_skips(trail, Seq::empty());
        assert(trail + Seq::<char>::empty() == trail);
        assert(core == Seq::<char>::empty());
    } else {
        assert((core + trail)[0] == core[0]);
        lemma_trim_end_skips(core, trail);
        assert(core.last() == core[core.len() - 1]);
    }
}

proof fn lemma_blank_start(s: Seq<char>)
    ensures
        blank(s.take(s.len() - trim_start(s).len())),
    decreases s.len(),
{
    lemma_trim_start(s);
    if s.len() > 0 && whitespace(s[0]) {
        let tail = s.drop_first();
        lemma_blank_start(tail);
        lemma_trim_start(tail);
        let n = s.len() - trim_start(s).len();
        assert forall|i: int| 0 <= i < n implies whitespace(#[trigger] s.take(n)[i]) by {
            if i > 0 {
                assert(s.take(n)[i] == tail.take(n - 1)[i - 1]);
            }
        }
    }
}

/// Whitespace separates words: the words of two texts with whitespace between them are
/// the words of the one, then the words of the other.
pub proof fn law_whitespace_separates_words(a: Seq<char>, gap: char, b: Seq<char>)
    requires
        whitespace(gap),
    ensures
        words(a + seq![gap] + b) == words(a) + words(b),
    decreases a.len(),
{
    let rest = trim_start(a);
    let s = a + seq![gap] + b;
    lemma_trim_start(a);
    lemma_blank_start(a);
    let lead = a.take(a.len() - rest.len());
    let tail = rest + (seq![gap] + b);
    assert(s == lead + tail);
    lemma_trim_start_skips(lead, tail);
    if rest.len() == 0 {
        assert(tail == seq![gap] + b);
        assert(blank(seq![gap]));
        lemma_trim_start_skips(seq![gap], b);
        assert(words(s) == words(b));
        assert(words(a) + words(b) == words(b));
    } else {
        assert(tail[0] == rest[0]);
        assert(trim_start(s) == tail);
        lemma_word_len(rest);
        lemma_word_len(tail);
        let n = word_len(rest) as int;
        let m = word_len(tail) as int;
        if m < n {
            assert(tail[m] == rest[m]);
        }
        if m > n {
            if n < rest.len() {
                assert(tail[n] == rest[n]);
            } else {
                assert(tail[n] == gap);
            }
        }
        assert(tail.take(n) == rest.take(n));
        assert(tail.skip(n) == rest.skip(n) + seq![gap] + b);
        law_whitespace_separates_words(rest.skip(n), gap, b);
        assert(words(s) == seq![tail.take(n)] + words(tail.skip(n)));
        assert(words(s) =~= (seq![rest.take(n)] + words(rest.skip(n))) + words(b));
    }
}

/// Blanks in front of a text do not change its words; a blank text has none.
pub proof fn law_blanks_hold_no_words(lead: Seq<char>, s: Seq<char>)
    requires
        blank(lead),
    ensures
        words(lead + s) == words(s),
        words(lead) == Seq::<Seq<char>>::empty(),
{
    lemma_trim_start_skips(lead, s);
    lemma_trim_start_skips(lead, Seq::empty());
    assert(lead + Seq::<char>::empty() == lead);
}

/// A text without whitespace is one word; an empty text has none.
pub proof fn law_solid_text_is_one_word(word: Seq<char>)
    requires
        solid(word),
    ensures
        words(word) == (if word.len() == 0 {
            Seq::<Seq<char>>::empty()
        } else {
            seq![word]
        }),
{
    if word.len() > 0 {
        lemma_first_word(word, Seq::empty());
        assert(word + Seq::<char>::empty() == word);
        assert(!whitespace(word[0]));
        lemma_word_len(word);
        let n = word_len(word) as int;
        assert(n == word.len()) by {
            if n < word.len() {
                assert(!whitespace(word[n]));
            }
        }
        assert(word.take(n) == word);
        assert(trim_start(word.skip(n)).len() == 0);
        assert(words(word.skip(n)) == Seq::<Seq<char>>::empty());
        assert(words(word) == seq![word.take(n)] + words(word.skip(n)));
        assert(words(word) =~= seq![word]);
    }
}

/// The first line ends before the first line feed, and before a carriage return
/// directly in front of that one; a text without a line feed is one line.
pub proof fn law_first_line_ends_at_the_break(line: Seq<char>, rest: Seq<char>)
    requires
        !line.contains('\n'),
    ensures
        first_line(line) == line,
        first_line(line + seq!['\r', '\n'] + rest) == line,
        line.len() > 0 && line[line.len() - 1] == '\r' || first_line(line + seq!['\n'] + rest) == line,
{
    let crlf = line + seq!['\r', '\n'] + rest;
    let lf = line + seq!['\n'] + rest;
    assert(crlf[line.len() as int + 1] == '\n');
    assert(lf[line.len() as int] == '\n');
    crlf.index_of_first_ensures('\n');
    lf.index_of_first_ensures('\n');
    let p = crlf.index_of_first('\n')->0;
    let q = lf.index_of_first('\n')->0;
    assert(crlf.contains('\n') && lf.contains('\n'));
    if p < line.len() {
        assert(line[p] == crlf[p]);
    }
    if q < line.len() {
        assert(line[q] == lf[q]);
    }
    assert(p == line.len() + 1);
    assert(q == line.len());
    assert(crlf.take(p).last() == '\r');
    assert(crlf.take(p).drop_last() =~= line);
    assert(lf.take(q) =~= line);
}

/// Whether `a` and `b` are the same character or the two cases of one ASCII letter.
pub open spec fn same_letter(a: char, b: char) -> bool {
    ||| a == b
    ||| 'A' <= a && a <= 'Z' && b as int == a as int + 32
    ||| 'A' <= b && b <= 'Z' && a as int == b as int + 32
}

proof fn lemma_same_letter(a: char, b: char)
    ensures
        ascii_lower(a) == ascii_lower(b) <==> same_letter(a, b),
{
    assert('A' <= a && a <= 'Z' ==> ascii_lower(a) as int == a as int + 32);
    assert('A' <= b && b <= 'Z' ==> ascii_lower(b) as int == b as int + 32);
}

/// Two texts are the same but for the case of ASCII letters exactly where they are as
/// long and each character is the same or the other case of the same letter.
pub proof fn law_same_text_but_for_case(a: Seq<char>, b: Seq<char>)
    ensures
        same_ignoring_ascii_case(a, b) <==> a.len() == b.len() && forall|i: int|
            0 <= i < a.len() ==> same_letter(a[i], #[trigger] b[i]),
        same_ignoring_ascii_case(a, a),
        same_ignoring_ascii_case(a, b) == same_ignoring_ascii_case(b, a),
{
    assert forall|i: int| 0 <= i < a.len() && a.len() == b.len() implies (ascii_lower(a[i]) == ascii_lower(
        #[trigger] b[i],
    )) == same_letter(a[i], b[i]) by {
        lemma_same_letter(a[i], b[i]);
    }
    if same_ignoring_ascii_case(a, b) {
        assert forall|i: int| 0 <= i < b.len() implies ascii_lower(b[i]) == ascii_lower(#[trigger] a[i]) by {
            assert(ascii_lower(a[i]) == ascii_lower(b[i]));
        }
    }
    if same_ignoring_ascii_case(b, a) {
        assert forall|i: int| 0 <= i < a.len() implies ascii_lower(a[i]) == ascii_lower(#[trigger] b[i]) by {
            assert(ascii_lower(b[i]) == ascii_lower(a[i]));
        }
    }
}

} // verus!
