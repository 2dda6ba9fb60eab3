//! The readiness line that the harness prints once its web server is bound:
//! `dsh web: http://127.0.0.1:<port>`, optionally with a ` (LAN: …)` suffix.

use crate::decimal::{decimal_text, is_digit, law_decimal_text_digits};
use crate::http::loopback_url_text;
use crate::text::{
    law_words_are_solid, lemma_first_word, nth_word, starts_with, strip_prefix, trimmed, whitespace, words,
};
use crate::text_laws::{blank, law_blanks_hold_no_words, solid};
use vstd::prelude::*;

verus! {

/// What the readiness line starts with.
pub const READY_PREFIX: &'static str = "dsh web: ";

/// Whether `url` starts like an `http` URL on the loopback interface with a port.
pub open spec fn on_loopback(url: Seq<char>) -> bool {
    "http://127.0.0.1:"@.is_prefix_of(url) || "http://localhost:"@.is_prefix_of(url)
}

/// The URL that a readiness line announces: the first word after the prefix, where
/// it is on the loopback interface.
pub open spec fn announced_url(line: Seq<char>) -> Option<Seq<char>> {
    if READY_PREFIX@.is_prefix_of(line) {
        let after = words(line.skip(READY_PREFIX@.len() as int));
        if after.len() > 0 && on_loopback(after[0]) {
            Some(after[0])
        } else {
            None
        }
    } else {
        None
    }
}

/// Extract the canonical loopback URL from a `dsh web: …` readiness line.
pub fn parse_ready_url(line: &str) -> (res: Option<String>)
    ensures
        match res {
            Some(url) => announced_url(line@) == Some(url@),
            None => announced_url(line@) is None,
        },
{
    match strip_prefix(line, READY_PREFIX) {
        None => None,
        Some(rest) => match nth_word(rest, 0) {
            None => None,
            Some(url) => {
                if starts_with(url, "http://127.0.0.1:") || starts_with(url, "http://localhost:") {
                    Some(url.to_string())
                } else {
                    None
                }
            },
        },
    }
}

/// The line that the harness prints for its port, with or without a suffix after
/// a space, announces exactly the loopback URL of that port.
pub proof fn law_banner_announces_port(port: u16, suffix: Seq<char>)
    requires
        suffix.len() == 0 || whitespace(suffix[0]),
    ensures
        announced_url(READY_PREFIX@ + loopback_url_text(port) + suffix) == Some(
            loopback_url_text(port),
        ),
{
    let url = loopback_url_text(port);
    let line = READY_PREFIX@ + url + suffix;
    let scheme = "http://127.0.0.1:"@;
    law_decimal_text_digits(port as nat);
    reveal_strlit("http://127.0.0.1:");
    assert forall|i: int| 0 <= i < url.len() implies !whitespace(#[trigger] url[i]) by {
        if i >= scheme.len() {
            assert(is_digit(decimal_text(port as nat)[i - scheme.len()]));
        }
    }
    assert(READY_PREFIX@.is_prefix_of(line));
    assert(line.skip(READY_PREFIX@.len() as int) == url + suffix);
    lemma_first_word(url, suffix);
    assert(scheme.is_prefix_of(url));
}

/// A line announces the first word after the prefix and any blanks, exactly where that
/// word starts like a URL of a loopback port; whatever follows after whitespace.
pub proof fn law_first_word_decides(gap: Seq<char>, url: Seq<char>, after: Seq<char>)
    requires
        blank(gap),
        url.len() > 0,
        solid(url),
        after.len() == 0 || whitespace(after[0]),
    ensures
        announced_url("dsh web: "@ + gap + url + after) == (if "http://127.0.0.1:"@.is_prefix_of(url)
            || "http://localhost:"@.is_prefix_of(url) {
            Some(url)
        } else {
            None
        }),
{
    let line = "dsh web: "@ + gap + url + after;
    assert(READY_PREFIX@ == "dsh web: "@);
    assert(READY_PREFIX@.is_prefix_of(line));
    assert(line.skip(READY_PREFIX@.len() as int) =~= gap + (url + after));
    law_blanks_hold_no_words(gap, url + after);
    lemma_first_word(url, after);
}

/// A line that does not start with the prefix announces nothing, and neither does the
/// prefix with nothing but blanks behind it.
pub proof fn law_other_lines_announce_nothing(line: Seq<char>, gap: Seq<char>)
    requires
        blank(gap),
    ensures
        !"dsh web: "@.is_prefix_of(line) ==> announced_url(line) is None,
        announced_url("dsh web: "@ + gap) is None,
{
    assert(READY_PREFIX@ == "dsh web: "@);
    assert(("dsh web: "@ + gap).skip(READY_PREFIX@.len() as int) =~= gap);
    law_blanks_hold_no_words(gap, Seq::empty());
}

/// Whatever a line announces is a URL on the loopback interface without whitespace.
pub proof fn law_announced_is_loopback(line: Seq<char>)
    requires
        announced_url(line) is Some,
    ensures
        on_loopback(announced_url(line)->0),
        trimmed(announced_url(line)->0) == announced_url(line)->0,
        forall|i: int|
            0 <= i < (announced_url(line)->0).len() ==> !whitespace(
                #[trigger] (announced_url(line)->0)[i],
            ),
{
    law_words_are_solid(line.skip(READY_PREFIX@.len() as int), 0);
}

} // verus!
