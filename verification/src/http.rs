//! The little HTTP that the shell speaks: one probe request, the status code of
//! its response, and the length that a download announces.

use crate::decimal::{
    bounded_value, decimal, decimal_text, is_digit, is_number, law_decimal_round_trip, law_decimal_text_digits,
    law_no_leading_zero, parse_u16, parse_u64, unsigned_value,
};
use crate::encoding::utf8_text;
use crate::text::{concat, first_line, lemma_first_word, line_one, nth_word, whitespace, words};
use crate::text_laws::{
    blank, law_blanks_hold_no_words, law_solid_text_is_one_word, law_whitespace_separates_words, solid,
};
use vstd::prelude::*;
use vstd::string::*;
use vstd::utf8::{decode_utf8, encode_utf8, encode_utf8_decode_utf8, encode_utf8_valid_utf8, valid_utf8};

verus! {

/// The status code that the first line of a response gives: its second word,
/// where that is a `u16` in decimal.
pub open spec fn status_code(response: Seq<char>) -> Option<nat> {
    let parts = words(first_line(response));
    if parts.len() > 1 {
        bounded_value(parts[1], u16::MAX as nat)
    } else {
        None
    }
}

/// The status code in the bytes of a response; bytes that are not UTF-8 have none.
pub open spec fn response_code(bytes: Seq<u8>) -> Option<nat> {
    if valid_utf8(bytes) {
        status_code(decode_utf8(bytes))
    } else {
        None
    }
}

/// Whether a response shows that the server is ready to serve: its status is 2xx.
pub open spec fn shows_ready(bytes: Seq<u8>) -> bool {
    response_code(bytes) matches Some(code) && 200 <= code < 300
}

/// Parse the HTTP status code out of a response's first line (`HTTP/1.1 200 OK`).
pub fn response_status_code(bytes: &[u8]) -> (res: Option<u16>)
    ensures
        match res {
            Some(code) => response_code(bytes@) == Some(code as nat),
            None => response_code(bytes@) is None,
        },
{
    match utf8_text(bytes) {
        None => None,
        Some(text) => match nth_word(line_one(text), 1) {
            None => None,
            Some(word) => parse_u16(word),
        },
    }
}

/// Whether a response shows that the server is ready.
///
/// Any other answer does not: the server accepts connections and answers with a
/// 4xx for a while before its routes are mounted.
pub fn is_ready_response(bytes: &[u8]) -> (res: bool)
    ensures
        res == shows_ready(bytes@),
        res == (response_code(bytes@) is Some && response_code(bytes@)->0 / 100 == 2),
{
    match response_status_code(bytes) {
        Some(code) => 200 <= code && code < 300,
        None => false,
    }
}

/// `127.0.0.1:<port>`.
pub open spec fn loopback_host_text(port: u16) -> Seq<char> {
    "127.0.0.1:"@ + decimal_text(port as nat)
}

/// `http://127.0.0.1:<port>`.
pub open spec fn loopback_url_text(port: u16) -> Seq<char> {
    "http://127.0.0.1:"@ + decimal_text(port as nat)
}

/// The request that asks a server for its root page.
pub open spec fn probe_request_text(host: Seq<char>) -> Seq<char> {
    "GET / HTTP/1.1\r\nHost: "@ + host + "\r\nConnection: close\r\n\r\n"@
}

/// The loopback host with `port`, as a `Host` header names it.
pub fn loopback_host(port: u16) -> (res: String)
    ensures
        res@ == loopback_host_text(port),
{
    concat("127.0.0.1:", decimal(port as u64).as_str())
}

/// The URL of the server on the loopback port.
pub fn loopback_url(port: u16) -> (res: String)
    ensures
        res@ == loopback_url_text(port),
{
    concat("http://127.0.0.1:", decimal(port as u64).as_str())
}

/// The request that asks the server at `host` for its root page.
pub fn probe_request(host: &str) -> (res: String)
    ensures
        res@ == probe_request_text(host@),
{
    let mut out = concat("GET / HTTP/1.1\r\nHost: ", host);
    out.append("\r\nConnection: close\r\n\r\n");
    out
}

/// The length that a `Content-Length` header announces.
pub open spec fn announced_length(header: Option<Seq<char>>) -> Option<nat> {
    match header {
        Some(value) => bounded_value(value, u64::MAX as nat),
        None => None,
    }
}

/// The length that a `Content-Length` header announces, where there is one and it
/// is a `u64` in decimal.
pub fn content_length(header: Option<&str>) -> (res: Option<u64>)
    ensures
        match (res, header) {
            (Some(length), Some(value)) => announced_length(Some(value@)) == Some(length as nat),
            (None, Some(value)) => announced_length(Some(value@)) is None,
            (_, None) => res is None,
        },
{
    match header {
        Some(value) => parse_u64(value),
        None => None,
    }
}

/// The code of a response is the second word of its first line, read as a number of
/// at most 16 bits: whatever stands in front of the first word, however wide the gap
/// is, and whatever follows after whitespace or a line break.
pub proof fn law_code_is_the_second_word(
    lead: Seq<char>,
    first: Seq<char>,
    gap: Seq<char>,
    second: Seq<char>,
    after: Seq<char>,
)
    requires
        blank(lead),
        !lead.contains('\n'),
        first.len() > 0,
        solid(first),
        gap.len() > 0,
        blank(gap),
        !gap.contains('\n'),
        second.len() > 0,
        solid(second),
        after.len() == 0 || whitespace(after[0]),
    ensures
        status_code(lead + first + gap + second + after) == (if unsigned_value(second) is Some
            && unsigned_value(second)->0 <= 65535 {
            unsigned_value(second)
        } else {
            None
        }),
{
    let head = lead + first + gap + second;
    let text = head + after;
    let line = first_line(text);
    let rest = line.skip(head.len() as int);
    assert forall|i: int| 0 <= i < head.len() implies #[trigger] head[i] != '\n' by {
        if i < lead.len() {
            assert(head[i] == lead[i]);
        } else if i < lead.len() + first.len() {
            assert(head[i] == first[i - lead.len()]);
        } else if i < lead.len() + first.len() + gap.len() {
            assert(head[i] == gap[i - lead.len() - first.len()]);
        } else {
            assert(head[i] == second[i - lead.len() - first.len() - gap.len()]);
        }
    }
    assert(head[head.len() - 1] == second[second.len() - 1]);
    if text.contains('\n') {
        text.index_of_first_ensures('\n');
        let end = text.index_of_first('\n')->0;
        assert(text[end] == '\n');
        if end < head.len() {
            assert(head[end] == text[end]);
        }
        if end == head.len() {
            assert(text.take(end).last() == head[head.len() - 1]);
        }
    }
    assert(line.len() >= head.len());
    assert(line == head + rest);
    if rest.len() > 0 {
        assert(rest[0] == after[0]);
    }
    let tail = second + rest;
    let inner = gap.skip(1);
    assert(gap =~= seq![gap[0]] + inner);
    assert(line =~= lead + (first + seq![gap[0]] + (inner + tail)));
    assert(whitespace(gap[0]));
    law_blanks_hold_no_words(lead, first + seq![gap[0]] + (inner + tail));
    law_whitespace_separates_words(first, gap[0], inner + tail);
    law_solid_text_is_one_word(first);
    assert(blank(inner)) by {
        assert forall|i: int| 0 <= i < inner.len() implies whitespace(#[trigger] inner[i]) by {
            assert(inner[i] == gap[i + 1]);
        }
    }
    law_blanks_hold_no_words(inner, tail);
    lemma_first_word(second, rest);
    assert(words(line)[1] == words(tail)[0]);
}

/// A response whose first line holds less than two words has no code, and one has a
/// code exactly where its second word is a number of at most 16 bits.
pub proof fn law_no_code_without_a_second_word(response: Seq<char>)
    ensures
        words(first_line(response)).len() < 2 ==> status_code(response) is None,
        words(first_line(response)).len() >= 2 ==> {
            let word = words(first_line(response))[1];
            status_code(response) == (if unsigned_value(word) is Some && unsigned_value(word)->0 <= 65535 {
                unsigned_value(word)
            } else {
                None
            })
        },
{
}

/// The bytes of a response have the code of the text that they encode; bytes that are
/// not UTF-8 have none.
pub proof fn law_bytes_have_the_code_of_their_text(text: Seq<char>, bytes: Seq<u8>)
    ensures
        response_code(encode_utf8(text)) == status_code(text),
        !valid_utf8(bytes) ==> response_code(bytes) is None,
        valid_utf8(bytes) ==> response_code(bytes) == status_code(decode_utf8(bytes)),
{
    encode_utf8_decode_utf8(text);
    encode_utf8_valid_utf8(text);
}

/// A response that starts with `HTTP/1.1` and a code has that code, whatever
/// follows it after a blank or a line break; and it shows readiness exactly where the
/// code is one from 200 to 299.
pub proof fn law_status_line(code: u16, after: Seq<char>)
    requires
        after.len() == 0 || whitespace(after[0]),
    ensures
        status_code("HTTP/1.1 "@ + decimal_text(code as nat) + after) == Some(code as nat),
        response_code(encode_utf8("HTTP/1.1 "@ + decimal_text(code as nat) + after)) == Some(code as nat),
        shows_ready(encode_utf8("HTTP/1.1 "@ + decimal_text(code as nat) + after)) <==> 200 <= code && code <= 299,
{
    let digits = decimal_text(code as nat);
    let text = "HTTP/1.1 "@ + digits + after;
    let version = seq!['H', 'T', 'T', 'P', '/', '1', '.', '1'];
    let none = Seq::<char>::empty();
    reveal_strlit("HTTP/1.1 ");
    law_decimal_text_digits(code as nat);
    law_decimal_round_trip(code as nat);
    assert(solid(digits)) by {
        assert forall|i: int| 0 <= i < digits.len() implies !whitespace(#[trigger] digits[i]) by {
            assert(is_digit(digits[i]));
        }
    }
    assert(solid(version));
    assert(text =~= none + version + seq![' '] + digits + after);
    law_code_is_the_second_word(none, version, seq![' '], digits, after);
    encode_utf8_decode_utf8(text);
    encode_utf8_valid_utf8(text);
}

/// A response shows readiness exactly where it has a code, and that is one from 200 to
/// 299; no other response does, in whatever way it differs.
pub proof fn law_only_2xx_shows_ready(bytes: Seq<u8>)
    ensures
        response_code(bytes) is None ==> !shows_ready(bytes),
        response_code(bytes) is Some ==> (shows_ready(bytes) <==> response_code(bytes)->0 / 100 == 2),
        !valid_utf8(bytes) ==> !shows_ready(bytes),
{
}

/// The address and the URL of a port name the loopback interface, and then the port as
/// a number that reads back as that port; so no two ports share one.
pub proof fn law_addresses_name_their_port(port: u16, other: u16)
    ensures
        "127.0.0.1:"@.is_prefix_of(loopback_host_text(port)),
        unsigned_value(loopback_host_text(port).skip(10)) == Some(port as nat),
        loopback_url_text(port) == "http://"@ + loopback_host_text(port),
        is_number(loopback_host_text(port).skip(10)),
        loopback_host_text(port)[10] == '0' <==> port == 0,
        loopback_host_text(port) == loopback_host_text(other) ==> port == other,
        loopback_url_text(port) == loopback_url_text(other) ==> port == other,
{
    reveal_strlit("127.0.0.1:");
    reveal_strlit("http://");
    reveal_strlit("http://127.0.0.1:");
    let digits = decimal_text(port as nat);
    assert("127.0.0.1:"@.len() == 10);
    assert(loopback_host_text(port).skip(10) =~= digits);
    assert("127.0.0.1:"@ =~= loopback_host_text(port).subrange(0, 10));
    assert(loopback_host_text(other).skip(10) =~= decimal_text(other as nat));
    assert(loopback_url_text(port) =~= "http://"@ + loopback_host_text(port));
    assert(loopback_url_text(other) =~= "http://"@ + loopback_host_text(other));
    assert(loopback_url_text(port).skip(7) =~= loopback_host_text(port));
    assert(loopback_url_text(other).skip(7) =~= loopback_host_text(other));
    law_decimal_round_trip(port as nat);
    law_decimal_round_trip(other as nat);
    law_decimal_text_digits(port as nat);
    law_no_leading_zero(port as nat);
    assert forall|i: int| 0 <= i < digits.len() implies '0' <= #[trigger] digits[i] && digits[i] <= '9' by {
        assert(is_digit(digits[i]));
    }
}

/// The probe asks for the root page, names the host as it was given, and asks for the
/// connection to be closed; there is nothing else in the request.
pub proof fn law_request_names_the_host(host: Seq<char>)
    ensures
        "GET / HTTP/1.1\r\nHost: "@.is_prefix_of(probe_request_text(host)),
        probe_request_text(host).len() == 22 + host.len() + 23,
        probe_request_text(host).subrange(22, 22 + host.len() as int) == host,
        probe_request_text(host).skip(22 + host.len() as int) == "\r\nConnection: close\r\n\r\n"@,
{
    reveal_strlit("GET / HTTP/1.1\r\nHost: ");
    reveal_strlit("\r\nConnection: close\r\n\r\n");
    let request = probe_request_text(host);
    assert("GET / HTTP/1.1\r\nHost: "@.len() == 22);
    assert("\r\nConnection: close\r\n\r\n"@.len() == 23);
    assert("GET / HTTP/1.1\r\nHost: "@ =~= request.subrange(0, 22));
    assert(request.subrange(22, 22 + host.len() as int) =~= host);
    assert(request.skip(22 + host.len() as int) =~= "\r\nConnection: close\r\n\r\n"@);
}

/// A header announces the length that it writes out, where that fits in 64 bits; any
/// other header announces none, and neither does a missing one.
pub proof fn law_header_announces_its_number(header: Seq<char>, length: nat)
    ensures
        announced_length(None) is None,
        length <= u64::MAX ==> announced_length(Some(decimal_text(length))) == Some(length),
        length > u64::MAX ==> announced_length(Some(decimal_text(length))) is None,
        unsigned_value(header) is None ==> announced_length(Some(header)) is None,
        unsigned_value(header) is Some && unsigned_value(header)->0 <= u64::MAX ==> announced_length(Some(header))
            == unsigned_value(header),
        unsigned_value(header) is Some && unsigned_value(header)->0 > u64::MAX ==> announced_length(Some(header)) is None,
{
    law_decimal_round_trip(length);
}

} // verus!
