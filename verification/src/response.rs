//! Response serialization: the fixed `404 Not Found` reply, the two `200 OK`
//! shapes, and the JSON envelope of the calculator's reply.
//!
//! Every builder's contract pins the response down to the byte: status line,
//! `Content-Type`, a `Content-Length` that renders the exact byte count of
//! the body, a blank line, then the body.
use vstd::prelude::*;

use crate::bytes::all_digits;
use crate::bytes::append;
use crate::bytes::dec;
use crate::bytes::dec_spec;
use crate::bytes::digits_part;
use crate::bytes::digits_val;
use crate::bytes::has_terminator;
use crate::bytes::is_ascii_ws;
use crate::bytes::is_digit;
use crate::bytes::is_terminator_at;
use crate::bytes::lemma_dec_digits;
use crate::bytes::lemma_parse_dec_round_trip;
use crate::bytes::lemma_scan_non_ws_bounds;
use crate::bytes::lemma_scan_non_ws_first;
use crate::bytes::lemma_scan_to_bounds;
use crate::bytes::lemma_scan_to_first;
use crate::bytes::lemma_term_scan_bounds;
use crate::bytes::lemma_term_scan_first;
use crate::bytes::lower;
use crate::bytes::parse_usize_spec;
use crate::bytes::scan_non_ws;
use crate::bytes::scan_non_ws_rev;
use crate::bytes::scan_to;
use crate::bytes::term_scan;
use crate::bytes::trim_spec;
use crate::framer::body_of;
use crate::framer::head_of;
use crate::headers::content_length_of;
use crate::headers::entries_of;
use crate::headers::entry_of_line;
use crate::headers::header_entries;
use crate::headers::lines_from;
use crate::headers::lookup;
use crate::headers::strip_cr;
use crate::lit::lit_content_length_key;
use crate::calc::CalcParseError;
use crate::lit::lit_close_brace;
use crate::lit::lit_crlfcrlf;
use crate::lit::lit_error_pre;
use crate::lit::lit_error_suf;
use crate::lit::lit_msg_div_zero;
use crate::lit::lit_msg_duplicate_field;
use crate::lit::lit_msg_expected_colon;
use crate::lit::lit_msg_expected_key;
use crate::lit::lit_msg_expected_object;
use crate::lit::lit_msg_expected_separator;
use crate::lit::lit_msg_expected_value;
use crate::lit::lit_msg_missing_field;
use crate::lit::lit_msg_bad_number;
use crate::lit::lit_msg_trailing_data;
use crate::lit::lit_msg_unknown_field;
use crate::lit::lit_msg_unknown_operator;
use crate::lit::lit_ok_html_pre;
use crate::lit::lit_ok_json_pre;
use crate::lit::lit_resp_404;
use crate::lit::push_close_brace;
use crate::lit::push_crlfcrlf;
use crate::lit::push_error_pre;
use crate::lit::push_error_suf;
use crate::lit::push_msg_div_zero;
use crate::lit::push_msg_duplicate_field;
use crate::lit::push_msg_expected_colon;
use crate::lit::push_msg_expected_key;
use crate::lit::push_msg_expected_object;
use crate::lit::push_msg_expected_separator;
use crate::lit::push_msg_expected_value;
use crate::lit::push_msg_missing_field;
use crate::lit::push_msg_bad_number;
use crate::lit::push_msg_trailing_data;
use crate::lit::push_msg_unknown_field;
use crate::lit::push_msg_unknown_operator;
use crate::lit::push_ok_html_pre;
use crate::lit::push_ok_json_pre;
use crate::lit::push_resp_404;
use crate::lit::push_result_pre;
use crate::lit::lit_result_pre;

verus! {

/// The whole `404 Not Found` response: empty body, `Content-Length: 0`.
pub open spec fn not_found_response() -> Seq<u8> {
    lit_resp_404()
}

/// A `200 OK` response carrying the static page: `text/html` content type,
/// the body's exact byte count as `Content-Length`, then the body.
pub open spec fn ok_html_response(body: Seq<u8>) -> Seq<u8> {
    lit_ok_html_pre() + dec_spec(body.len()) + lit_crlfcrlf() + body
}

/// A `200 OK` response carrying a calculator reply: `application/json`
/// content type, the body's exact byte count as `Content-Length`, then the
/// body.
pub open spec fn ok_json_response(body: Seq<u8>) -> Seq<u8> {
    lit_ok_json_pre() + dec_spec(body.len()) + lit_crlfcrlf() + body
}

/// Serializes the `404 Not Found` response.
pub fn build_not_found() -> (v: Vec<u8>)
    ensures
        v@ == not_found_response(),
{
    let mut v: Vec<u8> = Vec::new();
    push_resp_404(&mut v);
    assert(v@ =~= not_found_response());
    v
}

/// Serializes the `200 OK` page response around the given body.
pub fn build_ok_html(body: &[u8]) -> (v: Vec<u8>)
    ensures
        v@ == ok_html_response(body@),
{
    let mut v: Vec<u8> = Vec::new();
    push_ok_html_pre(&mut v);
    let d = dec(body.len());
    append(&mut v, d.as_slice());
    push_crlfcrlf(&mut v);
    append(&mut v, body);
    assert(v@ =~= ok_html_response(body@));
    v
}

/// Serializes the `200 OK` calculator response around the given body.
pub fn build_ok_json(body: &[u8]) -> (v: Vec<u8>)
    ensures
        v@ == ok_json_response(body@),
{
    let mut v: Vec<u8> = Vec::new();
    push_ok_json_pre(&mut v);
    let d = dec(body.len());
    append(&mut v, d.as_slice());
    push_crlfcrlf(&mut v);
    append(&mut v, body);
    assert(v@ =~= ok_json_response(body@));
    v
}

/// Why a calculation produced an error field instead of a result.
#[derive(Clone, Copy, Debug, PartialEq, Eq, Structural)]
pub enum CalcFailure {
    /// The body was not a calculation: the reply carries an `invalid JSON`
    /// message naming what went wrong.
    InvalidJson(CalcParseError),
    /// The calculation divides by exact zero.
    DivisionByZero,
}

/// The message of a parse failure.
pub open spec fn parse_msg(k: CalcParseError) -> Seq<u8> {
    match k {
        CalcParseError::ExpectedObject => lit_msg_expected_object(),
        CalcParseError::ExpectedKey => lit_msg_expected_key(),
        CalcParseError::ExpectedColon => lit_msg_expected_colon(),
        CalcParseError::ExpectedValue => lit_msg_expected_value(),
        CalcParseError::UnknownField => lit_msg_unknown_field(),
        CalcParseError::DuplicateField => lit_msg_duplicate_field(),
        CalcParseError::MissingField => lit_msg_missing_field(),
        CalcParseError::UnknownOperator => lit_msg_unknown_operator(),
        CalcParseError::ExpectedSeparator => lit_msg_expected_separator(),
        CalcParseError::TrailingData => lit_msg_trailing_data(),
        CalcParseError::UnrepresentableNumber => lit_msg_bad_number(),
    }
}

/// The message of a calculation failure.
pub open spec fn failure_msg(f: CalcFailure) -> Seq<u8> {
    match f {
        CalcFailure::InvalidJson(k) => parse_msg(k),
        CalcFailure::DivisionByZero => lit_msg_div_zero(),
    }
}

/// The reply body of a successful calculation: a null error and the rendered
/// result number.
pub open spec fn success_body(num: Seq<u8>) -> Seq<u8> {
    lit_result_pre() + num + lit_close_brace()
}

/// The reply body of a failed calculation: the error message and a null
/// result.
pub open spec fn failure_body(msg: Seq<u8>) -> Seq<u8> {
    lit_error_pre() + msg + lit_error_suf()
}

/// Serializes the reply body of a successful calculation around the rendered
/// result number.
pub fn build_success_body(num: &[u8]) -> (v: Vec<u8>)
    ensures
        v@ == success_body(num@),
{
    let mut v: Vec<u8> = Vec::new();
    push_result_pre(&mut v);
    append(&mut v, num);
    push_close_brace(&mut v);
    assert(v@ =~= success_body(num@));
    v
}

/// Serializes the reply body of a failed calculation.
pub fn build_failure_body(f: CalcFailure) -> (v: Vec<u8>)
    ensures
        v@ == failure_body(failure_msg(f)),
{
    let mut v: Vec<u8> = Vec::new();
    push_error_pre(&mut v);
    match f {
        CalcFailure::DivisionByZero => push_msg_div_zero(&mut v),
        CalcFailure::InvalidJson(k) => match k {
            CalcParseError::ExpectedObject => push_msg_expected_object(&mut v),
            CalcParseError::ExpectedKey => push_msg_expected_key(&mut v),
            CalcParseError::ExpectedColon => push_msg_expected_colon(&mut v),
            CalcParseError::ExpectedValue => push_msg_expected_value(&mut v),
            CalcParseError::UnknownField => push_msg_unknown_field(&mut v),
            CalcParseError::DuplicateField => push_msg_duplicate_field(&mut v),
            CalcParseError::MissingField => push_msg_missing_field(&mut v),
            CalcParseError::UnknownOperator => push_msg_unknown_operator(&mut v),
            CalcParseError::ExpectedSeparator => push_msg_expected_separator(&mut v),
            CalcParseError::TrailingData => push_msg_trailing_data(&mut v),
            CalcParseError::UnrepresentableNumber => push_msg_bad_number(&mut v),
        },
    }
    push_error_suf(&mut v);
    assert(v@ =~= failure_body(failure_msg(f)));
    v
}

/// A built `200 OK` response frames back to its own parts, and the
/// `Content-Length` its head declares reads back as exactly the byte count
/// of its body. Stated generically over the two response shapes; the public
/// round-trip laws below instantiate it.
#[verifier::rlimit(100)]
proof fn lemma_built_response_parses(pre: Seq<u8>, d: Seq<u8>, body: Seq<u8>, a1: int, a2: int, c: int)
    requires
        pre.len() >= 4,
        all_digits(d),
        d.len() >= 1,
        scan_to(pre, 0, 10) == a1,
        scan_to(pre, a1 + 1, 10) == a2,
        scan_to(pre, a2 + 1, 10) == pre.len(),
        0 <= a1 < a2 < pre.len() - 1,
        entry_of_line(strip_cr(pre.subrange(0, a1))) is None,
        entry_of_line(strip_cr(pre.subrange(a1 + 1, a2))) matches Some(e) && e.0
            != lit_content_length_key(),
        ({
            let tail = pre.subrange(a2 + 1, pre.len() as int);
            &&& scan_to(tail, 0, 58) == c
            &&& 0 <= c < tail.len()
            &&& lower(trim_spec(tail.subrange(0, c))) == lit_content_length_key()
            &&& scan_non_ws(tail, c + 1) == tail.len()
        }),
        term_scan(pre, 0) == pre.len(),
        pre[pre.len() - 1] != 13,
        pre[pre.len() - 2] != 13,
        pre[pre.len() - 3] != 13,
    ensures
        ({
            let hd = pre + d + lit_crlfcrlf();
            let resp = pre + d + lit_crlfcrlf() + body;
            &&& term_scan(resp, 0) == pre.len() + d.len()
            &&& has_terminator(resp)
            &&& head_of(resp) == hd
            &&& body_of(resp) == body
            &&& lookup(header_entries(hd), lit_content_length_key()) == Some(d)
        }),
{
    let p = pre.len() as int;
    let dl = d.len() as int;
    let hd = pre + d + lit_crlfcrlf();
    let resp = pre + d + lit_crlfcrlf() + body;
    assert(hd.len() == p + dl + 4);
    assert(forall|j: int| 0 <= j < p ==> resp[j] == pre[j] && hd[j] == pre[j]);
    assert(forall|j: int|
        p <= j < p + dl ==> resp[j] == d[j - p] && hd[j] == d[j - p] && is_digit(d[j - p]));
    assert(forall|j: int|
        p + dl <= j < p + dl + 4 ==> resp[j] == lit_crlfcrlf()[j - p - dl] && hd[j]
            == lit_crlfcrlf()[j - p - dl]);
    // the first header terminator of the response sits right after the
    // rendered length
    lemma_term_scan_bounds(pre, 0);
    assert forall|j: int| 0 <= j < p + dl implies !is_terminator_at(resp, j) by {
        if j + 4 <= p {
            assert(!is_terminator_at(pre, j));
        } else if j < p {
            assert(resp[j] == pre[j]);
            assert(p - 3 <= j <= p - 1);
            assert(pre[j] != 13);
        } else {
            assert(is_digit(d[j - p]));
            assert(resp[j] != 13);
        }
    }
    assert(is_terminator_at(resp, p + dl));
    lemma_term_scan_first(resp, 0, p + dl);
    assert(head_of(resp) =~= hd);
    assert(body_of(resp) =~= body);
    // the lines of the head: the status line, the content-type line, the
    // content-length line, and the empty line of the terminator
    lemma_scan_to_bounds(pre, 0, 10);
    assert(hd[a1] == 10);
    lemma_scan_to_first(hd, 0, a1, 10);
    let line0 = strip_cr(hd.subrange(0, a1));
    assert(hd.subrange(0, a1) =~= pre.subrange(0, a1));
    lemma_scan_to_bounds(pre, a1 + 1, 10);
    assert(hd[a2] == 10);
    lemma_scan_to_first(hd, a1 + 1, a2, 10);
    assert(hd.subrange(a1 + 1, a2) =~= pre.subrange(a1 + 1, a2));
    lemma_scan_to_bounds(pre, a2 + 1, 10);
    assert forall|j: int| a2 + 1 <= j < p + dl + 1 implies hd[j] != 10 by {
        if j < p {
            assert(hd[j] == pre[j]);
        } else if j < p + dl {
            assert(is_digit(d[j - p]));
        } else {
            assert(hd[j] == 13);
        }
    }
    assert(hd[p + dl + 1] == 10);
    lemma_scan_to_first(hd, a2 + 1, p + dl + 1, 10);
    let tail = pre.subrange(a2 + 1, p);
    let line2raw = hd.subrange(a2 + 1, p + dl + 1);
    assert(line2raw.last() == 13);
    let line2 = tail + d;
    assert(strip_cr(line2raw) =~= line2);
    assert(hd[p + dl + 2] == 13);
    assert(hd[p + dl + 3] == 10);
    lemma_scan_to_first(hd, p + dl + 2, p + dl + 3, 10);
    let line3 = strip_cr(hd.subrange(p + dl + 2, p + dl + 3));
    assert(hd.subrange(p + dl + 2, p + dl + 3) =~= seq![13u8]);
    assert(line3 =~= Seq::<u8>::empty());
    let lines = lines_from(hd, 0);
    assert(lines_from(hd, p + dl + 4) =~= Seq::<Seq<u8>>::empty());
    assert(lines_from(hd, p + dl + 2) =~= seq![line3]);
    assert(lines_from(hd, a2 + 1) =~= seq![line2] + seq![line3]);
    assert(lines_from(hd, a1 + 1) =~= seq![strip_cr(pre.subrange(a1 + 1, a2))] + seq![line2]
        + seq![line3]);
    assert(lines =~= seq![line0] + seq![strip_cr(pre.subrange(a1 + 1, a2))] + seq![line2]
        + seq![line3]);
    // the content-length line contributes the rendered length under the
    // lowercased, trimmed name
    lemma_scan_to_bounds(tail, 0, 58);
    assert(line2[c] == 58);
    lemma_scan_to_first(line2, 0, c, 58);
    assert(line2.subrange(0, c) =~= tail.subrange(0, c));
    let rest = line2.subrange(c + 1, line2.len() as int);
    let w = tail.len() - c - 1;
    lemma_scan_non_ws_bounds(tail, c + 1);
    assert forall|j: int| 0 <= j < w implies is_ascii_ws(rest[j]) by {
        assert(rest[j] == tail[c + 1 + j]);
    }
    assert(rest[w as int] == d[0]);
    assert(!is_ascii_ws(rest[w as int]));
    lemma_scan_non_ws_first(rest, 0, w as int);
    assert(rest.len() == w + dl);
    assert(rest[rest.len() - 1] == d[dl - 1]);
    assert(!is_ascii_ws(rest[rest.len() - 1]));
    assert(scan_non_ws_rev(rest, rest.len() as int) == rest.len());
    assert(trim_spec(rest) =~= d);
    assert(entry_of_line(line2) == Some((lit_content_length_key(), d)));
    // fold the lines into entries and look the length up
    let e1 = entry_of_line(strip_cr(pre.subrange(a1 + 1, a2))).unwrap();
    let es = entries_of(lines);
    assert(lines.skip(1) =~= seq![strip_cr(pre.subrange(a1 + 1, a2))] + seq![line2] + seq![
        line3,
    ]);
    assert((seq![strip_cr(pre.subrange(a1 + 1, a2))] + seq![line2] + seq![line3]).skip(1)
        =~= seq![line2] + seq![line3]);
    assert((seq![line2] + seq![line3]).skip(1) =~= seq![line3]);
    assert(seq![line3].skip(1) =~= Seq::<Seq<u8>>::empty());
    assert(entry_of_line(line3) is None);
    let l1s = seq![strip_cr(pre.subrange(a1 + 1, a2))] + seq![line2] + seq![line3];
    assert(seq![line3][0] == line3);
    assert(entries_of(Seq::<Seq<u8>>::empty()) =~= Seq::<(Seq<u8>, Seq<u8>)>::empty());
    assert(entries_of(seq![line3]) =~= Seq::<(Seq<u8>, Seq<u8>)>::empty());
    assert((seq![line2] + seq![line3])[0] == line2);
    assert(entries_of(seq![line2] + seq![line3]) =~= seq![(lit_content_length_key(), d)]);
    assert(l1s[0] == strip_cr(pre.subrange(a1 + 1, a2)));
    assert(entries_of(l1s) =~= seq![e1] + seq![(lit_content_length_key(), d)]);
    assert(lines[0] == line0);
    assert(lines.skip(1) == l1s);
    assert(es =~= seq![e1] + seq![(lit_content_length_key(), d)]);
    assert(es.last() == (lit_content_length_key(), d));
    assert(lookup(es, lit_content_length_key()) == Some(d));
}

/// Round trip of the not-found response: it frames to a head that declares
/// `Content-Length: 0` and to an empty body.
pub proof fn lemma_not_found_round_trip()
    ensures
        has_terminator(not_found_response()),
        head_of(not_found_response()) == not_found_response(),
        body_of(not_found_response()) == Seq::<u8>::empty(),
        content_length_of(head_of(not_found_response())) == 0,
{
    let r = not_found_response();
    assert(r.len() == 45);
    assert(term_scan(r, 0) == 41) by {
        reveal_with_fuel(term_scan, 45);
    };
    assert(head_of(r) =~= r);
    assert(body_of(r) =~= Seq::<u8>::empty());
    assert(scan_to(r, 0, 10) == 23) by {
        reveal_with_fuel(scan_to, 30);
    };
    let line0 = strip_cr(r.subrange(0, 23));
    assert(scan_to(line0, 0, 58) == line0.len()) by {
        reveal_with_fuel(scan_to, 30);
    };
    assert(entry_of_line(line0) is None);
    assert(scan_to(r, 24, 10) == 42) by {
        reveal_with_fuel(scan_to, 30);
    };
    let line1 = strip_cr(r.subrange(24, 42));
    assert(line1 =~= r.subrange(24, 41));
    assert(scan_to(line1, 0, 58) == 14) by {
        reveal_with_fuel(scan_to, 20);
    };
    let name = line1.subrange(0, 14);
    assert(scan_non_ws(name, 0) == 0) by {
        reveal_with_fuel(scan_non_ws, 5);
    };
    assert(scan_non_ws_rev(name, 14) == 14) by {
        reveal_with_fuel(scan_non_ws_rev, 5);
    };
    assert(trim_spec(name) =~= name);
    assert(lower(name) =~= lit_content_length_key());
    let rest = line1.subrange(15, 17);
    assert(scan_non_ws(rest, 0) == 1) by {
        reveal_with_fuel(scan_non_ws, 5);
    };
    assert(scan_non_ws_rev(rest, 2) == 2) by {
        reveal_with_fuel(scan_non_ws_rev, 5);
    };
    assert(trim_spec(rest) =~= seq![48u8]);
    assert(entry_of_line(line1) == Some((lit_content_length_key(), seq![48u8])));
    assert(scan_to(r, 43, 10) == 44) by {
        reveal_with_fuel(scan_to, 5);
    };
    let line2 = strip_cr(r.subrange(43, 44));
    assert(r.subrange(43, 44) =~= seq![13u8]);
    assert(line2 =~= Seq::<u8>::empty());
    assert(entry_of_line(line2) is None);
    assert(lines_from(r, 45) =~= Seq::<Seq<u8>>::empty());
    assert(lines_from(r, 43) =~= seq![line2]);
    assert(lines_from(r, 24) =~= seq![line1] + seq![line2]);
    assert(lines_from(r, 0) =~= seq![line0] + seq![line1] + seq![line2]);
    let es = header_entries(r);
    assert(entries_of(Seq::<Seq<u8>>::empty()) =~= Seq::<(Seq<u8>, Seq<u8>)>::empty());
    assert(seq![line2][0] == line2);
    assert(seq![line2].skip(1) =~= Seq::<Seq<u8>>::empty());
    assert(entries_of(seq![line2]) =~= Seq::<(Seq<u8>, Seq<u8>)>::empty());
    assert((seq![line1] + seq![line2])[0] == line1);
    assert((seq![line1] + seq![line2]).skip(1) =~= seq![line2]);
    assert(entries_of(seq![line1] + seq![line2]) =~= seq![
        (lit_content_length_key(), seq![48u8]),
    ]);
    assert((seq![line0] + seq![line1] + seq![line2])[0] == line0);
    assert((seq![line0] + seq![line1] + seq![line2]).skip(1) =~= seq![line1] + seq![line2]);
    assert(es =~= seq![(lit_content_length_key(), seq![48u8])]);
    assert(lookup(es, lit_content_length_key()) == Some(seq![48u8]));
    assert(parse_usize_spec(seq![48u8]) == Some(0usize)) by {
        reveal_with_fuel(crate::bytes::digits_val, 3);
        assert(digits_part(seq![48u8]) == seq![48u8]);
        assert(seq![48u8].drop_last() =~= Seq::<u8>::empty());
    };
}

/// Round trip of the calculator response: framing the bytes that
/// `build_ok_json` writes recovers its head and exactly its body, and the
/// `Content-Length` the head declares reads back as that body's byte count.
pub proof fn lemma_ok_json_round_trip(body: Seq<u8>)
    requires
        body.len() <= usize::MAX,
    ensures
        has_terminator(ok_json_response(body)),
        head_of(ok_json_response(body)) == lit_ok_json_pre() + dec_spec(body.len())
            + lit_crlfcrlf(),
        body_of(ok_json_response(body)) == body,
        content_length_of(head_of(ok_json_response(body))) == body.len(),
{
    let pre = lit_ok_json_pre();
    let d = dec_spec(body.len());
    lemma_dec_digits(body.len());
    lemma_parse_dec_round_trip(body.len() as usize);
    assert(scan_to(pre, 0, 10) == 16) by {
        reveal_with_fuel(scan_to, 90);
        reveal_with_fuel(term_scan, 90);
        reveal_with_fuel(scan_non_ws, 20);
        reveal_with_fuel(scan_non_ws_rev, 20);
    };
    assert(scan_to(pre, 17, 10) == 63) by {
        reveal_with_fuel(scan_to, 90);
        reveal_with_fuel(term_scan, 90);
        reveal_with_fuel(scan_non_ws, 20);
        reveal_with_fuel(scan_non_ws_rev, 20);
    };
    assert(scan_to(pre, 64, 10) == 80) by {
        reveal_with_fuel(scan_to, 90);
        reveal_with_fuel(term_scan, 90);
        reveal_with_fuel(scan_non_ws, 20);
        reveal_with_fuel(scan_non_ws_rev, 20);
    };
    assert(entry_of_line(strip_cr(pre.subrange(0, 16))) is None) by {
        reveal_with_fuel(scan_to, 90);
        reveal_with_fuel(term_scan, 90);
        reveal_with_fuel(scan_non_ws, 20);
        reveal_with_fuel(scan_non_ws_rev, 20);
    };
    let l1 = strip_cr(pre.subrange(17, 63));
    assert(scan_to(l1, 0, 58) == 12) by {
        reveal_with_fuel(scan_to, 90);
        reveal_with_fuel(term_scan, 90);
        reveal_with_fuel(scan_non_ws, 20);
        reveal_with_fuel(scan_non_ws_rev, 20);
    };
    assert(scan_non_ws(l1.subrange(0, 12), 0) == 0) by {
        reveal_with_fuel(scan_to, 90);
        reveal_with_fuel(term_scan, 90);
        reveal_with_fuel(scan_non_ws, 20);
        reveal_with_fuel(scan_non_ws_rev, 20);
    };
    assert(scan_non_ws_rev(l1.subrange(0, 12), 12) == 12) by {
        reveal_with_fuel(scan_to, 90);
        reveal_with_fuel(term_scan, 90);
        reveal_with_fuel(scan_non_ws, 20);
        reveal_with_fuel(scan_non_ws_rev, 20);
    };
    assert(trim_spec(l1.subrange(0, 12)) =~= l1.subrange(0, 12));
    assert(lower(l1.subrange(0, 12)).len() == 12);
    assert(lit_content_length_key().len() == 14);
    assert(entry_of_line(l1) matches Some(e) && e.0 != lit_content_length_key());
    let tail = pre.subrange(64, 80);
    assert(scan_to(tail, 0, 58) == 14) by {
        reveal_with_fuel(scan_to, 90);
        reveal_with_fuel(term_scan, 90);
        reveal_with_fuel(scan_non_ws, 20);
        reveal_with_fuel(scan_non_ws_rev, 20);
    };
    assert(scan_non_ws(tail.subrange(0, 14), 0) == 0) by {
        reveal_with_fuel(scan_to, 90);
        reveal_with_fuel(term_scan, 90);
        reveal_with_fuel(scan_non_ws, 20);
        reveal_with_fuel(scan_non_ws_rev, 20);
    };
    assert(scan_non_ws_rev(tail.subrange(0, 14), 14) == 14) by {
        reveal_with_fuel(scan_to, 90);
        reveal_with_fuel(term_scan, 90);
        reveal_with_fuel(scan_non_ws, 20);
        reveal_with_fuel(scan_non_ws_rev, 20);
    };
    assert(trim_spec(tail.subrange(0, 14)) =~= tail.subrange(0, 14));
    assert(lower(tail.subrange(0, 14)) =~= lit_content_length_key()) by {
        reveal_with_fuel(scan_to, 90);
        reveal_with_fuel(term_scan, 90);
        reveal_with_fuel(scan_non_ws, 20);
        reveal_with_fuel(scan_non_ws_rev, 20);
    };
    assert(scan_non_ws(tail, 15) == 16) by {
        reveal_with_fuel(scan_to, 90);
        reveal_with_fuel(term_scan, 90);
        reveal_with_fuel(scan_non_ws, 20);
        reveal_with_fuel(scan_non_ws_rev, 20);
    };
    assert(term_scan(pre, 0) == 80) by {
        reveal_with_fuel(scan_to, 90);
        reveal_with_fuel(term_scan, 90);
        reveal_with_fuel(scan_non_ws, 20);
        reveal_with_fuel(scan_non_ws_rev, 20);
    };
    assert(pre[79] != 13 && pre[78] != 13 && pre[77] != 13) by {
        reveal_with_fuel(scan_to, 90);
        reveal_with_fuel(term_scan, 90);
        reveal_with_fuel(scan_non_ws, 20);
        reveal_with_fuel(scan_non_ws_rev, 20);
    };
    lemma_built_response_parses(pre, d, body, 16, 63, 14);
    assert(ok_json_response(body) =~= pre + d + lit_crlfcrlf() + body);
}

/// Round trip of the page response: framing the bytes that `build_ok_html`
/// writes recovers its head and exactly its body, and the `Content-Length`
/// the head declares reads back as that body's byte count.
pub proof fn lemma_ok_html_round_trip(body: Seq<u8>)
    requires
        body.len() <= usize::MAX,
    ensures
        has_terminator(ok_html_response(body)),
        head_of(ok_html_response(body)) == lit_ok_html_pre() + dec_spec(body.len())
            + lit_crlfcrlf(),
        body_of(ok_html_response(body)) == body,
        content_length_of(head_of(ok_html_response(body))) == body.len(),
{
    let pre = lit_ok_html_pre();
    let d = dec_spec(body.len());
    lemma_dec_digits(body.len());
    lemma_parse_dec_round_trip(body.len() as usize);
    assert(scan_to(pre, 0, 10) == 16) by {
        reveal_with_fuel(scan_to, 90);
        reveal_with_fuel(term_scan, 90);
        reveal_with_fuel(scan_non_ws, 20);
        reveal_with_fuel(scan_non_ws_rev, 20);
    };
    assert(scan_to(pre, 17, 10) == 56) by {
        reveal_with_fuel(scan_to, 90);
        reveal_with_fuel(term_scan, 90);
        reveal_with_fuel(scan_non_ws, 20);
        reveal_with_fuel(scan_non_ws_rev, 20);
    };
    assert(scan_to(pre, 57, 10) == 73) by {
        reveal_with_fuel(scan_to, 90);
        reveal_with_fuel(term_scan, 90);
        reveal_with_fuel(scan_non_ws, 20);
        reveal_with_fuel(scan_non_ws_rev, 20);
    };
    assert(entry_of_line(strip_cr(pre.subrange(0, 16))) is None) by {
        reveal_with_fuel(scan_to, 90);
        reveal_with_fuel(term_scan, 90);
        reveal_with_fuel(scan_non_ws, 20);
        reveal_with_fuel(scan_non_ws_rev, 20);
    };
    let l1 = strip_cr(pre.subrange(17, 56));
    assert(scan_to(l1, 0, 58) == 12) by {
        reveal_with_fuel(scan_to, 90);
        reveal_with_fuel(term_scan, 90);
        reveal_with_fuel(scan_non_ws, 20);
        reveal_with_fuel(scan_non_ws_rev, 20);
    };
    assert(scan_non_ws(l1.subrange(0, 12), 0) == 0) by {
        reveal_with_fuel(scan_to, 90);
        reveal_with_fuel(term_scan, 90);
        reveal_with_fuel(scan_non_ws, 20);
        reveal_with_fuel(scan_non_ws_rev, 20);
    };
    assert(scan_non_ws_rev(l1.subrange(0, 12), 12) == 12) by {
        reveal_with_fuel(scan_to, 90);
        reveal_with_fuel(term_scan, 90);
        reveal_with_fuel(scan_non_ws, 20);
        reveal_with_fuel(scan_non_ws_rev, 20);
    };
    assert(trim_spec(l1.subrange(0, 12)) =~= l1.subrange(0, 12));
    assert(lower(l1.subrange(0, 12)).len() == 12);
    assert(lit_content_length_key().len() == 14);
    assert(entry_of_line(l1) matches Some(e) && e.0 != lit_content_length_key());
    let tail = pre.subrange(57, 73);
    assert(scan_to(tail, 0, 58) == 14) by {
        reveal_with_fuel(scan_to, 90);
        reveal_with_fuel(term_scan, 90);
        reveal_with_fuel(scan_non_ws, 20);
        reveal_with_fuel(scan_non_ws_rev, 20);
    };
    assert(scan_non_ws(tail.subrange(0, 14), 0) == 0) by {
        reveal_with_fuel(scan_to, 90);
        reveal_with_fuel(term_scan, 90);
        reveal_with_fuel(scan_non_ws, 20);
        reveal_with_fuel(scan_non_ws_rev, 20);
    };
    assert(scan_non_ws_rev(tail.subrange(0, 14), 14) == 14) by {
        reveal_with_fuel(scan_to, 90);
        reveal_with_fuel(term_scan, 90);
        reveal_with_fuel(scan_non_ws, 20);
        reveal_with_fuel(scan_non_ws_rev, 20);
    };
    assert(trim_spec(tail.subrange(0, 14)) =~= tail.subrange(0, 14));
    assert(lower(tail.subrange(0, 14)) =~= lit_content_length_key()) by {
        reveal_with_fuel(scan_to, 90);
        reveal_with_fuel(term_scan, 90);
        reveal_with_fuel(scan_non_ws, 20);
        reveal_with_fuel(scan_non_ws_rev, 20);
    };
    assert(scan_non_ws(tail, 15) == 16) by {
        reveal_with_fuel(scan_to, 90);
        reveal_with_fuel(term_scan, 90);
        reveal_with_fuel(scan_non_ws, 20);
        reveal_with_fuel(scan_non_ws_rev, 20);
    };
    assert(term_scan(pre, 0) == 73) by {
        reveal_with_fuel(scan_to, 90);
        reveal_with_fuel(term_scan, 90);
        reveal_with_fuel(scan_non_ws, 20);
        reveal_with_fuel(scan_non_ws_rev, 20);
    };
    assert(pre[72] != 13 && pre[71] != 13 && pre[70] != 13) by {
        reveal_with_fuel(scan_to, 90);
        reveal_with_fuel(term_scan, 90);
        reveal_with_fuel(scan_non_ws, 20);
        reveal_with_fuel(scan_non_ws_rev, 20);
    };
    lemma_built_response_parses(pre, d, body, 16, 56, 14);
    assert(ok_html_response(body) =~= pre + d + lit_crlfcrlf() + body);
}

} // verus!
