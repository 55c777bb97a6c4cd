//! The report of an unreachable local service: what the agent writes is what
//! the edge reads, and the browser gets the page for it.

use vstd::prelude::*;
use vstd::utf8::encode_utf8;
use crate::bytes::{
    ascii_bytes, decimal, drop_trailing_spaces, has_prefix, index_of, is_space,
    lemma_decimal_digits, lemma_decimal_value, lines, lower, lower_byte, second_field,
    skip_spaces, trim,
};
use crate::edge::{forward_result, ForwardOutcomeView};
use crate::encoding::{all_ascii, ascii_chars, lemma_ascii_is_utf8};
use crate::forwarder::{
    failure_body, failure_name, one_line, report_lines, unreachable_report, ForwardError,
};
use crate::http::{content_length_of_line, first_content_length, headers_end, response_end};
use crate::lines::{joined, lemma_index_of_is, lemma_message_of_lines, lf_free};
use crate::pages::unavailable_response;
use crate::registry::decimal_chars;
use crate::request::text_of;
use crate::response::{last_field, noverlink_error};

verus! {

proof fn lemma_no_prefix(l: Seq<u8>, pat: Seq<u8>, d: int)
    requires
        0 <= d < pat.len(),
        d < l.len() ==> lower_byte(l[d]) != pat[d],
    ensures
        !has_prefix(lower(l), pat),
{
    if has_prefix(lower(l), pat) {
        let w = lower(l).subrange(0, pat.len() as int);
        assert(w[d] == lower(l)[d]);
    }
}

proof fn lemma_index_of_none(s: Seq<u8>, b: u8, from: int)
    requires
        0 <= from <= s.len(),
        forall|j: int| from <= j < s.len() ==> s[j] != b,
    ensures
        index_of(s, b, from) == s.len(),
    decreases s.len() - from,
{
    if from < s.len() {
        lemma_index_of_none(s, b, from + 1);
    }
}

/// A line made of a label that ends in a colon and a space, and a value
/// without colons and without white space at its ends, has that value.
proof fn lemma_labelled_value(label: Seq<u8>, value: Seq<u8>)
    requires
        label.len() >= 2,
        label[label.len() - 2] == 58,
        label[label.len() - 1] == 32,
        forall|k: int| 0 <= k < label.len() - 2 ==> label[k] != 58,
        forall|k: int| 0 <= k < value.len() ==> value[k] != 58,
        value.len() > 0,
        !is_space(value[0]),
        !is_space(value[value.len() - 1]),
    ensures
        second_field(label + value) is Some,
        trim(second_field(label + value).unwrap()) == value,
{
    let line = label + value;
    let c = label.len() - 2;
    assert forall|j: int| 0 <= j < c implies line[j] != 58 by {
        assert(line[j] == label[j]);
    }
    assert(line[c] == label[c]);
    lemma_index_of_is(line, 58, 0, c);
    assert forall|j: int| c + 1 <= j < line.len() implies line[j] != 58 by {
        if j == c + 1 {
            assert(line[j] == label[j]);
        } else {
            assert(line[j] == value[j - label.len()]);
        }
    }
    lemma_index_of_none(line, 58, c + 1);
    let v = line.subrange(c + 1, line.len() as int);
    assert(second_field(line) == Some(v));
    assert(v[0] == 32);
    assert(v[1] == value[0]);
    assert(skip_spaces(v, 1) == 1);
    assert(skip_spaces(v, 0) == 1);
    assert(v[v.len() - 1] == value[value.len() - 1]);
    assert(drop_trailing_spaces(v, 1, v.len() as int) == v.len());
    assert(v.subrange(1, v.len() as int) =~= value);
}

proof fn lemma_failure_name(kind: ForwardError)
    ensures
        ({
            let name = ascii_bytes(failure_name(kind));
            &&& name.len() > 0
            &&& forall|k: int| 0 <= k < name.len() ==> 97 <= #[trigger] name[k] <= 122 || name[k] == 45
            &&& ascii_chars(name) == failure_name(kind)
        }),
{
    reveal_strlit("connection-refused");
    reveal_strlit("timeout");
    reveal_strlit("other");
    let name = ascii_bytes(failure_name(kind));
    assert(ascii_chars(name) =~= failure_name(kind));
}

proof fn lemma_one_line_shape(text: Seq<u8>)
    ensures
        lf_free(one_line(text)),
{
}

/// The lines of the report hold no line feed and are not empty.
proof fn lemma_report_lines_shape(kind: ForwardError, port: u16, message: Seq<char>)
    ensures
        report_lines(kind, port, message).len() == 7,
        forall|k: int|
            0 <= k < 7 ==> lf_free(#[trigger] report_lines(kind, port, message)[k])
                && report_lines(kind, port, message)[k].len() > 0,
{
    reveal_strlit("HTTP/1.1 502 Bad Gateway");
    reveal_strlit("Content-Type: text/plain");
    reveal_strlit("X-Noverlink-Error: ");
    reveal_strlit("X-Noverlink-Port: ");
    reveal_strlit("X-Noverlink-Message: ");
    reveal_strlit("Content-Length: ");
    reveal_strlit("Connection: close");
    lemma_failure_name(kind);
    lemma_decimal_digits(port as nat);
    lemma_decimal_digits(failure_body(message).len());
    lemma_one_line_shape(encode_utf8(message));
    let ls = report_lines(kind, port, message);
    assert forall|k: int| 0 <= k < 7 implies lf_free(#[trigger] ls[k]) && ls[k].len() > 0 by {
        if k == 2 {
            lemma_labelled_lf_free(
                ascii_bytes("X-Noverlink-Error: "@),
                ascii_bytes(failure_name(kind)),
            );
        } else if k == 3 {
            lemma_labelled_lf_free(ascii_bytes("X-Noverlink-Port: "@), decimal(port as nat));
        } else if k == 4 {
            lemma_labelled_lf_free(
                ascii_bytes("X-Noverlink-Message: "@),
                one_line(encode_utf8(message)),
            );
        } else if k == 5 {
            lemma_labelled_lf_free(
                ascii_bytes("Content-Length: "@),
                decimal(failure_body(message).len()),
            );
        }
    }
}

proof fn lemma_labelled_lf_free(label: Seq<u8>, value: Seq<u8>)
    requires
        lf_free(label),
        lf_free(value),
    ensures
        lf_free(label + value),
{
    assert forall|k: int| 0 <= k < (label + value).len() implies (label + value)[k] != 10 by {
        if k < label.len() {
            assert((label + value)[k] == label[k]);
        } else {
            assert((label + value)[k] == value[k - label.len()]);
        }
    }
}

/// The lines after the third are not `X-Noverlink-Error` lines.
proof fn lemma_error_not_later(kind: ForwardError, port: u16, message: Seq<char>)
    ensures
        ({
            let ls = report_lines(kind, port, message);
            let e = ascii_bytes("x-noverlink-error:"@);
            &&& !has_prefix(lower(ls[6]), e)
            &&& !has_prefix(lower(ls[5]), e)
            &&& !has_prefix(lower(ls[4]), e)
            &&& !has_prefix(lower(ls[3]), e)
        }),
{
    reveal_strlit("x-noverlink-error:");
    reveal_strlit("X-Noverlink-Port: ");
    reveal_strlit("X-Noverlink-Message: ");
    reveal_strlit("Content-Length: ");
    reveal_strlit("Connection: close");
    let ls = report_lines(kind, port, message);
    let e = ascii_bytes("x-noverlink-error:"@);
    lemma_no_prefix(ls[6], e, 0);
    assert(ls[5][0] == ascii_bytes("Content-Length: "@)[0]);
    lemma_no_prefix(ls[5], e, 0);
    assert(ls[4][12] == ascii_bytes("X-Noverlink-Message: "@)[12]);
    lemma_no_prefix(ls[4], e, 12);
    assert(ls[3][12] == ascii_bytes("X-Noverlink-Port: "@)[12]);
    lemma_no_prefix(ls[3], e, 12);
}

/// The lines after the fourth are not `X-Noverlink-Port` lines.
proof fn lemma_port_not_later(kind: ForwardError, port: u16, message: Seq<char>)
    ensures
        ({
            let ls = report_lines(kind, port, message);
            let p = ascii_bytes("x-noverlink-port:"@);
            &&& !has_prefix(lower(ls[6]), p)
            &&& !has_prefix(lower(ls[5]), p)
            &&& !has_prefix(lower(ls[4]), p)
        }),
{
    reveal_strlit("x-noverlink-port:");
    reveal_strlit("X-Noverlink-Message: ");
    reveal_strlit("Content-Length: ");
    reveal_strlit("Connection: close");
    let ls = report_lines(kind, port, message);
    let p = ascii_bytes("x-noverlink-port:"@);
    lemma_no_prefix(ls[6], p, 0);
    assert(ls[5][0] == ascii_bytes("Content-Length: "@)[0]);
    lemma_no_prefix(ls[5], p, 0);
    assert(ls[4][12] == ascii_bytes("X-Noverlink-Message: "@)[12]);
    lemma_no_prefix(ls[4], p, 12);
}

/// The third line of the report is the `X-Noverlink-Error` line, and its value
/// is the name of the failure.
proof fn lemma_error_line(kind: ForwardError, port: u16, message: Seq<char>)
    ensures
        ({
            let ls = report_lines(kind, port, message);
            &&& has_prefix(lower(ls[2]), ascii_bytes("x-noverlink-error:"@))
            &&& second_field(ls[2]) is Some
            &&& trim(second_field(ls[2]).unwrap()) == ascii_bytes(failure_name(kind))
        }),
{
    reveal_strlit("x-noverlink-error:");
    reveal_strlit("X-Noverlink-Error: ");
    lemma_failure_name(kind);
    let label = ascii_bytes("X-Noverlink-Error: "@);
    let name = ascii_bytes(failure_name(kind));
    let line = label + name;
    assert forall|k: int| 0 <= k < 18 implies lower(line)[k] == ascii_bytes(
        "x-noverlink-error:"@,
    )[k] by {
        assert(line[k] == label[k]);
    }
    assert(lower(line).subrange(0, 18) =~= ascii_bytes("x-noverlink-error:"@));
    assert forall|k: int| 0 <= k < name.len() implies name[k] != 58 by {
        assert(97 <= name[k] <= 122 || name[k] == 45);
    }
    assert(97 <= name[0] <= 122 || name[0] == 45);
    assert(97 <= name[name.len() - 1] <= 122 || name[name.len() - 1] == 45);
    lemma_labelled_value(label, name);
}

/// The fourth line of the report is the `X-Noverlink-Port` line, and its value
/// is the port in decimal digits.
proof fn lemma_port_line(kind: ForwardError, port: u16, message: Seq<char>)
    ensures
        ({
            let ls = report_lines(kind, port, message);
            &&& has_prefix(lower(ls[3]), ascii_bytes("x-noverlink-port:"@))
            &&& second_field(ls[3]) is Some
            &&& trim(second_field(ls[3]).unwrap()) == decimal(port as nat)
        }),
{
    reveal_strlit("x-noverlink-port:");
    reveal_strlit("X-Noverlink-Port: ");
    lemma_decimal_digits(port as nat);
    let label = ascii_bytes("X-Noverlink-Port: "@);
    let digits = decimal(port as nat);
    let line = label + digits;
    assert forall|k: int| 0 <= k < 17 implies lower(line)[k] == ascii_bytes(
        "x-noverlink-port:"@,
    )[k] by {
        assert(line[k] == label[k]);
    }
    assert(lower(line).subrange(0, 17) =~= ascii_bytes("x-noverlink-port:"@));
    assert(48 <= digits[0] <= 57);
    assert(48 <= digits[digits.len() - 1] <= 57);
    lemma_labelled_value(label, digits);
}

/// What the agent reports is what the edge reads: the answer that the agent
/// writes for an unreachable local service is recognised by the edge, with the
/// kind of failure and the port that the agent named, and the browser gets the
/// page for it with status 503 in place of the agent's answer.
pub proof fn law_report_is_recognised(kind: ForwardError, port: u16, message: Seq<char>)
    ensures
        ({
            let report = unreachable_report(kind, port, message);
            let result = forward_result(ForwardOutcomeView::Response(report));
            &&& noverlink_error(report) is Some
            &&& noverlink_error(report).unwrap().error_type == failure_name(kind)
            &&& noverlink_error(report).unwrap().port == decimal_chars(port as nat)
            &&& result.status == 503
            &&& result.to_browser == unavailable_response(noverlink_error(report).unwrap())
        }),
{
    let ls = report_lines(kind, port, message);
    let body = failure_body(message);
    let report = unreachable_report(kind, port, message);
    lemma_report_lines_shape(kind, port, message);
    lemma_message_of_lines(ls, body);
    let he = joined(ls, 0).len() as int;
    assert(headers_end(report) == Some(he));
    assert(lines(report.subrange(0, he)) == ls);
    let e = ascii_bytes("x-noverlink-error:"@);
    let p = ascii_bytes("x-noverlink-port:"@);
    lemma_error_not_later(kind, port, message);
    lemma_error_line(kind, port, message);
    assert(last_field(ls, e, false, 3) == Some(ascii_bytes(failure_name(kind))));
    assert(last_field(ls, e, false, 4) == last_field(ls, e, false, 3));
    assert(last_field(ls, e, false, 5) == last_field(ls, e, false, 4));
    assert(last_field(ls, e, false, 6) == last_field(ls, e, false, 5));
    assert(last_field(ls, e, false, 7) == last_field(ls, e, false, 6));
    lemma_port_not_later(kind, port, message);
    lemma_port_line(kind, port, message);
    assert(last_field(ls, p, false, 4) == Some(decimal(port as nat)));
    assert(last_field(ls, p, false, 5) == last_field(ls, p, false, 4));
    assert(last_field(ls, p, false, 6) == last_field(ls, p, false, 5));
    assert(last_field(ls, p, false, 7) == last_field(ls, p, false, 6));
    lemma_failure_name(kind);
    lemma_decimal_digits(port as nat);
    assert(all_ascii(ascii_bytes(failure_name(kind))));
    lemma_ascii_is_utf8(ascii_bytes(failure_name(kind)));
    assert(all_ascii(decimal(port as nat)));
    lemma_ascii_is_utf8(decimal(port as nat));
    assert(text_of(ascii_bytes(failure_name(kind))) == Some(failure_name(kind)));
    assert(text_of(decimal(port as nat)) == Some(decimal_chars(port as nat)));
}

/// The lines before the sixth are not `Content-Length` lines.
proof fn lemma_length_not_earlier(kind: ForwardError, port: u16, message: Seq<char>)
    ensures
        ({
            let ls = report_lines(kind, port, message);
            let c = ascii_bytes("content-length:"@);
            &&& !has_prefix(lower(ls[0]), c)
            &&& !has_prefix(lower(ls[1]), c)
            &&& !has_prefix(lower(ls[2]), c)
            &&& !has_prefix(lower(ls[3]), c)
            &&& !has_prefix(lower(ls[4]), c)
        }),
{
    reveal_strlit("content-length:");
    reveal_strlit("HTTP/1.1 502 Bad Gateway");
    reveal_strlit("Content-Type: text/plain");
    reveal_strlit("X-Noverlink-Error: ");
    reveal_strlit("X-Noverlink-Port: ");
    reveal_strlit("X-Noverlink-Message: ");
    let ls = report_lines(kind, port, message);
    let c = ascii_bytes("content-length:"@);
    lemma_no_prefix(ls[0], c, 0);
    lemma_no_prefix(ls[1], c, 8);
    assert(ls[2][0] == ascii_bytes("X-Noverlink-Error: "@)[0]);
    lemma_no_prefix(ls[2], c, 0);
    assert(ls[3][0] == ascii_bytes("X-Noverlink-Port: "@)[0]);
    lemma_no_prefix(ls[3], c, 0);
    assert(ls[4][0] == ascii_bytes("X-Noverlink-Message: "@)[0]);
    lemma_no_prefix(ls[4], c, 0);
}

/// The sixth line of the report is the `Content-Length` line, and it announces
/// the length of the body.
proof fn lemma_length_line(kind: ForwardError, port: u16, message: Seq<char>)
    requires
        failure_body(message).len() <= u64::MAX,
    ensures
        content_length_of_line(report_lines(kind, port, message)[5]) == Some(
            failure_body(message).len(),
        ),
{
    reveal_strlit("content-length:");
    reveal_strlit("Content-Length: ");
    let n = failure_body(message).len();
    lemma_decimal_digits(n);
    lemma_decimal_value(n);
    let label = ascii_bytes("Content-Length: "@);
    let digits = decimal(n);
    let line = label + digits;
    assert forall|k: int| 0 <= k < 15 implies lower(line)[k] == ascii_bytes(
        "content-length:"@,
    )[k] by {
        assert(line[k] == label[k]);
    }
    assert(lower(line).subrange(0, 15) =~= ascii_bytes("content-length:"@));
    assert(48 <= digits[0] <= 57);
    assert(48 <= digits[digits.len() - 1] <= 57);
    lemma_labelled_value(label, digits);
}

/// The agent's report is a whole response: it ends exactly where its
/// `Content-Length` says, so the edge that reads it has all of it and no prefix
/// of it passes for complete.
pub proof fn law_report_is_complete(kind: ForwardError, port: u16, message: Seq<char>)
    requires
        failure_body(message).len() <= u64::MAX,
    ensures
        response_end(unreachable_report(kind, port, message)) == Some(
            unreachable_report(kind, port, message).len() as int,
        ),
{
    let ls = report_lines(kind, port, message);
    let body = failure_body(message);
    let report = unreachable_report(kind, port, message);
    lemma_report_lines_shape(kind, port, message);
    lemma_message_of_lines(ls, body);
    let he = joined(ls, 0).len() as int;
    assert(headers_end(report) == Some(he));
    assert(lines(report.subrange(0, he)) == ls);
    lemma_length_not_earlier(kind, port, message);
    lemma_length_line(kind, port, message);
    assert(first_content_length(ls, 5) == Some(body.len()));
    assert(first_content_length(ls, 4) == first_content_length(ls, 5));
    assert(first_content_length(ls, 3) == first_content_length(ls, 4));
    assert(first_content_length(ls, 2) == first_content_length(ls, 3));
    assert(first_content_length(ls, 1) == first_content_length(ls, 2));
    assert(first_content_length(ls, 0) == first_content_length(ls, 1));
    assert(report.len() == he + 4 + body.len());
}

} // verus!
