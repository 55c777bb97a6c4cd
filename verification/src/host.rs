//! Rewriting the `Host` header of a request that is replayed against the local
//! service, and reading it back.

use vstd::prelude::*;
use vstd::slice::*;
use crate::bytes::{
    after_colon, ascii_bytes, decimal, drop_trailing_spaces, find_spec, has_prefix, is_space,
    lemma_decimal_digits, lemma_find_first, lemma_next_newline_bounds, lines, lit, lower,
    push_all, push_decimal, skip_spaces, split_lines, text_after_colon, trim, trim_slice, views,
};
use crate::http::{crlf, crlf2, crlf_bytes, find_headers_end, headers_end, line_has_prefix};
use crate::lines::{
    lemma_find_after_line, lemma_head_end, lemma_index_of_is, lemma_lines_lf_free,
    lemma_lines_prepend, lf_free,
};

verus! {

/// The authority of the local service: `localhost:<port>`.
pub open spec fn localhost_target(port: u16) -> Seq<u8> {
    ascii_bytes("localhost:"@) + decimal(port as nat)
}

/// A `Host` header line, in any case of its name.
pub open spec fn is_host_line(line: Seq<u8>) -> bool {
    has_prefix(lower(line), ascii_bytes("host:"@))
}

/// The `Host` line that names `target`.
pub open spec fn host_line(target: Seq<u8>) -> Seq<u8> {
    ascii_bytes("Host: "@) + target
}

/// The header lines from `i` on, each ended by `\r\n`: empty lines dropped, every
/// `Host` line replaced by one that names `target`, the others as they are.
pub open spec fn rewritten_tail(ls: Seq<Seq<u8>>, target: Seq<u8>, i: int) -> Seq<u8>
    decreases ls.len() - i,
{
    if i < 0 || i >= ls.len() {
        Seq::empty()
    } else if ls[i].len() == 0 {
        rewritten_tail(ls, target, i + 1)
    } else if is_host_line(ls[i]) {
        host_line(target) + crlf() + rewritten_tail(ls, target, i + 1)
    } else {
        ls[i] + crlf() + rewritten_tail(ls, target, i + 1)
    }
}

/// The head rebuilt from its lines: the request line as it is, then the header
/// lines as `rewritten_tail` gives them.
pub open spec fn rewritten_head(ls: Seq<Seq<u8>>, target: Seq<u8>) -> Seq<u8> {
    if ls.len() == 0 {
        Seq::empty()
    } else {
        ls[0] + crlf() + rewritten_tail(ls, target, 1)
    }
}

/// `req` with its `Host` header naming `target`. A request whose head has not
/// ended is left as it is.
pub open spec fn rewritten(req: Seq<u8>, target: Seq<u8>) -> Seq<u8> {
    match headers_end(req) {
        None => req,
        Some(he) => rewritten_head(lines(req.subrange(0, he + 4)), target) + crlf()
            + req.subrange(he + 4, req.len() as int),
    }
}

/// The bytes of `localhost:<port>`.
pub fn localhost_authority(local_port: u16) -> (r: Vec<u8>)
    ensures
        r@ == localhost_target(local_port),
{
    proof {
        reveal_strlit("localhost:");
    }
    let mut r: Vec<u8> = Vec::new();
    push_all(&mut r, lit("localhost:"));
    push_decimal(&mut r, local_port as u64);
    r
}

/// Rewrites the `Host` header of `request` to name `target`.
///
/// The request line, the other header lines and the body are kept; lines end in
/// `\r\n` in the result. Without a complete head the request comes back unchanged.
pub fn rewrite_host(request: &[u8], target: &[u8]) -> (r: Vec<u8>)
    ensures
        r@ == rewritten(request@, target@),
{
    let he: usize = match find_headers_end(request) {
        Some(he) => he,
        None => {
            return slice_to_vec(request);
        },
    };
    proof {
        reveal_strlit("host:");
        reveal_strlit("Host: ");
    }
    let name = lit("host:");
    let host_name = lit("Host: ");
    let ls = split_lines(slice_subrange(request, 0, he + 4));
    let ghost lv = views(ls@);
    let ghost tv = target@;
    let mut out: Vec<u8> = Vec::new();
    if ls.len() > 0 {
        push_all(&mut out, ls[0].as_slice());
        push_all(&mut out, crlf_bytes());
        assert(lv[0] == ls@[0]@);
        let mut i: usize = 1;
        while i < ls.len()
            invariant
                1 <= i <= ls.len(),
                lv == views(ls@),
                tv == target@,
                name@ == ascii_bytes("host:"@),
                host_name@ == ascii_bytes("Host: "@),
                rewritten_head(lv, tv) == out@ + rewritten_tail(lv, tv, i as int),
            decreases ls.len() - i,
        {
            let line = ls[i].as_slice();
            assert(lv[i as int] == line@);
            let ghost before = out@;
            if line.len() == 0 {
            } else if line_has_prefix(line, name) {
                push_all(&mut out, host_name);
                push_all(&mut out, target);
                push_all(&mut out, crlf_bytes());
                assert(out@ =~= before + (host_line(tv) + crlf()));
            } else {
                push_all(&mut out, line);
                push_all(&mut out, crlf_bytes());
                assert(out@ =~= before + (line@ + crlf()));
            }
            assert(rewritten_head(lv, tv) =~= out@ + rewritten_tail(lv, tv, i + 1));
            i += 1;
        }
        assert(rewritten_tail(lv, tv, ls.len() as int) =~= Seq::<u8>::empty());
        assert(out@ =~= rewritten_head(lv, tv));
    }
    push_all(&mut out, crlf_bytes());
    push_all(&mut out, slice_subrange(request, he + 4, request.len()));
    out
}

/// Rewrites the `Host` header of `request` to `localhost:<local_port>`, as the
/// local service expects it.
pub fn rewrite_host_header(request: &[u8], local_port: u16) -> (r: Vec<u8>)
    ensures
        r@ == rewritten(request@, localhost_target(local_port)),
{
    let target = localhost_authority(local_port);
    rewrite_host(request, target.as_slice())
}

/// The value of the first `Host` line among the lines from `i` on: the text
/// after the colon, without white space around it.
pub open spec fn first_host_value(ls: Seq<Seq<u8>>, i: int) -> Option<Seq<u8>>
    decreases ls.len() - i,
{
    if i < 0 || i >= ls.len() {
        None
    } else if is_host_line(ls[i]) {
        match after_colon(ls[i]) {
            Some(v) => Some(trim(v)),
            None => None,
        }
    } else {
        first_host_value(ls, i + 1)
    }
}

/// The host that a request names: the value of the first `Host` header among the
/// lines of its head after the request line. `None` without a complete head or
/// without such a header.
pub open spec fn host_of(req: Seq<u8>) -> Option<Seq<u8>> {
    match headers_end(req) {
        None => None,
        Some(he) => first_host_value(lines(req.subrange(0, he + 2)), 1),
    }
}

/// Reads the `Host` header of a request.
pub fn parse_host(request: &[u8]) -> (r: Option<Vec<u8>>)
    ensures
        r.is_some() == host_of(request@).is_some(),
        r.is_some() ==> r.unwrap()@ == host_of(request@).unwrap(),
{
    let he: usize = match find_headers_end(request) {
        Some(he) => he,
        None => {
            return None;
        },
    };
    proof {
        reveal_strlit("host:");
    }
    let name = lit("host:");
    let ls = split_lines(slice_subrange(request, 0, he + 2));
    let mut i: usize = 1;
    while i < ls.len()
        invariant
            1 <= i,
            name@ == ascii_bytes("host:"@),
            host_of(request@) == first_host_value(views(ls@), 1),
            first_host_value(views(ls@), 1) == first_host_value(views(ls@), i as int),
        decreases ls.len() - i,
    {
        let line = ls[i].as_slice();
        assert(views(ls@)[i as int] == line@);
        if line_has_prefix(line, name) {
            return match text_after_colon(line) {
                Some(v) => Some(slice_to_vec(trim_slice(v))),
                None => None,
            };
        }
        i += 1;
    }
    None
}

/// The header lines from `i` on as `rewrite_host` keeps them: empty lines
/// dropped, every `Host` line replaced by the one that names `target`.
pub open spec fn kept_tail(ls: Seq<Seq<u8>>, target: Seq<u8>, i: int) -> Seq<Seq<u8>>
    decreases ls.len() - i,
{
    if i < 0 || i >= ls.len() {
        Seq::empty()
    } else if ls[i].len() == 0 {
        kept_tail(ls, target, i + 1)
    } else if is_host_line(ls[i]) {
        seq![host_line(target)] + kept_tail(ls, target, i + 1)
    } else {
        seq![ls[i]] + kept_tail(ls, target, i + 1)
    }
}

/// The lines of a head as `rewrite_host` keeps them: the request line, then the
/// header lines of `kept_tail`.
pub open spec fn kept_lines(ls: Seq<Seq<u8>>, target: Seq<u8>) -> Seq<Seq<u8>> {
    if ls.len() == 0 {
        Seq::empty()
    } else {
        seq![ls[0]] + kept_tail(ls, target, 1)
    }
}

/// Some line from `i` on is a `Host` line.
pub open spec fn any_host_line(ls: Seq<Seq<u8>>, i: int) -> bool
    decreases ls.len() - i,
{
    if i < 0 || i >= ls.len() {
        false
    } else {
        is_host_line(ls[i]) || any_host_line(ls, i + 1)
    }
}

/// The rewritten header lines are the kept lines, each with its line ending,
/// and the empty line that ends the head comes right after them.
proof fn lemma_rewritten_tail(ls: Seq<Seq<u8>>, target: Seq<u8>, body: Seq<u8>, i: int)
    requires
        1 <= i,
        lf_free(target),
        forall|k: int| 0 <= k < ls.len() ==> lf_free(#[trigger] ls[k]),
    ensures
        lines(rewritten_tail(ls, target, i)) == kept_tail(ls, target, i),
        find_spec(crlf() + rewritten_tail(ls, target, i) + (crlf() + body), crlf2(), 0) == Some(
            rewritten_tail(ls, target, i).len() as int,
        ),
    decreases ls.len() - i,
{
    let back = crlf() + body;
    if i >= ls.len() {
        let s = crlf() + rewritten_tail(ls, target, i) + back;
        assert(s.subrange(0, 4) =~= crlf2());
        assert(lines(Seq::<u8>::empty()) =~= Seq::<Seq<u8>>::empty());
    } else {
        lemma_rewritten_tail(ls, target, body, i + 1);
        let rest = rewritten_tail(ls, target, i + 1);
        if ls[i].len() == 0 {
        } else {
            let l = if is_host_line(ls[i]) {
                host_line(target)
            } else {
                ls[i]
            };
            assert(lf_free(l)) by {
                if is_host_line(ls[i]) {
                    lemma_host_line_lf_free(target);
                }
            }
            assert(l.len() > 0) by {
                if is_host_line(ls[i]) {
                    lemma_host_line_lf_free(target);
                }
            }
            assert(rewritten_tail(ls, target, i) == l + crlf() + rest);
            lemma_lines_prepend(l, rest);
            lemma_find_after_line(l, rest + back);
            assert(crlf() + rewritten_tail(ls, target, i) + back =~= crlf() + l + (crlf() + (rest
                + back)));
            assert(crlf() + (rest + back) =~= crlf() + rest + back);
        }
    }
}

proof fn lemma_host_line_lf_free(target: Seq<u8>)
    requires
        lf_free(target),
    ensures
        lf_free(host_line(target)),
        host_line(target).len() == 6 + target.len(),
        host_line(target)[0] == 72,
        host_line(target)[1] == 111,
        host_line(target)[2] == 115,
        host_line(target)[3] == 116,
        host_line(target)[4] == 58,
        host_line(target)[5] == 32,
        forall|k: int| 0 <= k < target.len() ==> host_line(target)[6 + k] == target[k],
{
    reveal_strlit("Host: ");
    let h = host_line(target);
    assert(ascii_bytes("Host: "@).len() == 6);
    assert forall|k: int| 0 <= k < h.len() implies h[k] != 10 by {
        if k < 6 {
            assert(h[k] == ascii_bytes("Host: "@)[k]);
        } else {
            assert(h[k] == target[k - 6]);
        }
    }
}

/// The line that names `target` is a `Host` line whose value is `target`, where
/// `target` neither begins nor ends with white space.
proof fn lemma_host_line_value(target: Seq<u8>)
    requires
        lf_free(target),
        target.len() > 0,
        !is_space(target[0]),
        !is_space(target[target.len() - 1]),
    ensures
        is_host_line(host_line(target)),
        after_colon(host_line(target)) is Some,
        trim(after_colon(host_line(target)).unwrap()) == target,
{
    reveal_strlit("host:");
    lemma_host_line_lf_free(target);
    let h = host_line(target);
    let name = ascii_bytes("host:"@);
    assert(lower(h).subrange(0, 5) =~= name);
    lemma_index_of_is(h, 58, 0, 4);
    let v = h.subrange(5, h.len() as int);
    assert(after_colon(h) == Some(v));
    assert(v[0] == 32);
    assert(v[1] == target[0]);
    assert(skip_spaces(v, 1) == 1);
    assert(skip_spaces(v, 0) == 1);
    assert(v[v.len() - 1] == target[target.len() - 1]);
    assert(drop_trailing_spaces(v, 1, v.len() as int) == v.len());
    assert(v.subrange(1, v.len() as int) =~= target);
}

proof fn lemma_first_host_shift(x: Seq<u8>, k: Seq<Seq<u8>>, j: int)
    requires
        0 <= j,
    ensures
        first_host_value(seq![x] + k, j + 1) == first_host_value(k, j),
    decreases k.len() - j,
{
    let all = seq![x] + k;
    if j < k.len() {
        assert(all[j + 1] == k[j]);
        if !is_host_line(k[j]) {
            lemma_first_host_shift(x, k, j + 1);
        }
    }
}

/// Among the kept header lines the first `Host` line names `target`, if the
/// head had a `Host` line at all.
proof fn lemma_kept_host(ls: Seq<Seq<u8>>, target: Seq<u8>, i: int)
    requires
        1 <= i,
        lf_free(target),
        target.len() > 0,
        !is_space(target[0]),
        !is_space(target[target.len() - 1]),
    ensures
        first_host_value(kept_tail(ls, target, i), 0) == if any_host_line(ls, i) {
            Some(target)
        } else {
            None
        },
    decreases ls.len() - i,
{
    if i < ls.len() {
        lemma_kept_host(ls, target, i + 1);
        let rest = kept_tail(ls, target, i + 1);
        if ls[i].len() == 0 {
            assert(!is_host_line(ls[i])) by {
                reveal_strlit("host:");
                assert(ascii_bytes("host:"@).len() == 5);
            }
        } else if is_host_line(ls[i]) {
            lemma_host_line_value(target);
            let kept = seq![host_line(target)] + rest;
            assert(kept[0] == host_line(target));
        } else {
            let kept = seq![ls[i]] + rest;
            assert(kept[0] == ls[i]);
            lemma_first_host_shift(ls[i], rest, 0);
        }
    }
}

proof fn lemma_target_shape(port: u16)
    ensures
        lf_free(localhost_target(port)),
        localhost_target(port).len() > 0,
        !is_space(localhost_target(port)[0]),
        !is_space(localhost_target(port)[localhost_target(port).len() - 1]),
{
    reveal_strlit("localhost:");
    lemma_decimal_digits(port as nat);
    let t = localhost_target(port);
    let name = ascii_bytes("localhost:"@);
    let d = decimal(port as nat);
    assert(name.len() == 10);
    assert(t[0] == name[0]);
    assert(t[t.len() - 1] == d[d.len() - 1]);
    assert forall|k: int| 0 <= k < t.len() implies t[k] != 10 by {
        if k < 10 {
            assert(t[k] == name[k]);
        } else {
            assert(t[k] == d[k - 10]);
        }
    }
}

/// The round trip of a rewritten request, for a request whose head has ended
/// and a target on one line that neither begins nor ends with white space: the
/// result's head ends where the rewritten lines end; its lines are the request
/// line and the header lines of the request in their order, without the empty
/// ones and with every `Host` line naming the target, so the other headers are
/// unchanged; its body is the request's body; and if the request had a `Host`
/// header, the host read back from the result is the target.
#[verifier::rlimit(50)]
pub proof fn law_rewrite_host_round_trip(req: Seq<u8>, target: Seq<u8>)
    requires
        headers_end(req) is Some,
        lf_free(target),
        target.len() > 0,
        !is_space(target[0]),
        !is_space(target[target.len() - 1]),
    ensures
        ({
            let he = headers_end(req).unwrap();
            let ls = lines(req.subrange(0, he + 4));
            let out = rewritten(req, target);
            &&& headers_end(out) is Some
            &&& lines(out.subrange(0, headers_end(out).unwrap() + 2)) == kept_lines(ls, target)
            &&& out.subrange(headers_end(out).unwrap() + 4, out.len() as int) == req.subrange(
                he + 4,
                req.len() as int,
            )
            &&& any_host_line(ls, 1) ==> host_of(out) == Some(target)
        }),
{
    lemma_find_first(req, crlf2(), 0);
    let he = headers_end(req).unwrap();
    let head = req.subrange(0, he + 4);
    let ls = lines(head);
    let body = req.subrange(he + 4, req.len() as int);
    let out = rewritten(req, target);
    lemma_next_newline_bounds(head, 0);
    assert(head.len() == he + 4);
    assert(ls.len() > 0);
    assert forall|k: int| 0 <= k < ls.len() implies lf_free(#[trigger] ls[k]) by {
        lemma_lines_lf_free(head, 0, k);
    }
    let first = ls[0];
    let tail = rewritten_tail(ls, target, 1);
    lemma_rewritten_tail(ls, target, body, 1);
    lemma_head_end(first, tail, body);
    let end: int = (first.len() + tail.len()) as int;
    assert(out =~= first + (crlf() + tail + (crlf() + body)));
    assert(headers_end(out) == Some(end));
    assert(out.subrange(0, end + 2) =~= first + crlf() + tail);
    lemma_lines_prepend(first, tail);
    assert(out.subrange(end + 4, out.len() as int) =~= body);
    if any_host_line(ls, 1) {
        lemma_kept_host(ls, target, 1);
        lemma_first_host_shift(first, kept_tail(ls, target, 1), 0);
    }
}

/// The round trip for the local service: a request whose head has ended and
/// that has a `Host` header names `localhost:<port>` after rewriting, with its
/// other headers and its body unchanged.
pub proof fn law_rewrite_to_localhost(req: Seq<u8>, port: u16)
    requires
        headers_end(req) is Some,
    ensures
        ({
            let he = headers_end(req).unwrap();
            let ls = lines(req.subrange(0, he + 4));
            let target = localhost_target(port);
            let out = rewritten(req, target);
            &&& headers_end(out) is Some
            &&& lines(out.subrange(0, headers_end(out).unwrap() + 2)) == kept_lines(ls, target)
            &&& out.subrange(headers_end(out).unwrap() + 4, out.len() as int) == req.subrange(
                he + 4,
                req.len() as int,
            )
            &&& any_host_line(ls, 1) ==> host_of(out) == Some(target)
        }),
{
    lemma_target_shape(port);
    law_rewrite_host_round_trip(req, localhost_target(port));
}

} // verus!
