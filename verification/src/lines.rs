//! Facts about lines and heads: how the lines of a text and the empty line that
//! ends a head are found in a text that is put together from lines.

use vstd::prelude::*;
use crate::bytes::{
    find_spec, index_of, lemma_find_first, lemma_find_is, lemma_next_newline_bounds, line_at,
    lines, lines_from, matches_at, next_newline,
};
use crate::http::{crlf, crlf2};

verus! {

/// No byte of `l` is a line feed.
pub open spec fn lf_free(l: Seq<u8>) -> bool {
    forall|k: int| 0 <= k < l.len() ==> l[k] != 10
}

pub proof fn lemma_next_newline_is(s: Seq<u8>, from: int, p: int)
    requires
        0 <= from <= p < s.len(),
        s[p] == 10,
        forall|j: int| from <= j < p ==> s[j] != 10,
    ensures
        next_newline(s, from) == p,
    decreases p - from,
{
    if from < p {
        lemma_next_newline_is(s, from + 1, p);
    }
}

pub proof fn lemma_next_newline_shift(a: Seq<u8>, b: Seq<u8>, k: int)
    requires
        0 <= k,
    ensures
        next_newline(a + b, a.len() + k) == a.len() + next_newline(b, k),
    decreases b.len() - k,
{
    if k < b.len() {
        assert((a + b)[a.len() + k] == b[k]);
        if b[k] != 10 {
            lemma_next_newline_shift(a, b, k + 1);
        }
    }
}

pub proof fn lemma_lines_shift(a: Seq<u8>, b: Seq<u8>, k: int)
    requires
        0 <= k,
    ensures
        lines_from(a + b, a.len() + k) == lines_from(b, k),
    decreases b.len() - k,
{
    let s = a + b;
    let n = a.len() as int;
    if k < b.len() {
        lemma_next_newline_shift(a, b, k);
        lemma_next_newline_bounds(b, k);
        let e = next_newline(b, k);
        assert(e < b.len() ==> s[n + e] == b[e]);
        if k < e {
            assert(s[n + e - 1] == b[e - 1]);
        }
        assert(s.subrange(n + k, n + e) =~= b.subrange(k, e));
        if k < e {
            assert(s.subrange(n + k, n + e - 1) =~= b.subrange(k, e - 1));
        }
        assert(line_at(s, n + k) == line_at(b, k));
        if e < b.len() {
            lemma_lines_shift(a, b, e + 1);
        }
    }
}

/// The lines of a text never hold a line feed.
pub proof fn lemma_lines_lf_free(s: Seq<u8>, from: int, k: int)
    requires
        0 <= from,
        0 <= k < lines_from(s, from).len(),
    ensures
        lf_free(lines_from(s, from)[k]),
    decreases s.len() - from,
{
    lemma_next_newline_bounds(s, if from <= s.len() {
        from
    } else {
        s.len() as int
    });
    let e = next_newline(s, from);
    if k == 0 {
        assert(lines_from(s, from)[0] == line_at(s, from));
    } else {
        assert(e < s.len());
        assert(lines_from(s, from)[k] == lines_from(s, e + 1)[k - 1]);
        lemma_lines_lf_free(s, e + 1, k - 1);
    }
}

/// A line without a line feed, its line ending and a text have the line and the
/// lines of the text as their lines.
pub proof fn lemma_lines_prepend(l: Seq<u8>, x: Seq<u8>)
    requires
        lf_free(l),
    ensures
        lines(l + crlf() + x) == seq![l] + lines(x),
{
    let a = l + crlf();
    let s = a + x;
    assert(s =~= l + crlf() + x);
    let p = l.len() as int + 1;
    assert(s[p] == 10);
    assert(s[p - 1] == 13);
    assert forall|j: int| 0 <= j < p implies s[j] != 10 by {
        if j < l.len() {
            assert(s[j] == l[j]);
        }
    }
    lemma_next_newline_is(s, 0, p);
    assert(s.subrange(0, p - 1) =~= l);
    assert(line_at(s, 0) == l);
    lemma_lines_shift(a, x, 0);
    assert(lines_from(s, p + 1) == lines_from(x, 0));
    if p + 1 >= s.len() {
        assert(x.len() == 0);
        assert(lines_from(s, p + 1) =~= Seq::<Seq<u8>>::empty());
    }
    assert(lines_from(s, 0) =~= seq![l] + lines_from(s, p + 1));
}

pub proof fn lemma_match_bytes(s: Seq<u8>, j: int)
    requires
        matches_at(s, crlf2(), j),
    ensures
        s[j] == 13,
        s[j + 1] == 10,
        s[j + 2] == 13,
        s[j + 3] == 10,
{
    let w = s.subrange(j, j + 4);
    assert(w[0] == s[j]);
    assert(w[1] == s[j + 1]);
    assert(w[2] == s[j + 2]);
    assert(w[3] == s[j + 3]);
}

pub proof fn lemma_find_shift(a: Seq<u8>, b: Seq<u8>, pat: Seq<u8>)
    requires
        forall|j: int| 0 <= j < a.len() ==> !matches_at(a + b, pat, j),
    ensures
        find_spec(a + b, pat, 0) == match find_spec(b, pat, 0) {
            Some(k) => Some(a.len() + k),
            None => None,
        },
{
    let s = a + b;
    let n = a.len() as int;
    lemma_find_first(b, pat, 0);
    lemma_find_first(s, pat, 0);
    assert forall|j: int| n <= j implies matches_at(s, pat, j) == matches_at(b, pat, j - n) by {
        if j + pat.len() <= s.len() {
            assert(s.subrange(j, j + pat.len()) =~= b.subrange(j - n, j - n + pat.len()));
        }
    }
    match find_spec(b, pat, 0) {
        Some(k) => {
            assert(matches_at(s, pat, n + k));
            assert forall|j: int| 0 <= j < n + k implies !matches_at(s, pat, j) by {
                if j >= n {
                    assert(!matches_at(b, pat, j - n));
                }
            }
            lemma_find_is(s, pat, 0, n + k);
        },
        None => {
            if find_spec(s, pat, 0) is Some {
                let i = find_spec(s, pat, 0).unwrap();
                if i >= n {
                    assert(!matches_at(b, pat, i - n));
                }
            }
        },
    }
}

/// The empty line that ends a head is not found in or across a line that
/// follows a line ending and is followed by one.
pub proof fn lemma_find_after_line(l: Seq<u8>, y: Seq<u8>)
    requires
        l.len() > 0,
        lf_free(l),
    ensures
        find_spec(crlf() + l + (crlf() + y), crlf2(), 0) == match find_spec(
            crlf() + y,
            crlf2(),
            0,
        ) {
            Some(k) => Some(2 + l.len() + k),
            None => None,
        },
{
    let a = crlf() + l;
    let b = crlf() + y;
    let s = a + b;
    let n = a.len() as int;
    assert forall|j: int| 0 <= j < n implies !matches_at(s, crlf2(), j) by {
        if matches_at(s, crlf2(), j) {
            lemma_match_bytes(s, j);
            if j == 0 {
                if l.len() >= 2 {
                    assert(s[3] == l[1]);
                } else {
                    assert(s[3] == b[0]);
                }
            } else if j == 1 {
                assert(s[1] == 10);
            } else {
                if j + 1 < n {
                    assert(s[j + 1] == l[j + 1 - 2]);
                } else {
                    assert(s[j + 1] == b[0]);
                }
            }
        }
    }
    lemma_find_shift(a, b, crlf2());
}

pub proof fn lemma_index_of_is(s: Seq<u8>, b: u8, from: int, p: int)
    requires
        0 <= from <= p < s.len(),
        s[p] == b,
        forall|j: int| from <= j < p ==> s[j] != b,
    ensures
        index_of(s, b, from) == p,
    decreases p - from,
{
    if from < p {
        lemma_index_of_is(s, b, from + 1, p);
    }
}

/// A first line without a line feed does not hold the empty line that ends the
/// head, nor does the line together with what follows it.
pub proof fn lemma_head_end(first: Seq<u8>, tail: Seq<u8>, body: Seq<u8>)
    requires
        lf_free(first),
        find_spec(crlf() + tail + (crlf() + body), crlf2(), 0) == Some(tail.len() as int),
    ensures
        find_spec(first + (crlf() + tail + (crlf() + body)), crlf2(), 0) == Some(
            (first.len() + tail.len()) as int,
        ),
{
    let after_first = crlf() + tail + (crlf() + body);
    let s = first + after_first;
    assert(after_first[0] == 13);
    assert forall|j: int| 0 <= j < first.len() implies !matches_at(s, crlf2(), j) by {
        if matches_at(s, crlf2(), j) {
            lemma_match_bytes(s, j);
            if j + 1 < first.len() {
                assert(s[j + 1] == first[j + 1]);
            } else {
                assert(s[j + 1] == after_first[0]);
            }
        }
    }
    lemma_find_shift(first, after_first, crlf2());
}

/// The lines from `i` on put together, with a line ending between each two.
pub open spec fn joined(ls: Seq<Seq<u8>>, i: int) -> Seq<u8>
    decreases ls.len() - i,
{
    if i < 0 || i >= ls.len() {
        Seq::empty()
    } else if i == ls.len() - 1 {
        ls[i]
    } else {
        ls[i] + crlf() + joined(ls, i + 1)
    }
}

/// A text without a line feed that is not empty is its own single line.
pub proof fn lemma_lines_single(l: Seq<u8>)
    requires
        lf_free(l),
        l.len() > 0,
    ensures
        lines(l) == seq![l],
{
    lemma_next_newline_bounds(l, 0);
    assert(next_newline(l, 0) == l.len());
    assert(l.subrange(0, l.len() as int) =~= l);
    assert(lines_from(l, 0) =~= seq![l]);
}

/// Where a pattern is first found after a prefix it is first found without the
/// prefix, that much earlier.
pub proof fn lemma_find_drop_prefix(a: Seq<u8>, b: Seq<u8>, pat: Seq<u8>, k: int)
    requires
        0 <= k,
        find_spec(a + b, pat, 0) == Some(a.len() + k),
    ensures
        find_spec(b, pat, 0) == Some(k),
{
    let s = a + b;
    let n = a.len() as int;
    lemma_find_first(s, pat, 0);
    assert forall|j: int| 0 <= j implies matches_at(s, pat, n + j) == matches_at(b, pat, j) by {
        if n + j + pat.len() <= s.len() {
            assert(s.subrange(n + j, n + j + pat.len()) =~= b.subrange(j, j + pat.len()));
        }
    }
    assert(matches_at(b, pat, k));
    assert forall|j: int| 0 <= j < k implies !matches_at(b, pat, j) by {
        assert(!matches_at(s, pat, n + j));
    }
    lemma_find_is(b, pat, 0, k);
}

/// Lines without line feeds that are not empty, put together and followed by
/// the empty line and a body, are read back as they are, and the head ends
/// where they end.
pub proof fn lemma_joined(ls: Seq<Seq<u8>>, body: Seq<u8>, i: int)
    requires
        0 <= i < ls.len(),
        forall|k: int| i <= k < ls.len() ==> lf_free(#[trigger] ls[k]) && ls[k].len() > 0,
    ensures
        lines(joined(ls, i)) == ls.subrange(i, ls.len() as int),
        find_spec(crlf() + joined(ls, i) + (crlf2() + body), crlf2(), 0) == Some(
            joined(ls, i).len() as int + 2,
        ),
    decreases ls.len() - i,
{
    let l = ls[i];
    assert(lf_free(l) && l.len() > 0);
    if i == ls.len() - 1 {
        lemma_lines_single(l);
        assert(ls.subrange(i, ls.len() as int) =~= seq![l]);
        let y = crlf() + body;
        assert((crlf() + y).subrange(0, 4) =~= crlf2());
        lemma_find_first(crlf() + y, crlf2(), 0);
        assert(find_spec(crlf() + y, crlf2(), 0) == Some(0int));
        lemma_find_after_line(l, y);
        assert(crlf() + l + (crlf2() + body) =~= crlf() + l + (crlf() + y));
    } else {
        lemma_joined(ls, body, i + 1);
        let rest = joined(ls, i + 1);
        lemma_lines_prepend(l, rest);
        assert(ls.subrange(i, ls.len() as int) =~= seq![l] + ls.subrange(i + 1, ls.len() as int));
        let y = rest + (crlf2() + body);
        lemma_find_after_line(l, y);
        assert(crlf() + y =~= crlf() + rest + (crlf2() + body));
        assert(crlf() + joined(ls, i) + (crlf2() + body) =~= crlf() + l + (crlf() + y));
    }
}

/// A message put together from lines, the empty line and a body: its head ends
/// after the lines, and the lines of its head are those lines.
pub proof fn lemma_message_of_lines(ls: Seq<Seq<u8>>, body: Seq<u8>)
    requires
        ls.len() > 0,
        forall|k: int| 0 <= k < ls.len() ==> lf_free(#[trigger] ls[k]) && ls[k].len() > 0,
    ensures
        ({
            let message = joined(ls, 0) + crlf2() + body;
            &&& find_spec(message, crlf2(), 0) == Some(joined(ls, 0).len() as int)
            &&& lines(message.subrange(0, joined(ls, 0).len() as int)) == ls
            &&& message.subrange(joined(ls, 0).len() as int + 4, message.len() as int) == body
        }),
{
    let head = joined(ls, 0);
    let message = head + crlf2() + body;
    lemma_joined(ls, body, 0);
    assert(crlf() + head + (crlf2() + body) =~= crlf() + message);
    lemma_find_drop_prefix(crlf(), message, crlf2(), head.len() as int);
    assert(message.subrange(0, head.len() as int) =~= head);
    assert(ls.subrange(0, ls.len() as int) =~= ls);
    assert(message.subrange(head.len() as int + 4, message.len() as int) =~= body);
}

} // verus!
