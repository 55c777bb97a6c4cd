//! Byte-string primitives shared by the HTTP framer and the protocol code.
//!
//! HTTP heads are handled as bytes. Case is folded for ASCII letters only and
//! white space means the six ASCII white-space bytes.

use vstd::prelude::*;
use vstd::slice::*;

verus! {

/// The bytes of an ASCII text: one byte per character.
pub open spec fn ascii_bytes(s: Seq<char>) -> Seq<u8> {
    Seq::new(s.len(), |i: int| s[i] as u8)
}

/// `pat` occurs in `s` at index `i`.
pub open spec fn matches_at(s: Seq<u8>, pat: Seq<u8>, i: int) -> bool {
    0 <= i && i + pat.len() <= s.len() && s.subrange(i, i + pat.len()) == pat
}

/// `s` begins with `pat`.
pub open spec fn has_prefix(s: Seq<u8>, pat: Seq<u8>) -> bool {
    matches_at(s, pat, 0)
}

/// Index of the first occurrence of `pat` in `s` at or after `from`.
pub open spec fn find_spec(s: Seq<u8>, pat: Seq<u8>, from: int) -> Option<int>
    decreases s.len() - from,
{
    if from < 0 || from + pat.len() > s.len() {
        None
    } else if matches_at(s, pat, from) {
        Some(from)
    } else if from >= s.len() {
        None
    } else {
        find_spec(s, pat, from + 1)
    }
}

/// `pat` occurs somewhere in `s`.
pub open spec fn contains(s: Seq<u8>, pat: Seq<u8>) -> bool {
    find_spec(s, pat, 0) is Some
}

/// `p` is an initial segment of `s`.
pub open spec fn is_prefix_of(p: Seq<u8>, s: Seq<u8>) -> bool {
    p.len() <= s.len() && s.subrange(0, p.len() as int) == p
}

/// What `find_spec` finds is the first occurrence, and `None` means there is none.
pub proof fn lemma_find_first(s: Seq<u8>, pat: Seq<u8>, from: int)
    requires
        0 <= from,
    ensures
        match find_spec(s, pat, from) {
            Some(i) => from <= i && matches_at(s, pat, i) && forall|j: int|
                from <= j < i ==> !matches_at(s, pat, j),
            None => forall|j: int| from <= j ==> !matches_at(s, pat, j),
        },
    decreases s.len() - from,
{
    if from + pat.len() > s.len() {
    } else if matches_at(s, pat, from) {
    } else if from >= s.len() {
        assert(s.subrange(from, from + pat.len()) =~= pat);
    } else {
        lemma_find_first(s, pat, from + 1);
    }
}

/// An occurrence at `i` with none before it is what `find_spec` returns.
pub proof fn lemma_find_is(s: Seq<u8>, pat: Seq<u8>, from: int, i: int)
    requires
        0 <= from <= i,
        matches_at(s, pat, i),
        forall|j: int| from <= j < i ==> !matches_at(s, pat, j),
    ensures
        find_spec(s, pat, from) == Some(i),
    decreases i - from,
{
    if from < i {
        lemma_find_is(s, pat, from + 1, i);
    }
}

/// A prefix agrees with the whole on every index it has.
pub proof fn lemma_prefix_index(p: Seq<u8>, s: Seq<u8>)
    requires
        is_prefix_of(p, s),
    ensures
        forall|k: int| 0 <= k < p.len() ==> p[k] == s[k],
{
    assert forall|k: int| 0 <= k < p.len() implies p[k] == s[k] by {
        assert(s.subrange(0, p.len() as int)[k] == s[k]);
    }
}

/// An occurrence found in a prefix is found at the same place in every extension.
pub proof fn lemma_find_extend(p: Seq<u8>, s: Seq<u8>, pat: Seq<u8>, from: int)
    requires
        0 <= from,
        is_prefix_of(p, s),
        find_spec(p, pat, from) is Some,
    ensures
        find_spec(s, pat, from) == find_spec(p, pat, from),
{
    lemma_find_first(p, pat, from);
    lemma_prefix_index(p, s);
    let i = find_spec(p, pat, from).unwrap();
    assert(s.subrange(i, i + pat.len()) =~= p.subrange(i, i + pat.len()));
    assert forall|j: int| from <= j < i implies !matches_at(s, pat, j) by {
        assert(!matches_at(p, pat, j));
        assert(s.subrange(j, j + pat.len()) =~= p.subrange(j, j + pat.len()));
    }
    lemma_find_is(s, pat, from, i);
}

/// The bytes of an ASCII string literal.
pub fn lit(s: &str) -> (r: &[u8])
    requires
        s.is_ascii(),
    ensures
        r@ == ascii_bytes(s@),
{
    broadcast use vstd::string::is_ascii_spec_bytes;

    let r = s.as_bytes();
    assert(r@ =~= ascii_bytes(s@));
    r
}

/// Whether `pat` occurs in `s` at index `i`.
pub fn eq_at(s: &[u8], pat: &[u8], i: usize) -> (r: bool)
    ensures
        r == matches_at(s@, pat@, i as int),
{
    if pat.len() > s.len() || i > s.len() - pat.len() {
        return false;
    }
    let mut k: usize = 0;
    while k < pat.len()
        invariant
            k <= pat.len(),
            i + pat.len() <= s.len(),
            forall|j: int| 0 <= j < k ==> s@[i + j] == pat@[j],
        decreases pat.len() - k,
    {
        if s[i + k] != pat[k] {
            proof {
                assert(s@.subrange(i as int, i + pat@.len())[k as int] == s@[i + k]);
            }
            return false;
        }
        k += 1;
    }
    assert(s@.subrange(i as int, i + pat@.len()) =~= pat@);
    true
}

/// Finds the first occurrence of `pat` in `s` at or after `from`.
pub fn find_from(s: &[u8], pat: &[u8], from: usize) -> (r: Option<usize>)
    ensures
        match r {
            Some(i) => find_spec(s@, pat@, from as int) == Some(i as int),
            None => find_spec(s@, pat@, from as int) is None,
        },
{
    if pat.len() > s.len() || from > s.len() - pat.len() {
        return None;
    }
    let last: usize = s.len() - pat.len();
    let mut i: usize = from;
    loop
        invariant
            from <= i <= last,
            last == s.len() - pat.len(),
            find_spec(s@, pat@, from as int) == find_spec(s@, pat@, i as int),
        decreases last - i,
    {
        if eq_at(s, pat, i) {
            return Some(i);
        }
        if i == last {
            assert(find_spec(s@, pat@, i + 1) is None);
            return None;
        }
        i += 1;
    }
}

/// ASCII lower case of one byte.
pub open spec fn lower_byte(b: u8) -> u8 {
    if 65 <= b <= 90 {
        (b + 32) as u8
    } else {
        b
    }
}

/// ASCII lower case of a byte string.
pub open spec fn lower(s: Seq<u8>) -> Seq<u8> {
    Seq::new(s.len(), |i: int| lower_byte(s[i]))
}

/// Folds ASCII upper-case letters to lower case.
pub fn to_lower(s: &[u8]) -> (r: Vec<u8>)
    ensures
        r@ == lower(s@),
{
    let mut r: Vec<u8> = Vec::new();
    let mut i: usize = 0;
    while i < s.len()
        invariant
            i <= s.len(),
            r@ == lower(s@.subrange(0, i as int)),
        decreases s.len() - i,
    {
        let b: u8 = s[i];
        let c: u8 = if 65 <= b && b <= 90 {
            b + 32
        } else {
            b
        };
        r.push(c);
        i += 1;
        assert(r@ =~= lower(s@.subrange(0, i as int)));
    }
    assert(s@.subrange(0, s@.len() as int) =~= s@);
    r
}

/// One of the six ASCII white-space bytes.
pub open spec fn is_space(b: u8) -> bool {
    b == 32 || (9 <= b <= 13)
}

/// Index of the first byte at or after `from` that is not white space.
pub open spec fn skip_spaces(s: Seq<u8>, from: int) -> int
    decreases s.len() - from,
{
    if from < 0 || from >= s.len() {
        s.len() as int
    } else if is_space(s[from]) {
        skip_spaces(s, from + 1)
    } else {
        from
    }
}

/// End of `s[lo..hi]` once trailing white space is dropped.
pub open spec fn drop_trailing_spaces(s: Seq<u8>, lo: int, hi: int) -> int
    decreases hi - lo,
{
    if hi <= lo || hi > s.len() {
        lo
    } else if is_space(s[hi - 1]) {
        drop_trailing_spaces(s, lo, hi - 1)
    } else {
        hi
    }
}

/// `s` without leading and trailing white space.
pub open spec fn trim(s: Seq<u8>) -> Seq<u8> {
    let a = skip_spaces(s, 0);
    let b = drop_trailing_spaces(s, a, s.len() as int);
    s.subrange(a, b)
}

fn is_space_byte(b: u8) -> (r: bool)
    ensures
        r == is_space(b),
{
    b == 32 || (9 <= b && b <= 13)
}

/// Strips leading and trailing ASCII white space.
pub fn trim_slice(s: &[u8]) -> (r: &[u8])
    ensures
        r@ == trim(s@),
{
    let mut a: usize = 0;
    while a < s.len() && is_space_byte(s[a])
        invariant
            a <= s.len(),
            skip_spaces(s@, 0) == skip_spaces(s@, a as int),
        decreases s.len() - a,
    {
        a += 1;
    }
    let mut b: usize = s.len();
    while b > a && is_space_byte(s[b - 1])
        invariant
            a <= b <= s.len(),
            drop_trailing_spaces(s@, a as int, s@.len() as int) == drop_trailing_spaces(
                s@,
                a as int,
                b as int,
            ),
        decreases b - a,
    {
        b -= 1;
    }
    slice_subrange(s, a, b)
}

/// An ASCII decimal digit.
pub open spec fn is_digit(b: u8) -> bool {
    48 <= b <= 57
}

/// Every byte of `s` is a decimal digit.
pub open spec fn all_digits(s: Seq<u8>) -> bool {
    forall|i: int| 0 <= i < s.len() ==> is_digit(#[trigger] s[i])
}

/// The number that a string of decimal digits denotes.
pub open spec fn digits_value(s: Seq<u8>) -> nat
    decreases s.len(),
{
    if s.len() == 0 {
        0
    } else {
        digits_value(s.drop_last()) * 10 + (s.last() - 48) as nat
    }
}

/// `s` without a leading `+`.
pub open spec fn unsigned_part(s: Seq<u8>) -> Seq<u8> {
    if s.len() > 0 && s[0] == 43 {
        s.subrange(1, s.len() as int)
    } else {
        s
    }
}

/// The number written in `s`: an optional `+`, then one or more decimal digits.
pub open spec fn parse_decimal(s: Seq<u8>) -> Option<nat> {
    let d = unsigned_part(s);
    if d.len() > 0 && all_digits(d) {
        Some(digits_value(d))
    } else {
        None
    }
}

/// The number written in `s`, where it is at most `max`.
pub open spec fn parse_bounded(s: Seq<u8>, max: nat) -> Option<nat> {
    match parse_decimal(s) {
        Some(n) => if n <= max {
            Some(n)
        } else {
            None
        },
        None => None,
    }
}

/// A digit string denotes at least what each of its initial segments denotes.
pub proof fn lemma_digits_value_monotone(s: Seq<u8>, k: int)
    requires
        0 <= k <= s.len(),
        all_digits(s),
    ensures
        digits_value(s.subrange(0, k)) <= digits_value(s),
    decreases s.len() - k,
{
    if k == s.len() {
        assert(s.subrange(0, k) =~= s);
    } else {
        let t = s.drop_last();
        assert(all_digits(t)) by {
            assert forall|i: int| 0 <= i < t.len() implies is_digit(#[trigger] t[i]) by {
                assert(t[i] == s[i]);
            }
        }
        lemma_digits_value_monotone(t, k);
        assert(t.subrange(0, k) =~= s.subrange(0, k));
        assert(is_digit(s[s.len() - 1]));
    }
}

/// Parses a decimal number that fits `u64`.
pub fn parse_u64(s: &[u8]) -> (r: Option<u64>)
    ensures
        r.is_some() == parse_bounded(s@, u64::MAX as nat).is_some(),
        r.is_some() ==> r.unwrap() as nat == parse_decimal(s@).unwrap(),
{
    let start: usize = if s.len() > 0 && s[0] == 43 {
        1
    } else {
        0
    };
    let ghost d = unsigned_part(s@);
    assert(d =~= s@.subrange(start as int, s@.len() as int));
    if start >= s.len() {
        return None;
    }
    let mut acc: u64 = 0;
    let mut i: usize = start;
    while i < s.len()
        invariant
            start <= i <= s.len(),
            d == unsigned_part(s@),
            d == s@.subrange(start as int, s@.len() as int),
            all_digits(d.subrange(0, i - start)),
            acc as nat == digits_value(d.subrange(0, i - start)),
        decreases s.len() - i,
    {
        let b: u8 = s[i];
        if b < 48 || b > 57 {
            assert(!is_digit(d[i - start]));
            assert(parse_decimal(s@) is None);
            return None;
        }
        let ghost pre = d.subrange(0, i - start);
        let ghost cur = d.subrange(0, i + 1 - start);
        assert(cur.drop_last() =~= pre);
        assert(cur.last() == b);
        assert(all_digits(cur)) by {
            assert forall|j: int| 0 <= j < cur.len() implies is_digit(#[trigger] cur[j]) by {
                if j < pre.len() {
                    assert(cur[j] == pre[j]);
                }
            }
        }
        let next: Option<u64> = match acc.checked_mul(10) {
            Some(m) => m.checked_add((b - 48) as u64),
            None => None,
        };
        match next {
            Some(v) => {
                acc = v;
            },
            None => {
                proof {
                    assert(digits_value(cur) > u64::MAX);
                    if all_digits(d) {
                        lemma_digits_value_monotone(d, i + 1 - start);
                        assert(parse_decimal(s@) == Some(digits_value(d)));
                    } else {
                        assert(parse_decimal(s@) is None);
                    }
                }
                return None;
            },
        }
        i += 1;
    }
    assert(d.subrange(0, s@.len() - start) =~= d);
    assert(parse_decimal(s@) == Some(digits_value(d)));
    Some(acc)
}

/// The decimal digits of `n`, most significant first, without leading zeros.
pub open spec fn decimal(n: nat) -> Seq<u8>
    decreases n,
{
    if n < 10 {
        seq![(48 + n) as u8]
    } else {
        decimal(n / 10).push((48 + n % 10) as u8)
    }
}

/// The decimal digits of a number are digits, and there is at least one.
pub proof fn lemma_decimal_digits(n: nat)
    ensures
        decimal(n).len() > 0,
        forall|k: int| 0 <= k < decimal(n).len() ==> 48 <= #[trigger] decimal(n)[k] <= 57,
    decreases n,
{
    if n >= 10 {
        lemma_decimal_digits(n / 10);
    }
}

/// The decimal digits of a number denote that number.
pub proof fn lemma_decimal_value(n: nat)
    ensures
        all_digits(decimal(n)),
        digits_value(decimal(n)) == n,
        parse_decimal(decimal(n)) == Some(n),
    decreases n,
{
    lemma_decimal_digits(n);
    let d = decimal(n);
    assert(all_digits(d)) by {
        assert forall|i: int| 0 <= i < d.len() implies is_digit(#[trigger] d[i]) by {
            assert(48 <= d[i] <= 57);
        }
    }
    if n < 10 {
        assert(d.drop_last() =~= Seq::<u8>::empty());
        assert(digits_value(d.drop_last()) == 0);
    } else {
        lemma_decimal_value(n / 10);
        assert(d.drop_last() =~= decimal(n / 10));
        assert(d.last() == (48 + n % 10) as u8);
    }
    assert(unsigned_part(d) == d);
}

/// Numbers with the same decimal digits are the same number.
pub proof fn lemma_decimal_injective(a: nat, b: nat)
    requires
        decimal(a) == decimal(b),
    ensures
        a == b,
{
    lemma_decimal_value(a);
    lemma_decimal_value(b);
}

/// Appends the decimal digits of `n` to `out`.
pub fn push_decimal(out: &mut Vec<u8>, n: u64)
    ensures
        final(out)@ == old(out)@ + decimal(n as nat),
    decreases n,
{
    if n >= 10 {
        push_decimal(out, n / 10);
    }
    out.push((48 + n % 10) as u8);
    assert(out@ =~= old(out)@ + decimal(n as nat));
}

/// Index of the first line feed at or after `from`, or the length of `s`.
pub open spec fn next_newline(s: Seq<u8>, from: int) -> int
    decreases s.len() - from,
{
    if from < 0 || from >= s.len() {
        s.len() as int
    } else if s[from] == 10 {
        from
    } else {
        next_newline(s, from + 1)
    }
}

/// The line that starts at `from`, without its line ending (`\n` or `\r\n`).
pub open spec fn line_at(s: Seq<u8>, from: int) -> Seq<u8> {
    let e = next_newline(s, from);
    if e < s.len() && from < e && s[e - 1] == 13 {
        s.subrange(from, e - 1)
    } else {
        s.subrange(from, e)
    }
}

/// The lines of `s` from index `from` on.
pub open spec fn lines_from(s: Seq<u8>, from: int) -> Seq<Seq<u8>>
    decreases s.len() - from,
{
    let e = next_newline(s, from);
    if from < 0 || from >= s.len() || e < from {
        Seq::empty()
    } else if e >= s.len() {
        seq![line_at(s, from)]
    } else {
        seq![line_at(s, from)] + lines_from(s, e + 1)
    }
}

/// The lines of `s`. Lines end at `\n` or `\r\n`; text after the last line ending
/// is a line too, unless it is empty.
pub open spec fn lines(s: Seq<u8>) -> Seq<Seq<u8>> {
    lines_from(s, 0)
}

/// The views of a vector of byte strings.
pub open spec fn views(v: Seq<Vec<u8>>) -> Seq<Seq<u8>> {
    Seq::new(v.len(), |i: int| v[i]@)
}

pub proof fn lemma_next_newline_bounds(s: Seq<u8>, from: int)
    requires
        0 <= from <= s.len(),
    ensures
        from <= next_newline(s, from) <= s.len(),
        next_newline(s, from) < s.len() ==> s[next_newline(s, from)] == 10,
        forall|j: int| from <= j < next_newline(s, from) ==> s[j] != 10,
    decreases s.len() - from,
{
    if from < s.len() && s[from] != 10 {
        lemma_next_newline_bounds(s, from + 1);
    }
}

/// Splits `s` into lines.
pub fn split_lines(s: &[u8]) -> (r: Vec<Vec<u8>>)
    ensures
        views(r@) == lines(s@),
{
    let mut r: Vec<Vec<u8>> = Vec::new();
    let mut pos: usize = 0;
    while pos < s.len()
        invariant
            pos <= s.len(),
            lines(s@) == views(r@) + lines_from(s@, pos as int),
        decreases s.len() - pos,
    {
        let mut e: usize = pos;
        while e < s.len() && s[e] != 10
            invariant
                pos <= e <= s.len(),
                next_newline(s@, pos as int) == next_newline(s@, e as int),
            decreases s.len() - e,
        {
            e += 1;
        }
        assert(next_newline(s@, pos as int) == e);
        let end: usize = if e < s.len() && pos < e && s[e - 1] == 13 {
            e - 1
        } else {
            e
        };
        let line = slice_to_vec(slice_subrange(s, pos, end));
        assert(line@ == line_at(s@, pos as int));
        let ghost before = views(r@);
        r.push(line);
        assert(views(r@) =~= before.push(line_at(s@, pos as int)));
        assert(lines(s@) =~= views(r@) + lines_from(s@, e + 1));
        if e < s.len() {
            pos = e + 1;
        } else {
            pos = e;
        }
    }
    assert(lines(s@) =~= views(r@));
    r
}

/// Index of the first byte `b` in `s` at or after `from`, or the length of `s`.
pub open spec fn index_of(s: Seq<u8>, b: u8, from: int) -> int
    decreases s.len() - from,
{
    if from < 0 || from >= s.len() {
        s.len() as int
    } else if s[from] == b {
        from
    } else {
        index_of(s, b, from + 1)
    }
}

/// Finds the first byte `b` in `s` at or after `from`; the length of `s` if there is none.
pub fn find_byte(s: &[u8], b: u8, from: usize) -> (r: usize)
    requires
        from <= s.len(),
    ensures
        r == index_of(s@, b, from as int),
        from <= r <= s.len(),
{
    let mut i: usize = from;
    while i < s.len() && s[i] != b
        invariant
            from <= i <= s.len(),
            index_of(s@, b, from as int) == index_of(s@, b, i as int),
        decreases s.len() - i,
    {
        i += 1;
    }
    i
}

/// The text after the first colon of `line`, where it has one.
pub open spec fn after_colon(line: Seq<u8>) -> Option<Seq<u8>> {
    let c = index_of(line, 58, 0);
    if c >= line.len() {
        None
    } else {
        Some(line.subrange(c + 1, line.len() as int))
    }
}

/// The text between the first colon of `line` and the next one (or the end of the line).
pub open spec fn second_field(line: Seq<u8>) -> Option<Seq<u8>> {
    let c = index_of(line, 58, 0);
    if c >= line.len() {
        None
    } else {
        Some(line.subrange(c + 1, index_of(line, 58, c + 1)))
    }
}

/// The text after the first colon of `line`.
pub fn text_after_colon(line: &[u8]) -> (r: Option<&[u8]>)
    ensures
        r.is_some() == after_colon(line@).is_some(),
        r.is_some() ==> r.unwrap()@ == after_colon(line@).unwrap(),
{
    let c: usize = find_byte(line, 58, 0);
    if c >= line.len() {
        None
    } else {
        Some(slice_subrange(line, c + 1, line.len()))
    }
}

/// The text between the first and the second colon of `line`.
pub fn text_between_colons(line: &[u8]) -> (r: Option<&[u8]>)
    ensures
        r.is_some() == second_field(line@).is_some(),
        r.is_some() ==> r.unwrap()@ == second_field(line@).unwrap(),
{
    let c: usize = find_byte(line, 58, 0);
    if c >= line.len() {
        None
    } else {
        let d: usize = find_byte(line, 58, c + 1);
        Some(slice_subrange(line, c + 1, d))
    }
}

/// The value of a hexadecimal digit.
pub open spec fn hex_digit(b: u8) -> Option<nat> {
    if 48 <= b <= 57 {
        Some((b - 48) as nat)
    } else if 97 <= b <= 102 {
        Some((b - 87) as nat)
    } else if 65 <= b <= 70 {
        Some((b - 55) as nat)
    } else {
        None
    }
}

/// Index of the first byte at or after `from` that is no hexadecimal digit.
pub open spec fn hex_run_end(s: Seq<u8>, from: int) -> int
    decreases s.len() - from,
{
    if from < 0 || from >= s.len() {
        s.len() as int
    } else if hex_digit(s[from]) is Some {
        hex_run_end(s, from + 1)
    } else {
        from
    }
}

/// The number that the hexadecimal digits `s[lo..hi]` denote.
pub open spec fn hex_value(s: Seq<u8>, lo: int, hi: int) -> nat
    decreases hi - lo,
{
    if hi <= lo || hi > s.len() || lo < 0 {
        0
    } else {
        hex_value(s, lo, hi - 1) * 16 + match hex_digit(s[hi - 1]) {
            Some(v) => v,
            None => 0,
        }
    }
}

/// A run of hexadecimal digits denotes at least what each initial part of it denotes.
pub proof fn lemma_hex_value_monotone(s: Seq<u8>, lo: int, mid: int, hi: int)
    requires
        0 <= lo <= mid <= hi <= s.len(),
    ensures
        hex_value(s, lo, mid) <= hex_value(s, lo, hi),
    decreases hi - mid,
{
    if mid < hi {
        lemma_hex_value_monotone(s, lo, mid, hi - 1);
    }
}

/// The value and the end of a run of hexadecimal digits depend only on the bytes read.
pub proof fn lemma_hex_extend(p: Seq<u8>, s: Seq<u8>, from: int)
    requires
        0 <= from,
        is_prefix_of(p, s),
        hex_run_end(p, from) < p.len(),
    ensures
        hex_run_end(s, from) == hex_run_end(p, from),
    decreases p.len() - from,
{
    lemma_prefix_index(p, s);
    if from < p.len() && hex_digit(p[from]) is Some {
        lemma_hex_extend(p, s, from + 1);
    }
}

pub proof fn lemma_hex_value_extend(p: Seq<u8>, s: Seq<u8>, lo: int, hi: int)
    requires
        0 <= lo <= hi <= p.len(),
        is_prefix_of(p, s),
    ensures
        hex_value(s, lo, hi) == hex_value(p, lo, hi),
    decreases hi - lo,
{
    lemma_prefix_index(p, s);
    if lo < hi {
        lemma_hex_value_extend(p, s, lo, hi - 1);
    }
}

fn hex_digit_value(b: u8) -> (r: Option<u8>)
    ensures
        r.is_some() == hex_digit(b).is_some(),
        r.is_some() ==> r.unwrap() as nat == hex_digit(b).unwrap(),
{
    if 48 <= b && b <= 57 {
        Some(b - 48)
    } else if 97 <= b && b <= 102 {
        Some(b - 87)
    } else if 65 <= b && b <= 70 {
        Some(b - 55)
    } else {
        None
    }
}

/// Reads the run of hexadecimal digits that starts at `from`: where it ends, and
/// its value where that fits `u64`.
pub fn read_hex(s: &[u8], from: usize) -> (r: (usize, Option<u64>))
    requires
        from <= s.len(),
    ensures
        r.0 == hex_run_end(s@, from as int),
        from <= r.0 <= s.len(),
        match r.1 {
            Some(v) => v as nat == hex_value(s@, from as int, r.0 as int),
            None => hex_value(s@, from as int, r.0 as int) > u64::MAX,
        },
{
    let mut i: usize = from;
    let mut acc: Option<u64> = Some(0);
    loop
        invariant
            from <= i <= s.len(),
            hex_run_end(s@, from as int) == hex_run_end(s@, i as int),
            match acc {
                Some(v) => v as nat == hex_value(s@, from as int, i as int),
                None => hex_value(s@, from as int, i as int) > u64::MAX,
            },
        decreases s.len() - i,
    {
        if i >= s.len() {
            return (i, acc);
        }
        let d: u8 = match hex_digit_value(s[i]) {
            Some(d) => d,
            None => {
                return (i, acc);
            },
        };
        proof {
            lemma_hex_value_monotone(s@, from as int, i as int, i + 1);
        }
        acc = match acc {
            Some(v) => match v.checked_mul(16) {
                Some(m) => m.checked_add(d as u64),
                None => None,
            },
            None => None,
        };
        i += 1;
    }
}

/// Index of the first white-space byte at or after `from`, or the length of `s`.
pub open spec fn token_end(s: Seq<u8>, from: int) -> int
    decreases s.len() - from,
{
    if from < 0 || from >= s.len() {
        s.len() as int
    } else if is_space(s[from]) {
        from
    } else {
        token_end(s, from + 1)
    }
}

/// The `k`-th white-space-separated word of `s` from index `from` on, counted from 0.
pub open spec fn token_from(s: Seq<u8>, from: int, k: nat) -> Option<Seq<u8>>
    decreases k,
{
    let a = skip_spaces(s, from);
    if a >= s.len() {
        None
    } else if k == 0 {
        Some(s.subrange(a, token_end(s, a)))
    } else {
        token_from(s, token_end(s, a), (k - 1) as nat)
    }
}

/// The `k`-th white-space-separated word of `s`, counted from 0.
pub open spec fn token(s: Seq<u8>, k: nat) -> Option<Seq<u8>> {
    token_from(s, 0, k)
}

/// The `k`-th white-space-separated word of `s`, counted from 0.
pub fn nth_token(s: &[u8], k: usize) -> (r: Option<&[u8]>)
    ensures
        r.is_some() == token(s@, k as nat).is_some(),
        r.is_some() ==> r.unwrap()@ == token(s@, k as nat).unwrap(),
{
    let mut from: usize = 0;
    let mut left: usize = k;
    loop
        invariant
            from <= s.len(),
            left <= k,
            token(s@, k as nat) == token_from(s@, from as int, left as nat),
        decreases left,
    {
        let mut a: usize = from;
        while a < s.len() && is_space_byte(s[a])
            invariant
                from <= a <= s.len(),
                skip_spaces(s@, from as int) == skip_spaces(s@, a as int),
            decreases s.len() - a,
        {
            a += 1;
        }
        if a >= s.len() {
            return None;
        }
        let mut b: usize = a;
        while b < s.len() && !is_space_byte(s[b])
            invariant
                a <= b <= s.len(),
                token_end(s@, a as int) == token_end(s@, b as int),
            decreases s.len() - b,
        {
            b += 1;
        }
        if left == 0 {
            return Some(slice_subrange(s, a, b));
        }
        left -= 1;
        from = b;
    }
}

/// Appends `src` to `out`.
pub fn push_all(out: &mut Vec<u8>, src: &[u8])
    ensures
        final(out)@ == old(out)@ + src@,
{
    out.extend_from_slice(src);
}

/// The decimal text of an integer, with `-` before a negative one.
pub open spec fn signed_decimal(i: int) -> Seq<u8> {
    if i < 0 {
        seq![45u8] + decimal((-i) as nat)
    } else {
        decimal(i as nat)
    }
}

/// Appends the decimal text of `i` to `out`.
pub fn push_signed_decimal(out: &mut Vec<u8>, i: i64)
    ensures
        final(out)@ == old(out)@ + signed_decimal(i as int),
{
    if i >= 0 {
        push_decimal(out, i as u64);
    } else {
        out.push(45);
        let m: u64 = (-(i + 1)) as u64 + 1;
        push_decimal(out, m);
        assert(out@ =~= old(out)@ + signed_decimal(i as int));
    }
}

/// Compares two byte strings without stopping at the first difference: every
/// byte of equally long strings is read, whatever they hold.
pub fn constant_time_eq(a: &[u8], b: &[u8]) -> (r: bool)
    ensures
        r == (a@ == b@),
{
    if a.len() != b.len() {
        return false;
    }
    let mut diff: u8 = 0;
    let mut i: usize = 0;
    assert(a@.subrange(0, 0) =~= b@.subrange(0, 0));
    while i < a.len()
        invariant
            i <= a.len(),
            a.len() == b.len(),
            (diff == 0) == (a@.subrange(0, i as int) == b@.subrange(0, i as int)),
        decreases a.len() - i,
    {
        let x: u8 = a[i];
        let y: u8 = b[i];
        let ghost old_diff = diff;
        diff = diff | (x ^ y);
        assert((diff == 0) == (old_diff == 0 && x == y)) by (bit_vector)
            requires
                diff == old_diff | (x ^ y),
        ;
        proof {
            let pa = a@.subrange(0, i as int);
            let pb = b@.subrange(0, i as int);
            let na = a@.subrange(0, i + 1);
            let nb = b@.subrange(0, i + 1);
            assert(na =~= pa.push(x));
            assert(nb =~= pb.push(y));
            if na == nb {
                assert(na.drop_last() =~= pa);
                assert(nb.drop_last() =~= pb);
                assert(na.last() == nb.last());
            }
        }
        i += 1;
    }
    assert(a@.subrange(0, a@.len() as int) =~= a@);
    assert(b@.subrange(0, b@.len() as int) =~= b@);
    diff == 0
}

/// A copy of `s`.
pub fn copy_bytes(s: &[u8]) -> (r: Vec<u8>)
    ensures
        r@ == s@,
{
    slice_to_vec(s)
}

/// Whether two byte strings are the same.
pub fn same_bytes(a: &[u8], b: &[u8]) -> (r: bool)
    ensures
        r == (a@ == b@),
{
    if a.len() != b.len() {
        return false;
    }
    let r = eq_at(a, b, 0);
    assert(a@.subrange(0, a@.len() as int) =~= a@);
    r
}

/// The first line of `s`, without its line ending.
pub fn first_line(s: &[u8]) -> (r: &[u8])
    ensures
        r@ == line_at(s@, 0),
{
    let e: usize = find_byte(s, 10, 0);
    proof {
        lemma_index_is_newline(s@, 0);
    }
    if e < s.len() && 0 < e && s[e - 1] == 13 {
        slice_subrange(s, 0, e - 1)
    } else {
        slice_subrange(s, 0, e)
    }
}

/// The next line feed is the next byte 10.
pub proof fn lemma_index_is_newline(s: Seq<u8>, from: int)
    ensures
        next_newline(s, from) == index_of(s, 10, from),
    decreases s.len() - from,
{
    if 0 <= from < s.len() && s[from] != 10 {
        lemma_index_is_newline(s, from + 1);
    }
}

} // verus!
