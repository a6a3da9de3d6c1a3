//! Character-level text primitives shared by the matcher, the tokenizer
//! and the extractors: whitespace classification, prefix tests, splitting
//! a remainder into positional arguments, and decimal parsing/printing.

use vstd::prelude::*;

verus! {

/// True of the characters the command grammar treats as whitespace.
pub open spec fn is_ws(c: char) -> bool {
    c == ' ' || c == '\t' || c == '\n' || c == '\r'
}

/// A sequence without any whitespace character.
pub open spec fn ws_free(s: Seq<char>) -> bool {
    forall|k: int| 0 <= k < s.len() ==> !is_ws(#[trigger] s[k])
}

/// Index of the first non-whitespace character at or after `i`
/// (`s.len()` when only whitespace remains).
pub open spec fn skip_ws(s: Seq<char>, i: int) -> int
    decreases s.len() - i when 0 <= i <= s.len()
{
    if i >= s.len() || !is_ws(s[i]) {
        i
    } else {
        skip_ws(s, i + 1)
    }
}

/// Index of the first whitespace character at or after `i`
/// (`s.len()` when no whitespace follows).
pub open spec fn token_end(s: Seq<char>, i: int) -> int
    decreases s.len() - i when 0 <= i <= s.len()
{
    if i >= s.len() || is_ws(s[i]) {
        i
    } else {
        token_end(s, i + 1)
    }
}

pub proof fn lemma_skip_ws_bounds(s: Seq<char>, i: int)
    requires
        0 <= i <= s.len(),
    ensures
        i <= skip_ws(s, i) <= s.len(),
        forall|k: int| i <= k < skip_ws(s, i) ==> is_ws(#[trigger] s[k]),
        skip_ws(s, i) < s.len() ==> !is_ws(s[skip_ws(s, i)]),
    decreases s.len() - i,
{
    if i < s.len() && is_ws(s[i]) {
        lemma_skip_ws_bounds(s, i + 1);
    }
}

pub proof fn lemma_token_end_bounds(s: Seq<char>, i: int)
    requires
        0 <= i <= s.len(),
    ensures
        i <= token_end(s, i) <= s.len(),
        forall|k: int| i <= k < token_end(s, i) ==> !is_ws(#[trigger] s[k]),
        token_end(s, i) < s.len() ==> is_ws(s[token_end(s, i)]),
    decreases s.len() - i,
{
    if i < s.len() && !is_ws(s[i]) {
        lemma_token_end_bounds(s, i + 1);
    }
}

/// `skip_ws(s, i)` is the one index whose run of whitespace ends there.
pub proof fn lemma_skip_ws_eq(s: Seq<char>, i: int, j: int)
    requires
        0 <= i <= j <= s.len(),
        forall|k: int| i <= k < j ==> is_ws(#[trigger] s[k]),
        j == s.len() || !is_ws(s[j]),
    ensures
        skip_ws(s, i) == j,
    decreases j - i,
{
    if i < j {
        lemma_skip_ws_eq(s, i + 1, j);
    }
}

/// `token_end(s, i)` is the one index where the run of non-whitespace ends.
pub proof fn lemma_token_end_eq(s: Seq<char>, i: int, j: int)
    requires
        0 <= i <= j <= s.len(),
        forall|k: int| i <= k < j ==> !is_ws(#[trigger] s[k]),
        j == s.len() || is_ws(s[j]),
    ensures
        token_end(s, i) == j,
    decreases j - i,
{
    if i < j {
        lemma_token_end_eq(s, i + 1, j);
    }
}

#[via_fn]
proof fn tokenize_from_decreases(s: Seq<char>, i: int) {
    if 0 <= i <= s.len() && i < s.len() && !is_ws(s[i]) {
        lemma_token_end_bounds(s, i);
        assert(token_end(s, i) > i);
    }
}

/// The whitespace-delimited tokens of `s` at or after index `i`, in order.
pub open spec fn tokenize_from(s: Seq<char>, i: int) -> Seq<Seq<char>>
    decreases s.len() - i when 0 <= i <= s.len() via tokenize_from_decreases
{
    if i >= s.len() {
        Seq::empty()
    } else if is_ws(s[i]) {
        tokenize_from(s, i + 1)
    } else {
        seq![s.subrange(i, token_end(s, i))] + tokenize_from(s, token_end(s, i))
    }
}

/// The whitespace-delimited tokens of `s`, in order.
pub open spec fn tokenize(s: Seq<char>) -> Seq<Seq<char>> {
    tokenize_from(s, 0)
}

/// The tokens re-joined with a single space between neighbours.
pub open spec fn join_tokens(ts: Seq<Seq<char>>) -> Seq<char>
    decreases ts.len()
{
    if ts.len() == 0 {
        Seq::empty()
    } else if ts.len() == 1 {
        ts[0]
    } else {
        ts[0] + seq![' '] + join_tokens(ts.drop_first())
    }
}

/// Every token that tokenizing produces is non-empty and free of
/// whitespace.
pub proof fn lemma_tokenize_tokens_wf(s: Seq<char>, i: int)
    requires
        0 <= i <= s.len(),
    ensures
        forall|k: int|
            0 <= k < tokenize_from(s, i).len() ==> (#[trigger] tokenize_from(s, i)[k]).len() > 0
                && ws_free(tokenize_from(s, i)[k]),
    decreases s.len() - i,
{
    if i < s.len() {
        if is_ws(s[i]) {
            lemma_tokenize_tokens_wf(s, i + 1);
            assert forall|k: int|
                0 <= k < tokenize_from(s, i).len() implies (#[trigger] tokenize_from(s, i)[k]).len()
                > 0 && ws_free(tokenize_from(s, i)[k]) by {
                assert(tokenize_from(s, i)[k] == tokenize_from(s, i + 1)[k]);
            }
        } else {
            lemma_token_end_bounds(s, i);
            let e = token_end(s, i);
            lemma_tokenize_tokens_wf(s, e);
            let first = s.subrange(i, e);
            assert(first.len() > 0);
            assert(ws_free(first));
            assert forall|k: int|
                0 <= k < tokenize_from(s, i).len() implies (#[trigger] tokenize_from(s, i)[k]).len()
                > 0 && ws_free(tokenize_from(s, i)[k]) by {
                if k == 0 {
                    assert(tokenize_from(s, i)[0] == first);
                } else {
                    assert(tokenize_from(s, i)[k] == tokenize_from(s, e)[k - 1]);
                }
            }
        }
    }
}

/// Tokens at or after `i + k` of the text `p + v` (`p` of length `i`) are
/// the tokens of `v` at or after `k`.
proof fn lemma_tokenize_from_suffix(p: Seq<char>, v: Seq<char>, k: int)
    requires
        0 <= k <= v.len(),
    ensures
        tokenize_from(p + v, p.len() + k) == tokenize_from(v, k),
    decreases v.len() - k,
{
    let u = p + v;
    let i = p.len() as int;
    if k >= v.len() {
    } else {
        assert(u[i + k] == v[k]);
        if is_ws(v[k]) {
            lemma_tokenize_from_suffix(p, v, k + 1);
        } else {
            lemma_token_end_bounds(v, k);
            let e = token_end(v, k);
            assert forall|m: int| i + k <= m < i + e implies !is_ws(#[trigger] u[m]) by {
                assert(u[m] == v[m - i]);
            }
            if e < v.len() {
                assert(u[i + e] == v[e]);
            }
            lemma_token_end_eq(u, i + k, i + e);
            assert(u.subrange(i + k, i + e) =~= v.subrange(k, e));
            lemma_tokenize_from_suffix(p, v, e);
        }
    }
}

/// Tokenizing what non-empty whitespace-free tokens were joined into
/// gives those tokens back.
pub proof fn lemma_tokenize_join(ts: Seq<Seq<char>>)
    requires
        forall|k: int| 0 <= k < ts.len() ==> (#[trigger] ts[k]).len() > 0 && ws_free(ts[k]),
    ensures
        tokenize(join_tokens(ts)) == ts,
    decreases ts.len(),
{
    if ts.len() == 0 {
    } else if ts.len() == 1 {
        let j = ts[0];
        lemma_token_end_eq(j, 0, j.len() as int);
        assert(j.subrange(0, j.len() as int) =~= j);
        assert(tokenize_from(j, j.len() as int) =~= Seq::<Seq<char>>::empty());
        assert(tokenize(j) =~= ts);
    } else {
        let first = ts[0];
        let rest = join_tokens(ts.drop_first());
        let j = first + seq![' '] + rest;
        assert(join_tokens(ts) == j);
        let fl = first.len() as int;
        assert forall|m: int| 0 <= m < fl implies !is_ws(#[trigger] j[m]) by {
            assert(j[m] == first[m]);
        }
        assert(j[fl] == ' ');
        lemma_token_end_eq(j, 0, fl);
        assert(j.subrange(0, fl) =~= first);
        assert(tokenize_from(j, 0) == seq![first] + tokenize_from(j, fl));
        assert(tokenize_from(j, fl) == tokenize_from(j, fl + 1));
        let head = first + seq![' '];
        assert(j =~= head + rest);
        assert(head.len() == fl + 1);
        lemma_tokenize_from_suffix(head, rest, 0);
        assert(tokenize_from(j, fl + 1) == tokenize(rest));
        assert forall|k: int| 0 <= k < ts.drop_first().len() implies (#[trigger] ts.drop_first()[k]).len()
            > 0 && ws_free(ts.drop_first()[k]) by {
            assert(ts.drop_first()[k] == ts[k + 1]);
        }
        lemma_tokenize_join(ts.drop_first());
        assert(tokenize(j) =~= seq![first] + ts.drop_first());
        assert(seq![first] + ts.drop_first() =~= ts);
    }
}

/// Tokenizing a remainder on whitespace and re-joining the tokens with
/// single spaces is idempotent: on an already collapsed remainder the
/// round trip changes nothing.
pub proof fn lemma_join_tokenize_idempotent(s: Seq<char>)
    ensures
        join_tokens(tokenize(join_tokens(tokenize(s)))) == join_tokens(tokenize(s)),
{
    lemma_tokenize_tokens_wf(s, 0);
    lemma_tokenize_join(tokenize(s));
}

/// A decimal digit.
pub open spec fn is_digit(c: char) -> bool {
    48 <= c as u32 <= 57
}

/// Numeric value of a decimal digit.
pub open spec fn digit_val(c: char) -> int {
    c as u32 - 48
}

/// Every character of `s` is a decimal digit.
pub open spec fn all_digits(s: Seq<char>) -> bool {
    forall|k: int| 0 <= k < s.len() ==> is_digit(#[trigger] s[k])
}

/// Value of a digit string read in base ten.
pub open spec fn digits_val(s: Seq<char>) -> int
    decreases s.len()
{
    if s.len() == 0 {
        0
    } else {
        digits_val(s.drop_last()) * 10 + digit_val(s.last())
    }
}

/// `s` is a decimal integer literal: an optional sign, then one or more
/// digits.
pub open spec fn is_int_literal(s: Seq<char>) -> bool {
    if s.len() == 0 {
        false
    } else if s[0] == '-' || s[0] == '+' {
        s.len() > 1 && all_digits(s.subrange(1, s.len() as int))
    } else {
        all_digits(s)
    }
}

/// Value of a decimal integer literal.
pub open spec fn int_literal_val(s: Seq<char>) -> int {
    if 0 < s.len() && s[0] == '-' {
        -digits_val(s.subrange(1, s.len() as int))
    } else if 0 < s.len() && s[0] == '+' {
        digits_val(s.subrange(1, s.len() as int))
    } else {
        digits_val(s)
    }
}

pub proof fn lemma_digits_val_nonneg(s: Seq<char>)
    requires
        all_digits(s),
    ensures
        digits_val(s) >= 0,
    decreases s.len(),
{
    if s.len() > 0 {
        assert(all_digits(s.drop_last()));
        lemma_digits_val_nonneg(s.drop_last());
    }
}

/// Reading more digits never shrinks the value.
pub proof fn lemma_digits_val_prefix(s: Seq<char>, k: int)
    requires
        0 <= k <= s.len(),
        all_digits(s),
    ensures
        digits_val(s.subrange(0, k)) <= digits_val(s),
    decreases s.len() - k,
{
    if k < s.len() {
        let shorter = s.subrange(0, k);
        let longer = s.subrange(0, k + 1);
        assert(longer.drop_last() =~= shorter);
        assert(all_digits(shorter));
        lemma_digits_val_nonneg(shorter);
        assert(digits_val(longer) == digits_val(shorter) * 10 + digit_val(s[k]));
        lemma_digits_val_prefix(s, k + 1);
    } else {
        assert(s.subrange(0, k) =~= s);
    }
}

/// Parse a decimal integer literal; the result exists exactly when `s` is
/// a literal whose value fits the signed machine word.
pub fn parse_i64(s: &str) -> (r: Option<i64>)
    ensures
        match r {
            Some(v) => is_int_literal(s@) && int_literal_val(s@) == v as int,
            None => !(is_int_literal(s@) && i64::MIN <= int_literal_val(s@) <= i64::MAX),
        },
{
    let n: usize = s.unicode_len();
    if n == 0 {
        return None;
    }
    let first: char = s.get_char(0);
    let neg: bool = first == '-';
    let signed: bool = neg || first == '+';
    let start: usize = if signed {
        1
    } else {
        0
    };
    if signed && n == 1 {
        return None;
    }
    let ghost dpart = s@.subrange(start as int, n as int);
    let lim_div: u64 = 922337203685477580;
    let lim_mod: u64 = if neg {
        8
    } else {
        7
    };
    let ghost limit: int = 9223372036854775800 + lim_mod as int;
    let mut acc: u64 = 0;
    let mut k: usize = start;
    proof {
        assert(s@.subrange(start as int, start as int) =~= Seq::<char>::empty());
    }
    while k < n
        invariant
            n == s@.len(),
            n > 0,
            start <= k <= n,
            start < n,
            neg == (s@[0] == '-'),
            signed == (s@[0] == '-' || s@[0] == '+'),
            start == if signed { 1int } else { 0int },
            dpart == s@.subrange(start as int, n as int),
            limit == 9223372036854775800 + lim_mod as int,
            lim_div == 922337203685477580,
            lim_mod == if neg { 8u64 } else { 7u64 },
            forall|m: int| start <= m < k ==> is_digit(#[trigger] s@[m]),
            acc as int == digits_val(s@.subrange(start as int, k as int)),
            acc as int <= limit,
        decreases n - k,
    {
        let c: char = s.get_char(k);
        let u: u32 = c as u32;
        if u < 48 || u > 57 {
            proof {
                assert(!is_digit(s@[k as int]));
                assert(dpart[k - start] == s@[k as int]);
                assert(!all_digits(dpart));
                if start == 0 {
                    assert(dpart =~= s@);
                } else {
                    assert(dpart =~= s@.subrange(1, s@.len() as int));
                }
            }
            return None;
        }
        let d: u64 = (u - 48) as u64;
        let ghost prevpre = s@.subrange(start as int, k as int);
        let ghost pre = s@.subrange(start as int, k as int + 1);
        proof {
            assert(pre.drop_last() =~= prevpre);
            assert(digits_val(pre) == acc as int * 10 + d as int);
        }
        if acc > lim_div || (acc == lim_div && d > lim_mod) {
            proof {
                assert(digits_val(pre) > limit);
                if start == 0 {
                    assert(dpart =~= s@);
                } else {
                    assert(dpart =~= s@.subrange(1, s@.len() as int));
                }
                if is_int_literal(s@) {
                    assert(all_digits(dpart));
                    assert(pre =~= dpart.subrange(0, k - start + 1));
                    assert forall|m: int| 0 <= m < pre.len() implies is_digit(
                        #[trigger] pre[m],
                    ) by {
                        assert(pre[m] == dpart[m]);
                    }
                    lemma_digits_val_prefix(dpart, k - start + 1);
                    assert(digits_val(dpart.subrange(0, k - start + 1)) == digits_val(pre));
                    assert(digits_val(dpart) > limit);
                    if neg {
                        assert(int_literal_val(s@) == -digits_val(dpart));
                        assert(int_literal_val(s@) < i64::MIN);
                    } else {
                        assert(int_literal_val(s@) == digits_val(dpart));
                        assert(int_literal_val(s@) > i64::MAX);
                    }
                }
            }
            return None;
        }
        acc = acc * 10 + d;
        k += 1;
    }
    proof {
        assert(s@.subrange(start as int, k as int) =~= dpart);
        assert(all_digits(dpart));
        if start == 0 {
            assert(dpart =~= s@);
        } else {
            assert(dpart =~= s@.subrange(1, s@.len() as int));
        }
        assert(is_int_literal(s@));
        if neg {
            assert(int_literal_val(s@) == -(acc as int));
        } else {
            assert(int_literal_val(s@) == acc as int);
        }
    }
    if neg {
        if acc == 9223372036854775808u64 {
            Some(i64::MIN)
        } else {
            Some(-(acc as i64))
        }
    } else {
        Some(acc as i64)
    }
}

/// Whether `c` is one of the whitespace characters of the command grammar.
pub fn is_whitespace_char(c: char) -> (r: bool)
    ensures
        r == is_ws(c),
{
    c == ' ' || c == '\t' || c == '\n' || c == '\r'
}

/// Split `s` into its whitespace-delimited tokens, in order.
pub fn split_ws(s: &str) -> (r: Vec<String>)
    ensures
        r.deep_view() == tokenize(s@),
{
    let n: usize = s.unicode_len();
    let mut r: Vec<String> = Vec::new();
    let mut i: usize = 0;
    proof {
        assert(r.deep_view() =~= Seq::<Seq<char>>::empty());
        assert(r.deep_view() + tokenize_from(s@, 0) =~= tokenize(s@));
    }
    while i < n
        invariant
            n == s@.len(),
            0 <= i <= n,
            r.deep_view() + tokenize_from(s@, i as int) == tokenize(s@),
        decreases n - i,
    {
        if is_whitespace_char(s.get_char(i)) {
            proof {
                assert(tokenize_from(s@, i as int) == tokenize_from(s@, i as int + 1));
            }
            i += 1;
        } else {
            let mut j: usize = i + 1;
            while j < n && !is_whitespace_char(s.get_char(j))
                invariant
                    n == s@.len(),
                    i < j <= n,
                    forall|k: int| i <= k < j ==> !is_ws(#[trigger] s@[k]),
                decreases n - j,
            {
                j += 1;
            }
            proof {
                lemma_token_end_eq(s@, i as int, j as int);
            }
            let tok = s.substring_char(i, j);
            let ghost pre = r.deep_view();
            r.push(String::from_str(tok));
            proof {
                assert forall|k: int| 0 <= k < r@.len() implies r.deep_view()[k] == pre.push(
                    tok@,
                )[k] by {
                    if k < pre.len() {
                        assert(r@[k] == r@.subrange(0, pre.len() as int)[k]);
                    }
                }
                assert(r.deep_view() =~= pre.push(tok@));
                assert(tokenize_from(s@, i as int) == seq![tok@] + tokenize_from(s@, j as int));
                assert(r.deep_view() + tokenize_from(s@, j as int) =~= tokenize(s@));
            }
            i = j;
        }
    }
    proof {
        assert(tokenize_from(s@, n as int) =~= Seq::<Seq<char>>::empty());
        assert(r.deep_view() =~= tokenize(s@));
    }
    r
}

/// Character-by-character string equality.
pub fn str_eq(a: &str, b: &str) -> (r: bool)
    ensures
        r == (a@ == b@),
{
    let alen: usize = a.unicode_len();
    let blen: usize = b.unicode_len();
    if alen != blen {
        return false;
    }
    let mut k: usize = 0;
    while k < alen
        invariant
            alen == a@.len(),
            blen == b@.len(),
            alen == blen,
            0 <= k <= alen,
            forall|m: int| 0 <= m < k ==> a@[m] == b@[m],
        decreases alen - k,
    {
        if a.get_char(k) != b.get_char(k) {
            return false;
        }
        k += 1;
    }
    proof {
        assert(a@ =~= b@);
    }
    true
}

/// True when `pat` occurs in `text` starting at character index `at`.
pub open spec fn spec_starts_with_at(t: Seq<char>, p: Seq<char>, at: int) -> bool {
    &&& 0 <= at
    &&& at + p.len() <= t.len()
    &&& t.subrange(at, at + p.len() as int) == p
}

/// Whether `text` contains `pat` starting at character index `at`.
pub fn starts_with_from(text: &str, pat: &str, at: usize) -> (r: bool)
    requires
        at <= text@.len(),
    ensures
        r == spec_starts_with_at(text@, pat@, at as int),
{
    let tlen: usize = text.unicode_len();
    let plen: usize = pat.unicode_len();
    if plen > tlen - at {
        return false;
    }
    let mut k: usize = 0;
    while k < plen
        invariant
            tlen == text@.len(),
            plen == pat@.len(),
            at + plen <= tlen,
            0 <= k <= plen,
            forall|m: int| 0 <= m < k ==> text@[at + m] == pat@[m],
        decreases plen - k,
    {
        if text.get_char(at + k) != pat.get_char(k) {
            return false;
        }
        k += 1;
    }
    proof {
        assert(text@.subrange(at as int, at + plen as int) =~= pat@);
    }
    true
}

} // verus!
