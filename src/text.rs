//! Character-level helpers shared by the line parsers.
use vstd::prelude::*;

use crate::error::{ErrorModel, ProleError};

verus! {

/// The Unicode `White_Space` characters: those that `char::is_whitespace`
/// accepts, that `str::trim` removes and that a regex `\s` matches.
pub open spec fn is_space(c: char) -> bool {
    let u = c as u32;
    (0x9 <= u && u <= 0xd) || u == 0x20 || u == 0x85 || u == 0xa0 || u == 0x1680 || (0x2000 <= u
        && u <= 0x200a) || u == 0x2028 || u == 0x2029 || u == 0x202f || u == 0x205f || u == 0x3000
}

/// Executable form of [`is_space`].
pub fn is_space_char(c: char) -> (r: bool)
    ensures
        r == is_space(c),
{
    let u = c as u32;
    (0x9 <= u && u <= 0xd) || u == 0x20 || u == 0x85 || u == 0xa0 || u == 0x1680 || (0x2000 <= u
        && u <= 0x200a) || u == 0x2028 || u == 0x2029 || u == 0x202f || u == 0x205f || u == 0x3000
}

/// `p` is a prefix of `s`.
pub open spec fn starts_with(s: Seq<char>, p: Seq<char>) -> bool {
    p.len() <= s.len() && s.subrange(0, p.len() as int) == p
}

/// The end of the run of non-space characters that starts at `i`.
pub open spec fn token_end(s: Seq<char>, i: int) -> int
    decreases s.len() - i,
{
    if 0 <= i < s.len() && !is_space(s[i]) {
        token_end(s, i + 1)
    } else {
        i
    }
}

/// The end of the run of space characters that starts at `i`.
pub open spec fn space_end(s: Seq<char>, i: int) -> int
    decreases s.len() - i,
{
    if 0 <= i < s.len() && is_space(s[i]) {
        space_end(s, i + 1)
    } else {
        i
    }
}

/// Matches `\s+(\S+)$` from position `i`: one or more spaces, then a single
/// non-empty token that runs to the end of `s`. Yields that token.
pub open spec fn value_after(s: Seq<char>, i: int) -> Option<Seq<char>> {
    let b = space_end(s, i);
    let e = token_end(s, b);
    if i < b && b < e && e == s.len() {
        Some(s.subrange(b, e))
    } else {
        None
    }
}

/// Matches `(\S+)\s+(\S+)$` from position `i`: two tokens separated by spaces,
/// the second one running to the end of `s`.
pub open spec fn two_tokens(s: Seq<char>, i: int) -> Option<(Seq<char>, Seq<char>)> {
    let e = token_end(s, i);
    if i < e {
        match value_after(s, e) {
            Some(v) => Some((s.subrange(i, e), v)),
            None => None,
        }
    } else {
        None
    }
}

/// A run of non-space characters lies within `s`.
pub proof fn lemma_token_end_bounds(s: Seq<char>, i: int)
    ensures
        token_end(s, i) == i || (0 <= i < token_end(s, i) <= s.len()),
    decreases s.len() - i,
{
    if 0 <= i < s.len() && !is_space(s[i]) {
        lemma_token_end_bounds(s, i + 1);
    }
}

/// Relies on `String::push`: appends one character.
#[verifier::external_body]
pub(crate) fn push_char(s: &mut String, c: char)
    ensures
        final(s)@ == old(s)@.push(c),
{
    s.push(c)
}

/// The characters of `s`, in order.
pub fn chars_of(s: &str) -> (r: Vec<char>)
    ensures
        r@ == s@,
{
    let mut r: Vec<char> = Vec::new();
    for c in it: s.chars()
        invariant
            r@ == it.seq().take(it.index() as int),
    {
        r.push(c);
    }
    r
}

/// The string made of `s[lo..hi]`.
pub fn string_of(s: &Vec<char>, lo: usize, hi: usize) -> (r: String)
    requires
        lo <= hi <= s.len(),
    ensures
        r@ == s@.subrange(lo as int, hi as int),
{
    let mut r = String::new();
    let mut k: usize = lo;
    while k < hi
        invariant
            lo <= k <= hi <= s.len(),
            r@ == s@.subrange(lo as int, k as int),
        decreases hi - k,
    {
        push_char(&mut r, s[k]);
        assert(s@.subrange(lo as int, k + 1) == s@.subrange(lo as int, k as int).push(s@[k as int]));
        k = k + 1;
    }
    r
}

/// Whether `s` begins with `p`.
pub fn has_prefix(s: &Vec<char>, p: &Vec<char>) -> (r: bool)
    ensures
        r == starts_with(s@, p@),
{
    if p.len() > s.len() {
        return false;
    }
    let mut k: usize = 0;
    while k < p.len()
        invariant
            p.len() <= s.len(),
            k <= p.len(),
            forall|j: int| 0 <= j < k ==> s@[j] == p@[j],
        decreases p.len() - k,
    {
        if s[k] != p[k] {
            assert(s@.subrange(0, p.len() as int)[k as int] != p@[k as int]);
            return false;
        }
        k = k + 1;
    }
    assert(s@.subrange(0, p.len() as int) =~= p@);
    true
}

/// Executable form of [`token_end`].
pub fn token_end_at(s: &Vec<char>, i: usize) -> (r: usize)
    requires
        i <= s.len(),
    ensures
        r == token_end(s@, i as int),
        i <= r <= s.len(),
{
    let mut j: usize = i;
    while j < s.len() && !is_space_char(s[j])
        invariant
            i <= j <= s.len(),
            token_end(s@, i as int) == token_end(s@, j as int),
        decreases s.len() - j,
    {
        j = j + 1;
    }
    j
}

/// Executable form of [`space_end`].
pub fn space_end_at(s: &Vec<char>, i: usize) -> (r: usize)
    requires
        i <= s.len(),
    ensures
        r == space_end(s@, i as int),
        i <= r <= s.len(),
{
    let mut j: usize = i;
    while j < s.len() && is_space_char(s[j])
        invariant
            i <= j <= s.len(),
            space_end(s@, i as int) == space_end(s@, j as int),
        decreases s.len() - j,
    {
        j = j + 1;
    }
    j
}

/// Executable form of [`value_after`].
pub fn value_after_at(s: &Vec<char>, i: usize) -> (r: Option<String>)
    requires
        i <= s.len(),
    ensures
        match r {
            Some(v) => value_after(s@, i as int) == Some(v@),
            None => value_after(s@, i as int) is None,
        },
{
    let b = space_end_at(s, i);
    let e = token_end_at(s, b);
    if i < b && b < e && e == s.len() {
        Some(string_of(s, b, e))
    } else {
        None
    }
}

/// Executable form of [`two_tokens`].
pub fn two_tokens_at(s: &Vec<char>, i: usize) -> (r: Option<(String, String)>)
    requires
        i <= s.len(),
    ensures
        match r {
            Some((a, b)) => two_tokens(s@, i as int) == Some((a@, b@)),
            None => two_tokens(s@, i as int) is None,
        },
{
    let e = token_end_at(s, i);
    if i < e {
        match value_after_at(s, e) {
            Some(v) => Some((string_of(s, i, e), v)),
            None => None,
        }
    } else {
        None
    }
}

/// The fields of `s` separated by `sep`, as `str::split` yields them: an
/// empty `s` has one empty field.
pub open spec fn split_on(s: Seq<char>, sep: char) -> Seq<Seq<char>>
    decreases s.len(),
{
    if s.len() == 0 {
        seq![Seq::empty()]
    } else {
        let p = split_on(s.drop_last(), sep);
        if s.last() == sep {
            p.push(Seq::empty())
        } else {
            p.update(p.len() - 1, p.last().push(s.last()))
        }
    }
}

/// The end of `s[..j]` once its trailing spaces are removed.
pub open spec fn trim_end(s: Seq<char>, j: int) -> int
    decreases j,
{
    if 0 < j <= s.len() && is_space(s[j - 1]) {
        trim_end(s, j - 1)
    } else {
        j
    }
}

/// `s` without its leading and trailing spaces, as `str::trim` returns it.
pub open spec fn trim(s: Seq<char>) -> Seq<char> {
    let b = space_end(s, 0);
    let e = trim_end(s, s.len() as int);
    if b < e {
        s.subrange(b, e)
    } else {
        Seq::empty()
    }
}

/// The views of a sequence of strings.
pub open spec fn lines_view(lines: Seq<String>) -> Seq<Seq<char>> {
    lines.map_values(|l: String| l@)
}

/// The views of a sequence of character vectors.
pub open spec fn fields_view(v: Seq<Vec<char>>) -> Seq<Seq<char>> {
    v.map_values(|f: Vec<char>| f@)
}

/// Splits `s` at every `sep`.
pub fn split_fields(s: &Vec<char>, sep: char) -> (r: Vec<Vec<char>>)
    ensures
        fields_view(r@) == split_on(s@, sep),
        r.len() > 0,
{
    let mut done: Vec<Vec<char>> = Vec::new();
    let mut cur: Vec<char> = Vec::new();
    let mut k: usize = 0;
    proof {
        assert(s@.take(0) =~= Seq::<char>::empty());
        assert(fields_view(done@).push(cur@) =~= seq![Seq::<char>::empty()]);
    }
    while k < s.len()
        invariant
            k <= s.len(),
            split_on(s@.take(k as int), sep) == fields_view(done@).push(cur@),
        decreases s.len() - k,
    {
        let c = s[k];
        let ghost old_done = done@;
        let ghost old_cur = cur@;
        proof {
            assert(s@.take(k + 1).drop_last() =~= s@.take(k as int));
        }
        if c == sep {
            let full = cur;
            done.push(full);
            cur = Vec::new();
            proof {
                assert(fields_view(done@) =~= fields_view(old_done).push(old_cur));
                assert(fields_view(done@).push(cur@) =~= fields_view(old_done).push(old_cur).push(
                    Seq::empty(),
                ));
            }
        } else {
            cur.push(c);
            proof {
                assert(fields_view(done@).push(cur@) =~= fields_view(old_done).push(old_cur).update(
                    old_done.len() as int,
                    old_cur.push(c),
                ));
            }
        }
        k = k + 1;
    }
    proof {
        assert(s@.take(k as int) =~= s@);
    }
    done.push(cur);
    proof {
        assert(fields_view(done@) =~= split_on(s@, sep));
    }
    done
}

/// `s` without its leading and trailing spaces.
pub fn trim_chars(s: &Vec<char>) -> (r: String)
    ensures
        r@ == trim(s@),
{
    let b = space_end_at(s, 0);
    let mut e: usize = s.len();
    while e > 0 && is_space_char(s[e - 1])
        invariant
            e <= s.len(),
            trim_end(s@, s.len() as int) == trim_end(s@, e as int),
        decreases e,
    {
        e = e - 1;
    }
    if b < e {
        string_of(s, b, e)
    } else {
        String::new()
    }
}

/// A string holding the characters of `v`.
pub fn string_from(v: &Vec<char>) -> (r: String)
    ensures
        r@ == v@,
{
    let r = string_of(v, 0, v.len());
    assert(v@.subrange(0, v.len() as int) =~= v@);
    r
}

/// Matches `n` tokens from position `i`, separated by runs of spaces, the
/// first starting exactly at `i`. Yields the tokens and the end of the last.
pub open spec fn take_tokens(s: Seq<char>, i: int, n: nat) -> Option<(Seq<Seq<char>>, int)>
    decreases n,
{
    if n == 0 {
        Some((Seq::empty(), i))
    } else {
        let e = token_end(s, i);
        if e <= i {
            None
        } else if n == 1 {
            Some((seq![s.subrange(i, e)], e))
        } else {
            let b = space_end(s, e);
            if b <= e {
                None
            } else {
                match take_tokens(s, b, (n - 1) as nat) {
                    Some((ts, j)) => Some((seq![s.subrange(i, e)] + ts, j)),
                    None => None,
                }
            }
        }
    }
}

/// Executable form of [`take_tokens`].
pub fn take_tokens_at(s: &Vec<char>, i: usize, n: usize) -> (r: Option<(Vec<String>, usize)>)
    requires
        i <= s.len(),
    ensures
        match r {
            Some((v, j)) => take_tokens(s@, i as int, n as nat) == Some((lines_view(v@), j as int))
                && j <= s.len(),
            None => take_tokens(s@, i as int, n as nat) is None,
        },
    decreases n,
{
    if n == 0 {
        let v: Vec<String> = Vec::new();
        assert(lines_view(v@) =~= Seq::empty());
        return Some((v, i));
    }
    let e = token_end_at(s, i);
    if e <= i {
        return None;
    }
    let tok = string_of(s, i, e);
    if n == 1 {
        let mut v: Vec<String> = Vec::new();
        v.push(tok);
        assert(lines_view(v@) =~= seq![s@.subrange(i as int, e as int)]);
        return Some((v, e));
    }
    let b = space_end_at(s, e);
    if b <= e {
        return None;
    }
    match take_tokens_at(s, b, n - 1) {
        Some((rest, j)) => {
            let mut v = rest;
            let ghost old_v = v@;
            v.insert(0, tok);
            assert(lines_view(v@) =~= seq![s@.subrange(i as int, e as int)] + lines_view(old_v));
            Some((v, j))
        },
        None => None,
    }
}

/// An ASCII decimal digit.
pub open spec fn is_digit(c: char) -> bool {
    '0' <= c && c <= '9'
}

/// `t` is made of ASCII digits only.
pub open spec fn all_digits(t: Seq<char>) -> bool {
    forall|k: int| 0 <= k < t.len() ==> is_digit(#[trigger] t[k])
}

/// Whether `t` is made of ASCII digits only.
pub fn all_digits_check(t: &Vec<char>) -> (r: bool)
    ensures
        r == all_digits(t@),
{
    let mut k: usize = 0;
    while k < t.len()
        invariant
            k <= t.len(),
            forall|j: int| 0 <= j < k ==> is_digit(#[trigger] t@[j]),
        decreases t.len() - k,
    {
        if !('0' <= t[k] && t[k] <= '9') {
            return false;
        }
        k = k + 1;
    }
    true
}

/// The number written by the decimal digits `t`.
pub open spec fn decimal_value(t: Seq<char>) -> nat
    decreases t.len(),
{
    if t.len() == 0 {
        0
    } else {
        decimal_value(t.drop_last()) * 10 + ((t.last() as u32) - ('0' as u32)) as nat
    }
}

proof fn lemma_decimal_value_grows(t: Seq<char>, k: int)
    requires
        0 <= k <= t.len(),
    ensures
        decimal_value(t.take(k)) <= decimal_value(t),
    decreases t.len() - k,
{
    if k < t.len() {
        lemma_decimal_value_grows(t, k + 1);
        assert(t.take(k + 1).drop_last() =~= t.take(k));
        let v = decimal_value(t.take(k));
        let d = ((t[k] as u32) - ('0' as u32)) as nat;
        assert(v <= v * 10 + d) by (nonlinear_arith);
    } else {
        assert(t.take(k) =~= t);
    }
}

/// The `u32` written by the decimal digits `t`, or `None` where it does not
/// fit, as `str::parse::<u32>` reads a string of ASCII digits.
pub fn parse_u32(t: &Vec<char>) -> (r: Option<u32>)
    requires
        t.len() > 0,
        all_digits(t@),
    ensures
        match r {
            Some(v) => v as nat == decimal_value(t@),
            None => decimal_value(t@) > u32::MAX,
        },
{
    let mut v: u64 = 0;
    let mut k: usize = 0;
    proof {
        assert(t@.take(0) =~= Seq::<char>::empty());
    }
    while k < t.len()
        invariant
            k <= t.len(),
            all_digits(t@),
            v as nat == decimal_value(t@.take(k as int)),
            v <= u32::MAX,
        decreases t.len() - k,
    {
        let d = (t[k] as u32 - '0' as u32) as u64;
        proof {
            assert(is_digit(t@[k as int]));
            assert(t@.take(k + 1).drop_last() =~= t@.take(k as int));
        }
        assert(v * 10 + d <= 0xffff_ffff * 10 + 9) by (nonlinear_arith)
            requires
                v <= 0xffff_ffff,
                d <= 9,
        ;
        v = v * 10 + d;
        if v > 0xffff_ffff {
            proof {
                lemma_decimal_value_grows(t@, k + 1);
            }
            return None;
        }
        k = k + 1;
    }
    proof {
        assert(t@.take(k as int) =~= t@);
    }
    Some(v as u32)
}

/// The `u32` values of the digit tokens `ts[k..hi]`, or the error for the
/// first of them that does not fit.
pub open spec fn u32_fields(ts: Seq<Seq<char>>, k: int, hi: int) -> Result<Seq<u32>, ErrorModel>
    decreases hi - k,
{
    if k >= hi {
        Ok(Seq::empty())
    } else if decimal_value(ts[k]) > u32::MAX {
        Err(ErrorModel::IntOverflow(ts[k]))
    } else {
        match u32_fields(ts, k + 1, hi) {
            Ok(vs) => Ok(seq![decimal_value(ts[k]) as u32] + vs),
            Err(e) => Err(e),
        }
    }
}

/// Executable form of [`u32_fields`].
pub fn parse_u32_fields(ts: &Vec<String>, k: usize, hi: usize) -> (r: Result<Vec<u32>, ProleError>)
    requires
        k <= hi <= ts.len(),
        forall|j: int| k <= j < hi ==> ts@[j]@.len() > 0 && all_digits(#[trigger] ts@[j]@),
    ensures
        match r {
            Ok(vs) => u32_fields(lines_view(ts@), k as int, hi as int) == Ok::<
                Seq<u32>,
                ErrorModel,
            >(vs@),
            Err(e) => u32_fields(lines_view(ts@), k as int, hi as int) == Err::<
                Seq<u32>,
                ErrorModel,
            >(e@),
        },
    decreases hi - k,
{
    if k >= hi {
        let v: Vec<u32> = Vec::new();
        assert(v@ =~= Seq::empty());
        return Ok(v);
    }
    let chars = chars_of(ts[k].as_str());
    assert(lines_view(ts@)[k as int] == ts@[k as int]@);
    match parse_u32(&chars) {
        None => Err(ProleError::IntOverflow(ts[k].clone())),
        Some(x) => match parse_u32_fields(ts, k + 1, hi) {
            Ok(rest) => {
                let mut v = rest;
                let ghost old_v = v@;
                v.insert(0, x);
                assert(v@ =~= seq![x] + old_v);
                Ok(v)
            },
            Err(e) => Err(e),
        },
    }
}

/// A successful match yields exactly the requested number of tokens.
pub proof fn lemma_take_tokens_len(s: Seq<char>, i: int, n: nat)
    ensures
        match take_tokens(s, i, n) {
            Some((ts, _)) => ts.len() == n,
            None => true,
        },
    decreases n,
{
    if n > 1 {
        lemma_take_tokens_len(s, space_end(s, token_end(s, i)), (n - 1) as nat);
    }
}

/// Every token of a successful match is non-empty.
pub proof fn lemma_take_tokens_nonempty(s: Seq<char>, i: int, n: nat, k: int)
    requires
        0 <= k < n,
    ensures
        match take_tokens(s, i, n) {
            Some((ts, _)) => ts[k].len() > 0,
            None => true,
        },
    decreases n,
{
    let e = token_end(s, i);
    lemma_token_end_bounds(s, i);
    if e > i && n > 1 {
        let b = space_end(s, e);
        if b > e {
            match take_tokens(s, b, (n - 1) as nat) {
                Some((rest, j)) => {
                    let ts = seq![s.subrange(i, e)] + rest;
                    lemma_take_tokens_len(s, b, (n - 1) as nat);
                    if k > 0 {
                        lemma_take_tokens_nonempty(s, b, (n - 1) as nat, k - 1);
                        assert(ts[k] == rest[k - 1]);
                    } else {
                        assert(ts[0] == s.subrange(i, e));
                    }
                },
                None => {},
            }
        }
    }
}

} // verus!
