//! Text utilities: placeholder substitution, substring search, decimal
//! formatting and parsing.  Command templates are instantiated by replacing
//! literal placeholders such as `{port}`, so these functions carry exact
//! contracts over sequences of characters.

use vstd::prelude::*;

verus! {

/// Every occurrence of `pat` in `s`, scanned left to right without overlap,
/// replaced by `rep`.  An empty pattern replaces nothing.
pub open spec fn spec_replace(s: Seq<char>, pat: Seq<char>, rep: Seq<char>) -> Seq<char>
    decreases s.len(),
{
    if pat.len() == 0 || s.len() < pat.len() {
        s
    } else if s.subrange(0, pat.len() as int) == pat {
        rep + spec_replace(s.subrange(pat.len() as int, s.len() as int), pat, rep)
    } else {
        seq![s[0]] + spec_replace(s.subrange(1, s.len() as int), pat, rep)
    }
}

/// Whether `pat` occurs in `h` as a contiguous run.
pub open spec fn spec_contains(h: Seq<char>, needle: Seq<char>) -> bool {
    exists|k: int|
        0 <= k && k + needle.len() <= h.len() && #[trigger] h.subrange(k, k + needle.len())
            == needle
}

pub(crate) fn matches_at(s: &str, i: usize, pat: &str) -> (r: bool)
    requires
        i + pat@.len() <= s@.len(),
    ensures
        r == (s@.subrange(i as int, i + pat@.len()) == pat@),
{
    let m = pat.unicode_len();
    let n = s.unicode_len();
    let mut j: usize = 0;
    while j < m
        invariant
            j <= m,
            m == pat@.len(),
            n == s@.len(),
            i + m <= n,
            forall|k: int| 0 <= k < j ==> s@[i + k] == pat@[k],
        decreases m - j,
    {
        if s.get_char(i + j) != pat.get_char(j) {
            proof {
                assert(s@.subrange(i as int, i + m as int)[j as int] == s@[i + j]);
            }
            return false;
        }
        j = j + 1;
    }
    proof {
        assert(s@.subrange(i as int, i + m as int) =~= pat@);
    }
    true
}

/// Every occurrence of `pat` in `s` replaced by `rep`, scanning left to
/// right without overlap.
pub fn replace_all(s: &str, pat: &str, rep: &str) -> (res: String)
    requires
        pat@.len() >= 1,
    ensures
        res@ == spec_replace(s@, pat@, rep@),
{
    let n = s.unicode_len();
    let m = pat.unicode_len();
    let mut res = String::new();
    let mut i: usize = 0;
    proof {
        assert(s@.subrange(0, n as int) =~= s@);
        assert(res@ + spec_replace(s@, pat@, rep@) =~= spec_replace(s@, pat@, rep@));
    }
    while i < n
        invariant
            i <= n,
            n == s@.len(),
            m == pat@.len(),
            1 <= m,
            spec_replace(s@, pat@, rep@) == res@ + spec_replace(
                s@.subrange(i as int, n as int),
                pat@,
                rep@,
            ),
        decreases n - i,
    {
        let ghost suffix = s@.subrange(i as int, n as int);
        if m <= n - i && matches_at(s, i, pat) {
            res.append(rep);
            proof {
                assert(suffix.subrange(0, m as int) =~= s@.subrange(i as int, i + m as int));
                assert(suffix.subrange(m as int, suffix.len() as int) =~= s@.subrange(
                    i + m,
                    n as int,
                ));
            }
            i = i + m;
        } else {
            let c = s.substring_char(i, i + 1);
            res.append(c);
            proof {
                assert(c@ =~= seq![s@[i as int]]);
                if suffix.len() >= m {
                    assert(suffix.subrange(0, m as int) =~= s@.subrange(i as int, i + m as int));
                }
                assert(suffix.subrange(1, suffix.len() as int) =~= s@.subrange(i + 1, n as int));
                assert(suffix =~= seq![s@[i as int]] + s@.subrange(i + 1, n as int));
            }
            i = i + 1;
        }
    }
    proof {
        assert(s@.subrange(n as int, n as int) =~= Seq::<char>::empty());
        assert(res@ + Seq::<char>::empty() =~= res@);
    }
    res
}

/// Whether `needle` occurs in `h` as a contiguous run of characters.
pub fn str_contains(h: &str, needle: &str) -> (r: bool)
    ensures
        r == spec_contains(h@, needle@),
{
    let n = h.unicode_len();
    let m = needle.unicode_len();
    if m > n {
        return false;
    }
    if m == 0 {
        proof {
            assert(h@.subrange(0, 0 + needle@.len() as int) =~= needle@);
        }
        return true;
    }
    let mut k: usize = 0;
    while k <= n - m
        invariant
            k <= n - m + 1,
            n == h@.len(),
            m == needle@.len(),
            1 <= m <= n,
            forall|j: int| 0 <= j < k ==> #[trigger] h@.subrange(j, j + m) != needle@,
        decreases n - k,
    {
        if matches_at(h, k, needle) {
            assert(spec_contains(h@, needle@)) by {
                assert(h@.subrange(k as int, k + m as int) == needle@);
            }
            return true;
        }
        k = k + 1;
    }
    false
}

pub open spec fn spec_digit(d: nat) -> char {
    if d == 0 {
        '0'
    } else if d == 1 {
        '1'
    } else if d == 2 {
        '2'
    } else if d == 3 {
        '3'
    } else if d == 4 {
        '4'
    } else if d == 5 {
        '5'
    } else if d == 6 {
        '6'
    } else if d == 7 {
        '7'
    } else if d == 8 {
        '8'
    } else {
        '9'
    }
}

/// The usual decimal rendering of `n`, without sign or leading zeros
/// (except that zero itself is `"0"`).
pub open spec fn spec_dec(n: nat) -> Seq<char>
    decreases n,
{
    if n < 10 {
        seq![spec_digit(n)]
    } else {
        spec_dec(n / 10) + seq![spec_digit(n % 10)]
    }
}

fn push_digit(res: &mut String, d: u64)
    requires
        d < 10,
    ensures
        final(res)@ == old(res)@ + seq![spec_digit(d as nat)],
{
    proof {
        reveal_strlit("0");
        reveal_strlit("1");
        reveal_strlit("2");
        reveal_strlit("3");
        reveal_strlit("4");
        reveal_strlit("5");
        reveal_strlit("6");
        reveal_strlit("7");
        reveal_strlit("8");
        reveal_strlit("9");
    }
    let ds: &str = if d == 0 {
        "0"
    } else if d == 1 {
        "1"
    } else if d == 2 {
        "2"
    } else if d == 3 {
        "3"
    } else if d == 4 {
        "4"
    } else if d == 5 {
        "5"
    } else if d == 6 {
        "6"
    } else if d == 7 {
        "7"
    } else if d == 8 {
        "8"
    } else {
        "9"
    };
    proof {
        assert(ds@ =~= seq![spec_digit(d as nat)]);
    }
    res.append(ds);
}

fn push_dec(res: &mut String, n: u64)
    ensures
        final(res)@ == old(res)@ + spec_dec(n as nat),
    decreases n,
{
    if n >= 10 {
        push_dec(res, n / 10);
        push_digit(res, n % 10);
        proof {
            assert(final(res)@ =~= old(res)@ + spec_dec(n as nat));
        }
    } else {
        push_digit(res, n);
    }
}

/// The decimal rendering of `n`.
pub fn u64_to_string(n: u64) -> (res: String)
    ensures
        res@ == spec_dec(n as nat),
{
    let mut res = String::new();
    push_dec(&mut res, n);
    proof {
        assert(res@ =~= spec_dec(n as nat));
    }
    res
}

pub open spec fn is_space_char(c: char) -> bool {
    c == ' ' || c == '\n' || c == '\t' || c == '\r'
}

pub open spec fn is_digit_char(c: char) -> bool {
    48 <= c as int && c as int <= 57
}

pub open spec fn digit_val(c: char) -> nat {
    (c as int - 48) as nat
}

/// The value of a run of decimal digits, most significant first.
pub open spec fn digits_val(s: Seq<char>) -> nat
    decreases s.len(),
{
    if s.len() == 0 {
        0
    } else {
        digits_val(s.drop_last()) * 10 + digit_val(s.last())
    }
}

pub open spec fn all_digits(s: Seq<char>) -> bool {
    forall|i: int| 0 <= i < s.len() ==> is_digit_char(#[trigger] s[i])
}

pub open spec fn trim_front(s: Seq<char>) -> Seq<char>
    decreases s.len(),
{
    if s.len() > 0 && is_space_char(s[0]) {
        trim_front(s.subrange(1, s.len() as int))
    } else {
        s
    }
}

pub open spec fn trim_back(s: Seq<char>) -> Seq<char>
    decreases s.len(),
{
    if s.len() > 0 && is_space_char(s.last()) {
        trim_back(s.drop_last())
    } else {
        s
    }
}

/// `s` with the blank characters on both ends removed.
pub open spec fn spec_trim(s: Seq<char>) -> Seq<char> {
    trim_back(trim_front(s))
}

/// The number a string denotes once trimmed: defined exactly when what
/// remains is one or more decimal digits whose value fits in a `u32`.
pub open spec fn spec_parse_u32(s: Seq<char>) -> Option<u32> {
    let t = spec_trim(s);
    if t.len() >= 1 && all_digits(t) && digits_val(t) <= u32::MAX {
        Some(digits_val(t) as u32)
    } else {
        None
    }
}

proof fn lemma_trim_front_index(s: Seq<char>, lo: int)
    requires
        0 <= lo <= s.len(),
        forall|i: int| 0 <= i < lo ==> is_space_char(#[trigger] s[i]),
        lo == s.len() || !is_space_char(s[lo]),
    ensures
        trim_front(s) == s.subrange(lo, s.len() as int),
    decreases lo,
{
    if lo == 0 {
        assert(s.subrange(0, s.len() as int) =~= s);
    } else {
        let tail = s.subrange(1, s.len() as int);
        lemma_trim_front_index(tail, lo - 1);
        assert(tail.subrange(lo - 1, tail.len() as int) =~= s.subrange(lo, s.len() as int));
    }
}

proof fn lemma_trim_back_index(s: Seq<char>, hi: int)
    requires
        0 <= hi <= s.len(),
        forall|i: int| hi <= i < s.len() ==> is_space_char(#[trigger] s[i]),
        hi == 0 || !is_space_char(s[hi - 1]),
    ensures
        trim_back(s) == s.subrange(0, hi),
    decreases s.len() - hi,
{
    if hi == s.len() {
        if s.len() > 0 && is_space_char(s.last()) {
            assert(false);
        }
        assert(s.subrange(0, hi) =~= s);
    } else {
        let head = s.drop_last();
        lemma_trim_back_index(head, hi);
        assert(head.subrange(0, hi) =~= s.subrange(0, hi));
    }
}

proof fn lemma_digits_val_extend(t: Seq<char>, i: int)
    requires
        0 <= i < t.len(),
    ensures
        digits_val(t.subrange(0, i + 1)) == digits_val(t.subrange(0, i)) * 10 + digit_val(t[i]),
{
    let p = t.subrange(0, i + 1);
    assert(p.drop_last() =~= t.subrange(0, i));
    assert(p.last() == t[i]);
}

proof fn lemma_digits_val_prefix_le(t: Seq<char>, i: int)
    requires
        0 <= i <= t.len(),
    ensures
        digits_val(t.subrange(0, i)) <= digits_val(t),
    decreases t.len() - i,
{
    if i == t.len() {
        assert(t.subrange(0, i) =~= t);
    } else {
        lemma_digits_val_extend(t, i);
        lemma_digits_val_prefix_le(t, i + 1);
    }
}

fn is_space(c: char) -> (r: bool)
    ensures
        r == is_space_char(c),
{
    c == ' ' || c == '\n' || c == '\t' || c == '\r'
}

/// The value of `s` once trimmed of blanks, when it is a nonempty run of
/// decimal digits that fits in a `u32`; `None` otherwise.
pub fn parse_u32_trimmed(s: &str) -> (r: Option<u32>)
    ensures
        r == spec_parse_u32(s@),
{
    let n = s.unicode_len();
    let mut lo: usize = 0;
    while lo < n && is_space(s.get_char(lo))
        invariant
            lo <= n,
            n == s@.len(),
            forall|i: int| 0 <= i < lo ==> is_space_char(#[trigger] s@[i]),
        decreases n - lo,
    {
        lo = lo + 1;
    }
    let mut hi: usize = n;
    while hi > lo && is_space(s.get_char(hi - 1))
        invariant
            lo <= hi <= n,
            n == s@.len(),
            forall|i: int| hi <= i < n ==> is_space_char(#[trigger] s@[i]),
        decreases hi,
    {
        hi = hi - 1;
    }
    let ghost front = s@.subrange(lo as int, n as int);
    proof {
        lemma_trim_front_index(s@, lo as int);
        lemma_trim_back_index(front, hi - lo);
        assert(front.subrange(0, hi - lo) =~= s@.subrange(lo as int, hi as int));
    }
    let ghost t = s@.subrange(lo as int, hi as int);
    if hi == lo {
        return None;
    }
    let mut val: u32 = 0;
    let mut i: usize = lo;
    while i < hi
        invariant
            lo <= i <= hi <= n,
            n == s@.len(),
            hi > lo,
            t == s@.subrange(lo as int, hi as int),
            spec_trim(s@) == t,
            forall|j: int| lo <= j < i ==> is_digit_char(#[trigger] s@[j]),
            val == digits_val(s@.subrange(lo as int, i as int)),
        decreases hi - i,
    {
        let c = s.get_char(i);
        let cu = c as u32;
        if cu < 48 || cu > 57 {
            proof {
                assert(t[i - lo] == s@[i as int]);
                assert(!all_digits(t));
            }
            return None;
        }
        let d = cu - 48;
        if val > (u32::MAX - d) / 10 {
            proof {
                let pre = s@.subrange(lo as int, i + 1);
                assert(pre =~= t.subrange(0, i + 1 - lo));
                assert(s@.subrange(lo as int, i as int) =~= t.subrange(0, i - lo));
                lemma_digits_val_extend(t, i - lo);
                assert(digits_val(t.subrange(0, i + 1 - lo)) > u32::MAX) by (nonlinear_arith)
                    requires
                        digits_val(t.subrange(0, i + 1 - lo)) == digits_val(
                            t.subrange(0, i - lo),
                        ) * 10 + digit_val(t[i - lo]),
                        digits_val(t.subrange(0, i - lo)) == val,
                        val > (u32::MAX - d) / 10,
                        d == digit_val(t[i - lo]),
                        d <= 9,
                ;
                lemma_digits_val_prefix_le(t, i + 1 - lo);
            }
            return None;
        }
        proof {
            assert(val * 10 + d <= u32::MAX) by (nonlinear_arith)
                requires
                    val <= (u32::MAX - d) / 10,
                    d <= 9,
            ;
            lemma_digits_val_extend(t, i - lo);
            assert(s@.subrange(lo as int, i + 1) =~= t.subrange(0, i + 1 - lo));
            assert(s@.subrange(lo as int, i as int) =~= t.subrange(0, i - lo));
            assert(digit_val(s@[i as int]) == d);
        }
        val = val * 10 + d;
        i = i + 1;
    }
    proof {
        assert(t =~= s@.subrange(lo as int, i as int));
        assert(forall|j: int|
            0 <= j < t.len() ==> is_digit_char(#[trigger] t[j]) && t[j] == s@[lo + j]);
    }
    Some(val)
}

/// Relies on `<str as PartialEq>::eq`: two string slices are equal exactly
/// when their characters are.
#[verifier::external_body]
pub(crate) fn str_eq(a: &str, b: &str) -> (r: bool)
    ensures
        r == (a@ == b@),
{
    a == b
}

/// What `str::to_lowercase` returns: a function of the characters alone.
pub uninterp spec fn lower_of(s: Seq<char>) -> Seq<char>;

/// Relies on `str::to_lowercase`: the result depends only on the input
/// characters, and an empty input gives an empty result.
#[verifier::external_body]
pub(crate) fn to_lowercase(s: &str) -> (r: String)
    ensures
        r@ == lower_of(s@),
        s@.len() == 0 ==> r@.len() == 0,
{
    s.to_lowercase()
}

/// Case-insensitive containment: whether the lowercase form of `pattern`
/// occurs in the lowercase form of `name`.  This is the match rule used
/// when searching processes by name.
pub fn name_matches(name: &str, pattern: &str) -> (r: bool)
    ensures
        r == spec_contains(lower_of(name@), lower_of(pattern@)),
{
    let ln = to_lowercase(name);
    let lp = to_lowercase(pattern);
    str_contains(ln.as_str(), lp.as_str())
}

} // verus!
