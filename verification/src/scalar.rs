//! Decimal integer tokens: parsing and printing, with exact specifications.
//!
//! Object ids in the scene dialect are written as decimal integers; the
//! normalizer parses the id out of a separator line and prints it back as a
//! top-level mapping key.

use vstd::prelude::*;

verus! {

pub open spec fn is_digit(c: char) -> bool {
    '0' <= c && c <= '9'
}

pub open spec fn digit_val(c: char) -> nat {
    (c as nat - 48) as nat
}

pub open spec fn digit_char(d: nat) -> char {
    ((48 + d) as u8) as char
}

pub open spec fn is_digit_seq(s: Seq<char>) -> bool {
    forall|i: int| 0 <= i < s.len() ==> is_digit(#[trigger] s[i])
}

/// Value of a sequence of decimal digits, most significant first.
pub open spec fn dec_val(s: Seq<char>) -> nat
    decreases s.len(),
{
    if s.len() == 0 {
        0
    } else {
        dec_val(s.drop_last()) * 10 + digit_val(s.last())
    }
}

/// What `str::parse::<u64>` accepts: an optional leading `+`, then one or
/// more digits, value within range.
pub open spec fn parse_u64_spec(s: Seq<char>) -> Option<u64> {
    let t = if s.len() > 0 && s[0] == '+' {
        s.skip(1)
    } else {
        s
    };
    if t.len() > 0 && is_digit_seq(t) && dec_val(t) <= u64::MAX {
        Some(dec_val(t) as u64)
    } else {
        None
    }
}

proof fn lemma_dec_val_prefix_le(s: Seq<char>, i: int)
    requires
        0 <= i <= s.len(),
    ensures
        dec_val(s.take(i)) <= dec_val(s),
    decreases s.len(),
{
    if i < s.len() {
        assert(s.drop_last().take(i) =~= s.take(i));
        lemma_dec_val_prefix_le(s.drop_last(), i);
    } else {
        assert(s.take(i) =~= s);
    }
}

/// Parses the characters `v[start..end]` as a decimal `u64`.
pub fn parse_u64_chars(v: &Vec<char>, start: usize, end: usize) -> (r: Option<u64>)
    requires
        start <= end <= v@.len(),
    ensures
        r == parse_u64_spec(v@.subrange(start as int, end as int)),
{
    let ghost s = v@.subrange(start as int, end as int);
    let mut i = start;
    if i < end && v[i] == '+' {
        i = i + 1;
        proof {
            assert(v@.subrange(i as int, end as int) =~= s.skip(1));
        }
    }
    let ghost t = v@.subrange(i as int, end as int);
    if i == end {
        return None;
    }
    let mut acc: u64 = 0;
    let mut j = i;
    while j < end
        invariant
            i <= j <= end <= v@.len(),
            s == v@.subrange(start as int, end as int),
            t == (if s.len() > 0 && s[0] == '+' {
                s.skip(1)
            } else {
                s
            }),
            t == v@.subrange(i as int, end as int),
            t.len() > 0,
            is_digit_seq(t.take(j - i)),
            acc == dec_val(t.take(j - i)),
        decreases end - j,
    {
        let c = v[j];
        if !('0' <= c && c <= '9') {
            assert(!is_digit(t[j - i]));
            return None;
        }
        let d: u64 = (c as u32 as u64) - 48;
        if acc > (u64::MAX - d) / 10 {
            proof {
                assert(t.take(j - i + 1).drop_last() =~= t.take(j - i));
                assert(dec_val(t.take(j - i + 1)) == acc * 10 + digit_val(c));
                assert(acc * 10 + d > u64::MAX) by (nonlinear_arith)
                    requires
                        acc > (u64::MAX - d) / 10,
                        d <= 9,
                ;
                lemma_dec_val_prefix_le(t, j - i + 1);
            }
            return None;
        }
        proof {
            assert(t.take(j - i + 1).drop_last() =~= t.take(j - i));
        }
        acc = acc * 10 + d;
        j = j + 1;
    }
    proof {
        assert(t.take(end - i) =~= t);
    }
    Some(acc)
}

/// Decimal representation of `n`, most significant digit first.
pub open spec fn u64_dec_str(n: nat) -> Seq<char>
    decreases n,
{
    if n < 10 {
        seq![digit_char(n)]
    } else {
        u64_dec_str(n / 10).push(digit_char(n % 10))
    }
}

/// Prints `n` in decimal.
pub fn u64_to_chars(n: u64) -> (r: Vec<char>)
    ensures
        r@ == u64_dec_str(n as nat),
    decreases n,
{
    if n < 10 {
        let c = (48 + n as u8) as char;
        let mut r: Vec<char> = Vec::new();
        r.push(c);
        proof {
            assert(r@ =~= seq![digit_char(n as nat)]);
        }
        r
    } else {
        let mut r = u64_to_chars(n / 10);
        let c = (48 + (n % 10) as u8) as char;
        r.push(c);
        r
    }
}

} // verus!

verus! {

/// What `str::parse::<i64>` accepts: an optional sign, then one or more
/// digits, value within range.
pub open spec fn parse_i64_spec(s: Seq<char>) -> Option<i64> {
    let neg = s.len() > 0 && s[0] == '-';
    let t = if s.len() > 0 && (s[0] == '-' || s[0] == '+') {
        s.skip(1)
    } else {
        s
    };
    if t.len() > 0 && is_digit_seq(t) {
        if neg && dec_val(t) <= 0x8000_0000_0000_0000 {
            Some((0 - dec_val(t)) as i64)
        } else if !neg && dec_val(t) <= i64::MAX {
            Some(dec_val(t) as i64)
        } else {
            None
        }
    } else {
        None
    }
}

/// Parses the characters `v[start..end]` as a decimal `i64`.
pub fn parse_i64_chars(v: &Vec<char>, start: usize, end: usize) -> (r: Option<i64>)
    requires
        start <= end <= v@.len(),
    ensures
        r == parse_i64_spec(v@.subrange(start as int, end as int)),
{
    let ghost s = v@.subrange(start as int, end as int);
    if start == end {
        return None;
    }
    let neg = v[start] == '-';
    let mut i = start;
    if v[i] == '-' || v[i] == '+' {
        i = i + 1;
        proof {
            assert(v@.subrange(i as int, end as int) =~= s.skip(1));
        }
    }
    let mag = parse_u64_chars_raw(v, i, end);
    let ghost t = v@.subrange(i as int, end as int);
    match mag {
        Some(m) => {
            if neg {
                if m <= 0x8000_0000_0000_0000 {
                    if m == 0x8000_0000_0000_0000 {
                        Some(i64::MIN)
                    } else {
                        Some(-(m as i64))
                    }
                } else {
                    None
                }
            } else {
                if m <= i64::MAX as u64 {
                    Some(m as i64)
                } else {
                    None
                }
            }
        },
        None => {
            proof {
                if t.len() > 0 && is_digit_seq(t) {
                    if neg {
                        if dec_val(t) <= 0x8000_0000_0000_0000 {
                            assert(dec_val(t) <= u64::MAX);
                        }
                    } else {
                        if dec_val(t) <= i64::MAX {
                            assert(dec_val(t) <= u64::MAX);
                        }
                    }
                }
            }
            None
        },
    }
}

/// Digit-only parse: like [`parse_u64_spec`] without the leading `+`.
pub open spec fn parse_u64_raw_spec(s: Seq<char>) -> Option<u64> {
    if s.len() > 0 && is_digit_seq(s) && dec_val(s) <= u64::MAX {
        Some(dec_val(s) as u64)
    } else {
        None
    }
}

/// Parses `v[start..end]` as digits only (no sign).
pub fn parse_u64_chars_raw(v: &Vec<char>, start: usize, end: usize) -> (r: Option<u64>)
    requires
        start <= end <= v@.len(),
    ensures
        r == parse_u64_raw_spec(v@.subrange(start as int, end as int)),
{
    let ghost s = v@.subrange(start as int, end as int);
    if start < end && v[start] == '+' {
        assert(!is_digit(s[0]));
        return None;
    }
    let r = parse_u64_chars(v, start, end);
    proof {
        if s.len() > 0 && s[0] != '+' {
            assert(parse_u64_spec(s) == parse_u64_raw_spec(s));
        }
    }
    r
}

} // verus!

verus! {

/// `s` with one leading sign removed.
pub open spec fn strip_sign(s: Seq<char>) -> Seq<char> {
    if s.len() > 0 && (s[0] == '-' || s[0] == '+') {
        s.skip(1)
    } else {
        s
    }
}

/// A plain scalar that the dialect types as an integer.
pub open spec fn is_int_token(s: Seq<char>) -> bool {
    strip_sign(s).len() > 0 && is_digit_seq(strip_sign(s))
}

pub open spec fn count_dots(s: Seq<char>) -> nat
    decreases s.len(),
{
    if s.len() == 0 {
        0
    } else {
        count_dots(s.drop_last()) + if s.last() == '.' {
            1nat
        } else {
            0nat
        }
    }
}

/// Digits with at most one decimal point, and at least one digit.
pub open spec fn mantissa_ok(m: Seq<char>) -> bool {
    &&& m.len() > 0
    &&& forall|i: int| 0 <= i < m.len() ==> is_digit(#[trigger] m[i]) || m[i] == '.'
    &&& count_dots(m) <= 1
    &&& m.len() > count_dots(m)
}

/// The first position at or after `i` holding an exponent marker, or the
/// token's end.
pub open spec fn find_exp(s: Seq<char>, i: int) -> int
    decreases s.len() - i when 0 <= i <= s.len()
{
    if i >= s.len() {
        s.len() as int
    } else if s[i] == 'e' || s[i] == 'E' {
        i
    } else {
        find_exp(s, i + 1)
    }
}

pub open spec fn exp_ok(x: Seq<char>) -> bool {
    strip_sign(x).len() > 0 && is_digit_seq(strip_sign(x))
}

/// A plain scalar that the dialect types as a floating-point number: an
/// optional sign, a mantissa of digits with at most one point, an optional
/// exponent; or the `.inf` / `.nan` forms.
pub open spec fn is_float_token(s: Seq<char>) -> bool {
    let t = strip_sign(s);
    ||| t == ".inf"@
    ||| t == ".nan"@
    ||| {
        let k = find_exp(t, 0);
        &&& mantissa_ok(t.take(k))
        &&& (k == t.len() || exp_ok(t.skip(k + 1)))
    }
}

/// A plain scalar that the dialect types as a boolean.
pub open spec fn is_bool_token(s: Seq<char>) -> bool {
    s == "true"@ || s == "false"@
}

/// A plain scalar that the dialect types as null.
pub open spec fn is_null_token(s: Seq<char>) -> bool {
    s.len() == 0 || s == "~"@ || s == "null"@
}

/// A plain scalar that the dialect types as a number, integer or float.
pub open spec fn is_number_token(s: Seq<char>) -> bool {
    is_int_token(s) || is_float_token(s)
}

} // verus!

verus! {

use crate::chars::range_eq_str;

/// Whether `v[start..end]` is an integer-shaped scalar.
pub fn is_int_token_exec(v: &Vec<char>, start: usize, end: usize) -> (b: bool)
    requires
        start <= end <= v@.len(),
    ensures
        b == is_int_token(v@.subrange(start as int, end as int)),
{
    let ghost s = v@.subrange(start as int, end as int);
    let mut i = start;
    if i < end && (v[i] == '-' || v[i] == '+') {
        i = i + 1;
    }
    proof {
        assert(v@.subrange(i as int, end as int) =~= strip_sign(s));
    }
    let ghost t = strip_sign(s);
    if i == end {
        return false;
    }
    let mut j = i;
    while j < end
        invariant
            start <= i <= j <= end <= v@.len(),
            s == v@.subrange(start as int, end as int),
            t == strip_sign(s),
            t == v@.subrange(i as int, end as int),
            forall|k: int| 0 <= k < j - i ==> is_digit(#[trigger] t[k]),
        decreases end - j,
    {
        let c = v[j];
        if !('0' <= c && c <= '9') {
            assert(!is_digit(t[j - i]));
            return false;
        }
        j = j + 1;
    }
    true
}

/// Whether `v[start..end]` is a float-shaped scalar.
#[verifier::rlimit(30)]
pub fn is_float_token_exec(v: &Vec<char>, start: usize, end: usize) -> (b: bool)
    requires
        start <= end <= v@.len(),
    ensures
        b == is_float_token(v@.subrange(start as int, end as int)),
{
    let ghost s = v@.subrange(start as int, end as int);
    let mut i = start;
    if i < end && (v[i] == '-' || v[i] == '+') {
        i = i + 1;
    }
    proof {
        assert(v@.subrange(i as int, end as int) =~= strip_sign(s));
    }
    let ghost t = strip_sign(s);
    if range_eq_str(v, i, end, ".inf") || range_eq_str(v, i, end, ".nan") {
        return true;
    }
    // find the exponent marker
    let mut k = i;
    while k < end && !(v[k] == 'e' || v[k] == 'E')
        invariant
            start <= i <= k <= end <= v@.len(),
            s == v@.subrange(start as int, end as int),
            t == strip_sign(s),
            t == v@.subrange(i as int, end as int),
            t != ".inf"@ && t != ".nan"@,
            find_exp(t, 0) == find_exp(t, k - i),
        decreases end - k,
    {
        k = k + 1;
    }
    assert(find_exp(t, 0) == k - i);
    let ghost m = t.take(k - i);
    // the mantissa: digits with at most one point, at least one digit
    if k == i {
        assert(!mantissa_ok(m));
        return false;
    }
    let mut dots: usize = 0;
    let mut j = i;
    while j < k
        invariant
            start <= i <= j <= k <= end <= v@.len(),
            s == v@.subrange(start as int, end as int),
            t == strip_sign(s),
            t == v@.subrange(i as int, end as int),
            t != ".inf"@ && t != ".nan"@,
            k - i == find_exp(t, 0),
            m == t.take(k - i),
            forall|x: int| 0 <= x < j - i ==> is_digit(#[trigger] m[x]) || m[x] == '.',
            dots == count_dots(m.take(j - i)),
            dots <= j - i,
        decreases k - j,
    {
        let c = v[j];
        proof {
            assert(m.take(j - i + 1).drop_last() =~= m.take(j - i));
            assert(m[j - i] == t[j - i]);
        }
        if c == '.' {
            dots = dots + 1;
        } else if !('0' <= c && c <= '9') {
            assert(!(is_digit(m[j - i]) || m[j - i] == '.'));
            return false;
        }
        j = j + 1;
    }
    proof {
        assert(m.take(k - i) =~= m);
    }
    if dots > 1 {
        return false;
    }
    if k - i == dots {
        assert(!(m.len() > count_dots(m)));
        return false;
    }
    assert(mantissa_ok(m));
    // the exponent, when present
    if k == end {
        return true;
    }
    proof {
        assert(v@.subrange(k + 1 as int, end as int) =~= t.skip(k - i + 1));
    }
    let b = is_int_token_exec(v, k + 1, end);
    proof {
        assert(is_int_token(t.skip(k - i + 1)) == exp_ok(t.skip(k - i + 1)));
    }
    b
}

/// Whether `v[start..end]` is a boolean scalar.
pub fn is_bool_token_exec(v: &Vec<char>, start: usize, end: usize) -> (b: bool)
    requires
        start <= end <= v@.len(),
    ensures
        b == is_bool_token(v@.subrange(start as int, end as int)),
{
    range_eq_str(v, start, end, "true") || range_eq_str(v, start, end, "false")
}

/// Whether `v[start..end]` is a null scalar.
pub fn is_null_token_exec(v: &Vec<char>, start: usize, end: usize) -> (b: bool)
    requires
        start <= end <= v@.len(),
    ensures
        b == is_null_token(v@.subrange(start as int, end as int)),
{
    start == end || range_eq_str(v, start, end, "~") || range_eq_str(v, start, end, "null")
}

} // verus!

verus! {

/// Whether the whole of `t` is a number-shaped scalar.
pub fn is_number_exec(t: &Vec<char>) -> (b: bool)
    ensures
        b == is_number_token(t@),
{
    let n = t.len();
    proof {
        assert(t@.subrange(0, t@.len() as int) =~= t@);
    }
    is_int_token_exec(t, 0, n) || is_float_token_exec(t, 0, n)
}

} // verus!

verus! {

/// Decimal representation of a signed value.
pub open spec fn i64_dec_str(n: i64) -> Seq<char> {
    if n < 0 {
        seq!['-'] + u64_dec_str((0 - n) as nat)
    } else {
        u64_dec_str(n as nat)
    }
}

/// Prints `n` in decimal, sign included.
pub fn i64_to_chars(n: i64) -> (r: Vec<char>)
    ensures
        r@ == i64_dec_str(n),
{
    if n < 0 {
        let mag: u64 = if n == i64::MIN {
            0x8000_0000_0000_0000
        } else {
            (-n) as u64
        };
        proof {
            assert(mag == (0 - n as int) as nat);
        }
        let mut r: Vec<char> = Vec::new();
        r.push('-');
        let digits = u64_to_chars(mag);
        let dn = digits.len();
        crate::chars::append_range(&mut r, &digits, 0, dn);
        proof {
            assert(digits@.subrange(0, digits@.len() as int) =~= digits@);
            assert(r@ =~= seq!['-'] + u64_dec_str((0 - n as int) as nat));
        }
        r
    } else {
        u64_to_chars(n as u64)
    }
}

} // verus!
