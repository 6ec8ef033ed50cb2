//! Numeric literal canonicalization.
//!
//! Arbitrary-precision integers and decimals arrive as their plain base-10
//! text; `format_bigint` and `format_decimal` compress long zero runs into
//! exponential notation and attach the arbitrary-precision marker suffix.
//! `i64_text` renders machine integers in decimal.

use vstd::prelude::*;
use crate::escape::{chars_to_string, str_to_chars};

verus! {

/// The decimal digit character for `n`, for `n < 10`.
pub open spec fn dec_digit(n: nat) -> char {
    if n == 0 {
        '0'
    } else if n == 1 {
        '1'
    } else if n == 2 {
        '2'
    } else if n == 3 {
        '3'
    } else if n == 4 {
        '4'
    } else if n == 5 {
        '5'
    } else if n == 6 {
        '6'
    } else if n == 7 {
        '7'
    } else if n == 8 {
        '8'
    } else {
        '9'
    }
}

/// The base-10 digit string of `n`, most significant digit first.
pub open spec fn dec_digits(n: nat) -> Seq<char>
    decreases n,
{
    if n < 10 {
        seq![dec_digit(n)]
    } else {
        dec_digits(n / 10) + seq![dec_digit(n % 10)]
    }
}

/// The canonical decimal text of a signed machine integer.
pub open spec fn int_text(v: int) -> Seq<char> {
    if v < 0 {
        seq!['-'] + dec_digits((-v) as nat)
    } else {
        dec_digits(v as nat)
    }
}

/// `s` without its trailing `'0'` characters.
pub open spec fn strip_trailing_zeros(s: Seq<char>) -> Seq<char>
    decreases s.len(),
{
    if s.len() > 0 && s.last() == '0' {
        strip_trailing_zeros(s.drop_last())
    } else {
        s
    }
}

/// `s` without its leading `'0'` characters.
pub open spec fn strip_leading_zeros(s: Seq<char>) -> Seq<char>
    decreases s.len(),
{
    if s.len() > 0 && s[0] == '0' {
        strip_leading_zeros(s.drop_first())
    } else {
        s
    }
}

/// The canonical literal for an arbitrary-precision integer whose base-10
/// text is `t`: if stripping trailing zeros removes more than five, the
/// compressed `<digits>e<count>n` form, else the full digits plus the `n`
/// marker.
pub open spec fn bigint_canon(t: Seq<char>) -> Seq<char> {
    let nz = strip_trailing_zeros(t);
    let z = t.len() - nz.len();
    if z > 5 {
        nz + seq!['e'] + dec_digits(z as nat) + seq!['n']
    } else {
        t + seq!['n']
    }
}

/// Whether `t` contains a fractional separator.
pub open spec fn contains_dot(t: Seq<char>) -> bool {
    exists|i: int| 0 <= i < t.len() && t[i] == '.'
}

/// Whether `t` begins with `0.00000` (five or more leading fractional
/// zeros).
pub open spec fn small_fraction(t: Seq<char>) -> bool {
    t.len() >= 7 && t[0] == '0' && t[1] == '.' && t[2] == '0' && t[3] == '0' && t[4] == '0'
        && t[5] == '0' && t[6] == '0'
}

/// The canonical literal for an arbitrary-precision decimal whose default
/// base-10 text is `t`.
///
/// Fractional values close to zero compress the leading zero run into
/// `0.<digits>e-<count>`; other fractional values keep their text plus the
/// `n` marker; integral values gain a `.0` and compress a trailing zero
/// run longer than five into `<digits>.0e<count>n`.
pub open spec fn decimal_canon(t: Seq<char>) -> Seq<char> {
    if contains_dot(t) {
        if small_fraction(t) {
            let tail = t.skip(2);
            let nz = strip_leading_zeros(tail);
            let z = tail.len() - nz.len();
            seq!['0', '.'] + nz + seq!['e', '-'] + dec_digits(z as nat)
        } else {
            t + seq!['n']
        }
    } else {
        let nz = strip_trailing_zeros(t);
        let z = t.len() - nz.len();
        if z > 5 {
            nz + seq!['.', '0', 'e'] + dec_digits(z as nat) + seq!['n']
        } else {
            t + seq!['.', '0', 'n']
        }
    }
}

/// The decimal digit character for `n < 10`.
fn dec_digit_char(n: u64) -> (c: char)
    requires
        n < 10,
    ensures
        c == dec_digit(n as nat),
{
    if n == 0 {
        '0'
    } else if n == 1 {
        '1'
    } else if n == 2 {
        '2'
    } else if n == 3 {
        '3'
    } else if n == 4 {
        '4'
    } else if n == 5 {
        '5'
    } else if n == 6 {
        '6'
    } else if n == 7 {
        '7'
    } else if n == 8 {
        '8'
    } else {
        '9'
    }
}

/// Append the base-10 digits of `n` to `out`.
fn push_dec_u64(out: &mut Vec<char>, n: u64)
    ensures
        final(out)@ == old(out)@ + dec_digits(n as nat),
    decreases n,
{
    if n < 10 {
        out.push(dec_digit_char(n));
        assert(out@ =~= old(out)@ + dec_digits(n as nat));
    } else {
        push_dec_u64(out, n / 10);
        out.push(dec_digit_char(n % 10));
        assert(out@ =~= old(out)@ + dec_digits(n as nat));
    }
}

/// Append `src[from..to]` to `out`.
fn push_range(out: &mut Vec<char>, src: &Vec<char>, from: usize, to: usize)
    requires
        from <= to <= src@.len(),
    ensures
        final(out)@ == old(out)@ + src@.subrange(from as int, to as int),
{
    let mut i: usize = from;
    while i < to
        invariant
            from <= i <= to <= src@.len(),
            out@ == old(out)@ + src@.subrange(from as int, i as int),
        decreases to - i,
    {
        out.push(src[i]);
        i = i + 1;
        assert(out@ =~= old(out)@ + src@.subrange(from as int, i as int));
    }
}

/// The index where the trailing zero run of `chars` begins.
fn trailing_zero_split(chars: &Vec<char>) -> (k: usize)
    ensures
        k <= chars@.len(),
        strip_trailing_zeros(chars@) == chars@.take(k as int),
        chars@.len() - k == chars@.len() - strip_trailing_zeros(chars@).len(),
{
    let mut k: usize = chars.len();
    proof {
        assert(chars@.take(chars@.len() as int) =~= chars@);
    }
    while k > 0 && chars[k - 1] == '0'
        invariant
            k <= chars@.len(),
            strip_trailing_zeros(chars@) == strip_trailing_zeros(chars@.take(k as int)),
        decreases k,
    {
        proof {
            let t = chars@.take(k as int);
            assert(t.drop_last() =~= chars@.take(k as int - 1));
        }
        k = k - 1;
    }
    proof {
        let t = chars@.take(k as int);
        if k > 0 {
            assert(t.last() == chars@[k as int - 1]);
        }
        assert(strip_trailing_zeros(t) == t);
    }
    k
}

/// The canonical decimal text of `v`.
pub fn i64_text(v: i64) -> (r: String)
    ensures
        r@ == int_text(v as int),
{
    let mut out: Vec<char> = Vec::new();
    if v < 0 {
        out.push('-');
        let wide: i128 = -(v as i128);
        let m: u64 = wide as u64;
        assert(m as int == -(v as int));
        push_dec_u64(&mut out, m);
        assert(out@ =~= int_text(v as int));
    } else {
        let m: u64 = v as u64;
        push_dec_u64(&mut out, m);
        assert(out@ =~= int_text(v as int));
    }
    chars_to_string(&out)
}

/// Canonicalize an arbitrary-precision integer given as its base-10 text:
/// strip trailing zeros, and if more than five were stripped render
/// `<digits>e<count>n`, else the full literal followed by `n`.
pub fn format_bigint(txt: &str) -> (r: String)
    ensures
        r@ == bigint_canon(txt@),
{
    let chars = str_to_chars(txt);
    let k = trailing_zero_split(&chars);
    let n = chars.len();
    let zeros = n - k;
    let mut out: Vec<char> = Vec::new();
    if zeros > 5 {
        push_range(&mut out, &chars, 0, k);
        out.push('e');
        push_dec_u64(&mut out, zeros as u64);
        out.push('n');
        proof {
            assert(chars@.subrange(0, k as int) =~= chars@.take(k as int));
            assert(out@ =~= bigint_canon(txt@));
        }
    } else {
        push_range(&mut out, &chars, 0, n);
        out.push('n');
        proof {
            assert(chars@.subrange(0, n as int) =~= chars@);
            assert(out@ =~= bigint_canon(txt@));
        }
    }
    chars_to_string(&out)
}

/// Whether `chars` holds a `'.'`.
fn find_dot(chars: &Vec<char>) -> (r: bool)
    ensures
        r == contains_dot(chars@),
{
    let mut i: usize = 0;
    while i < chars.len()
        invariant
            i <= chars@.len(),
            forall|j: int| 0 <= j < i ==> chars@[j] != '.',
        decreases chars@.len() - i,
    {
        if chars[i] == '.' {
            return true;
        }
        i = i + 1;
    }
    false
}

/// Canonicalize an arbitrary-precision decimal given as its default
/// base-10 text, per [`decimal_canon`].
pub fn format_decimal(txt: &str) -> (r: String)
    ensures
        r@ == decimal_canon(txt@),
{
    let chars = str_to_chars(txt);
    let n = chars.len();
    let mut out: Vec<char> = Vec::new();
    if find_dot(&chars) {
        let small = n >= 7 && chars[0] == '0' && chars[1] == '.' && chars[2] == '0' && chars[3]
            == '0' && chars[4] == '0' && chars[5] == '0' && chars[6] == '0';
        if small {
            let mut k: usize = 2;
            while k < n && chars[k] == '0'
                invariant
                    2 <= k <= n,
                    n == chars@.len(),
                    strip_leading_zeros(chars@.skip(2)) == strip_leading_zeros(
                        chars@.skip(k as int),
                    ),
                decreases n - k,
            {
                proof {
                    let t = chars@.skip(k as int);
                    assert(t.drop_first() =~= chars@.skip(k as int + 1));
                }
                k = k + 1;
            }
            proof {
                let t = chars@.skip(k as int);
                if k < n {
                    assert(t[0] == chars@[k as int]);
                }
                assert(strip_leading_zeros(t) == t);
            }
            out.push('0');
            out.push('.');
            push_range(&mut out, &chars, k, n);
            out.push('e');
            out.push('-');
            push_dec_u64(&mut out, (k - 2) as u64);
            proof {
                assert(chars@.subrange(k as int, n as int) =~= chars@.skip(k as int));
                assert(chars@.skip(2).len() - strip_leading_zeros(chars@.skip(2)).len() == k
                    - 2);
                assert(out@ =~= decimal_canon(txt@));
            }
        } else {
            push_range(&mut out, &chars, 0, n);
            out.push('n');
            proof {
                assert(chars@.subrange(0, n as int) =~= chars@);
                assert(out@ =~= decimal_canon(txt@));
            }
        }
    } else {
        let k = trailing_zero_split(&chars);
        let zeros = n - k;
        if zeros > 5 {
            push_range(&mut out, &chars, 0, k);
            out.push('.');
            out.push('0');
            out.push('e');
            push_dec_u64(&mut out, zeros as u64);
            out.push('n');
            proof {
                assert(chars@.subrange(0, k as int) =~= chars@.take(k as int));
                assert(out@ =~= decimal_canon(txt@));
            }
        } else {
            push_range(&mut out, &chars, 0, n);
            out.push('.');
            out.push('0');
            out.push('n');
            proof {
                assert(chars@.subrange(0, n as int) =~= chars@);
                assert(out@ =~= decimal_canon(txt@));
            }
        }
    }
    chars_to_string(&out)
}

} // verus!
