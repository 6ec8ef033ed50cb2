//! String and byte-string escaping.
//!
//! `format_string` wraps text in single quotes and escapes control
//! characters, quotes and backslashes; `format_bytes` does the same for raw
//! byte strings under a `b'...'` wrapper.  Both are specified exactly,
//! character by character, against the spec-level escape tables below.

use vstd::prelude::*;

verus! {

/// The lowercase hexadecimal digit for `n % 16`.
pub open spec fn hex_digit(n: u32) -> char {
    let d = n % 16;
    if d == 0 {
        '0'
    } else if d == 1 {
        '1'
    } else if d == 2 {
        '2'
    } else if d == 3 {
        '3'
    } else if d == 4 {
        '4'
    } else if d == 5 {
        '5'
    } else if d == 6 {
        '6'
    } else if d == 7 {
        '7'
    } else if d == 8 {
        '8'
    } else if d == 9 {
        '9'
    } else if d == 10 {
        'a'
    } else if d == 11 {
        'b'
    } else if d == 12 {
        'c'
    } else if d == 13 {
        'd'
    } else if d == 14 {
        'e'
    } else {
        'f'
    }
}

/// Characters written as `\xHH`: the control codes below space except
/// `\t`, `\n`, `\r`, plus delete.
pub open spec fn is_hex_escaped(c: char) -> bool {
    let u = c as u32;
    u <= 0x08 || u == 0x0B || u == 0x0C || (0x0E <= u && u <= 0x1F) || u == 0x7F
}

/// Characters written as `\uHHHH`: the C1 control block.
pub open spec fn is_uni_escaped(c: char) -> bool {
    let u = c as u32;
    0x80 <= u && u <= 0x9F
}

/// The escape table for one character of a string literal.  When
/// `expanded` is set, `\r`, `\n` and `\t` pass through literally.
pub open spec fn esc_char(c: char, expanded: bool) -> Seq<char> {
    let u = c as u32;
    if is_hex_escaped(c) {
        seq!['\\', 'x', hex_digit(u / 16), hex_digit(u % 16)]
    } else if is_uni_escaped(c) {
        seq!['\\', 'u', hex_digit(u / 4096), hex_digit(u / 256), hex_digit(u / 16), hex_digit(u)]
    } else if c == '\'' {
        seq!['\\', '\'']
    } else if c == '\\' {
        seq!['\\', '\\']
    } else if c == '\r' && !expanded {
        seq!['\\', 'r']
    } else if c == '\n' && !expanded {
        seq!['\\', 'n']
    } else if c == '\t' && !expanded {
        seq!['\\', 't']
    } else {
        seq![c]
    }
}

/// The concatenated escapes of a whole character sequence.
pub open spec fn escape_body(s: Seq<char>, expanded: bool) -> Seq<char>
    decreases s.len(),
{
    if s.len() == 0 {
        Seq::empty()
    } else {
        escape_body(s.drop_last(), expanded) + esc_char(s.last(), expanded)
    }
}

/// The escaped form of a string: the escaped body between single quotes.
pub open spec fn string_escaped(s: Seq<char>, expanded: bool) -> Seq<char> {
    seq!['\''] + escape_body(s, expanded) + seq!['\'']
}

/// The escape table for one byte of a byte string.  Printable ASCII other
/// than the escaped punctuation passes through as the character itself.
pub open spec fn esc_byte(b: u8) -> Seq<char> {
    if b <= 0x08 || b == 0x0B || b == 0x0C || (0x0E <= b && b <= 0x1F) || b >= 0x7F {
        seq!['\\', 'x', hex_digit((b as u32) / 16), hex_digit(b as u32)]
    } else if b == 0x27 {
        seq!['\\', '\'']
    } else if b == 0x0D {
        seq!['\\', 'r']
    } else if b == 0x0A {
        seq!['\\', 'n']
    } else if b == 0x09 {
        seq!['\\', 't']
    } else if b == 0x5C {
        seq!['\\', '\\']
    } else {
        seq![b as char]
    }
}

/// The concatenated escapes of a whole byte sequence.
pub open spec fn escape_bytes_body(s: Seq<u8>) -> Seq<char>
    decreases s.len(),
{
    if s.len() == 0 {
        Seq::empty()
    } else {
        escape_bytes_body(s.drop_last()) + esc_byte(s.last())
    }
}

/// The escaped form of a byte string: `b'` then the escaped bytes, then a
/// closing quote.
pub open spec fn bytes_escaped(s: Seq<u8>) -> Seq<char> {
    seq!['b', '\''] + escape_bytes_body(s) + seq!['\'']
}

/// The lowercase hexadecimal digit character for `n % 16`.
fn hex_digit_char(n: u32) -> (c: char)
    ensures
        c == hex_digit(n),
{
    let d = n % 16;
    if d == 0 {
        '0'
    } else if d == 1 {
        '1'
    } else if d == 2 {
        '2'
    } else if d == 3 {
        '3'
    } else if d == 4 {
        '4'
    } else if d == 5 {
        '5'
    } else if d == 6 {
        '6'
    } else if d == 7 {
        '7'
    } else if d == 8 {
        '8'
    } else if d == 9 {
        '9'
    } else if d == 10 {
        'a'
    } else if d == 11 {
        'b'
    } else if d == 12 {
        'c'
    } else if d == 13 {
        'd'
    } else if d == 14 {
        'e'
    } else {
        'f'
    }
}

/// Append the escape of one character to `out`.
fn push_esc_char(out: &mut Vec<char>, c: char, expanded: bool)
    ensures
        final(out)@ == old(out)@ + esc_char(c, expanded),
{
    let u = c as u32;
    if u <= 0x08 || u == 0x0B || u == 0x0C || (0x0E <= u && u <= 0x1F) || u == 0x7F {
        out.push('\\');
        out.push('x');
        out.push(hex_digit_char(u / 16));
        out.push(hex_digit_char(u % 16));
        assert(out@ =~= old(out)@ + esc_char(c, expanded));
    } else if 0x80 <= u && u <= 0x9F {
        out.push('\\');
        out.push('u');
        out.push(hex_digit_char(u / 4096));
        out.push(hex_digit_char(u / 256));
        out.push(hex_digit_char(u / 16));
        out.push(hex_digit_char(u));
        assert(out@ =~= old(out)@ + esc_char(c, expanded));
    } else if c == '\'' {
        out.push('\\');
        out.push('\'');
        assert(out@ =~= old(out)@ + esc_char(c, expanded));
    } else if c == '\\' {
        out.push('\\');
        out.push('\\');
        assert(out@ =~= old(out)@ + esc_char(c, expanded));
    } else if c == '\r' && !expanded {
        out.push('\\');
        out.push('r');
        assert(out@ =~= old(out)@ + esc_char(c, expanded));
    } else if c == '\n' && !expanded {
        out.push('\\');
        out.push('n');
        assert(out@ =~= old(out)@ + esc_char(c, expanded));
    } else if c == '\t' && !expanded {
        out.push('\\');
        out.push('t');
        assert(out@ =~= old(out)@ + esc_char(c, expanded));
    } else {
        out.push(c);
        assert(out@ =~= old(out)@ + esc_char(c, expanded));
    }
}

/// Append the escape of one byte to `out`.
fn push_esc_byte(out: &mut Vec<char>, b: u8)
    ensures
        final(out)@ == old(out)@ + esc_byte(b),
{
    if b <= 0x08 || b == 0x0B || b == 0x0C || (0x0E <= b && b <= 0x1F) || b >= 0x7F {
        out.push('\\');
        out.push('x');
        out.push(hex_digit_char((b as u32) / 16));
        out.push(hex_digit_char(b as u32));
        assert(out@ =~= old(out)@ + esc_byte(b));
    } else if b == 0x27 {
        out.push('\\');
        out.push('\'');
        assert(out@ =~= old(out)@ + esc_byte(b));
    } else if b == 0x0D {
        out.push('\\');
        out.push('r');
        assert(out@ =~= old(out)@ + esc_byte(b));
    } else if b == 0x0A {
        out.push('\\');
        out.push('n');
        assert(out@ =~= old(out)@ + esc_byte(b));
    } else if b == 0x09 {
        out.push('\\');
        out.push('t');
        assert(out@ =~= old(out)@ + esc_byte(b));
    } else if b == 0x5C {
        out.push('\\');
        out.push('\\');
        assert(out@ =~= old(out)@ + esc_byte(b));
    } else {
        out.push(b as char);
        assert(out@ =~= old(out)@ + esc_byte(b));
    }
}

/// Character-wise string equality.
pub(crate) fn str_eq(a: &str, b: &str) -> (r: bool)
    ensures
        r == (a@ == b@),
{
    let n = a.unicode_len();
    let m = b.unicode_len();
    if n != m {
        proof {
            assert(a@ != b@);
        }
        return false;
    }
    let mut i: usize = 0;
    while i < n
        invariant
            i <= n,
            n == a@.len(),
            n == b@.len(),
            forall|j: int| 0 <= j < i ==> a@[j] == b@[j],
        decreases n - i,
    {
        if a.get_char(i) != b.get_char(i) {
            proof {
                assert(a@[i as int] != b@[i as int]);
            }
            return false;
        }
        i = i + 1;
    }
    proof {
        assert(a@ =~= b@);
    }
    true
}

/// The characters of a string, in order.
pub(crate) fn str_to_chars(s: &str) -> (r: Vec<char>)
    ensures
        r@ == s@,
{
    let n = s.unicode_len();
    let mut r: Vec<char> = Vec::new();
    let mut i: usize = 0;
    while i < n
        invariant
            i <= n,
            n == s@.len(),
            r@ == s@.take(i as int),
        decreases n - i,
    {
        r.push(s.get_char(i));
        i = i + 1;
        assert(r@ =~= s@.take(i as int));
    }
    assert(s@.take(n as int) =~= s@);
    r
}

/// Relies on `String: FromIterator<char>`: collecting characters yields
/// the string holding exactly those characters in order.
#[verifier::external_body]
pub(crate) fn chars_to_string(v: &Vec<char>) -> (r: String)
    ensures
        r@ == v@,
{
    v.iter().collect()
}

/// Escape a string for display: wrap it in single quotes, escape control
/// codes as `\xHH` or `\uHHHH`, quote and backslash as `\'` and `\\`, and
/// `\r`, `\n`, `\t` as their escapes unless `expanded` asks for them
/// literally.
pub fn format_string(s: &str, expanded: bool) -> (r: String)
    ensures
        r@ == string_escaped(s@, expanded),
{
    let chars = str_to_chars(s);
    let mut out: Vec<char> = Vec::new();
    out.push('\'');
    let mut i: usize = 0;
    while i < chars.len()
        invariant
            i <= chars@.len(),
            chars@ == s@,
            out@ == seq!['\''] + escape_body(s@.take(i as int), expanded),
        decreases chars@.len() - i,
    {
        push_esc_char(&mut out, chars[i], expanded);
        i = i + 1;
        proof {
            let t = s@.take(i as int);
            assert(t.drop_last() =~= s@.take(i as int - 1));
            assert(out@ =~= seq!['\''] + escape_body(t, expanded));
        }
    }
    proof {
        assert(s@.take(chars@.len() as int) =~= s@);
    }
    out.push('\'');
    proof {
        assert(out@ =~= string_escaped(s@, expanded));
    }
    chars_to_string(&out)
}

/// Escape a byte string for display: prefix `b'`, suffix `'`, escape
/// non-printable bytes as `\xHH` and the quoted punctuation as its
/// two-character escapes; printable ASCII passes through.
pub fn format_bytes(bytes: &[u8]) -> (r: String)
    ensures
        r@ == bytes_escaped(bytes@),
{
    let mut out: Vec<char> = Vec::new();
    out.push('b');
    out.push('\'');
    let mut i: usize = 0;
    while i < bytes.len()
        invariant
            i <= bytes@.len(),
            out@ == seq!['b', '\''] + escape_bytes_body(bytes@.take(i as int)),
        decreases bytes@.len() - i,
    {
        push_esc_byte(&mut out, bytes[i]);
        i = i + 1;
        proof {
            let t = bytes@.take(i as int);
            assert(t.drop_last() =~= bytes@.take(i as int - 1));
            assert(out@ =~= seq!['b', '\''] + escape_bytes_body(t));
        }
    }
    proof {
        assert(bytes@.take(bytes@.len() as int) =~= bytes@);
    }
    out.push('\'');
    proof {
        assert(out@ =~= bytes_escaped(bytes@));
    }
    chars_to_string(&out)
}

} // verus!
