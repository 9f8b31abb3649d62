//! Character-level text building: lowercase hex and decimal renderings, and
//! string concatenation with exact views.

use vstd::prelude::*;

verus! {

/// The lowercase hex digit for a nibble `0..16`.
pub open spec fn hex_digit(n: int) -> char {
    if n < 10 {
        ((n + 48) as u8) as char
    } else {
        ((n - 10 + 97) as u8) as char
    }
}

/// Two lowercase hex digits for one byte, high nibble first.
pub open spec fn hex_byte(b: u8) -> Seq<char> {
    seq![hex_digit(b as int / 16), hex_digit(b as int % 16)]
}

/// The lowercase hex rendering of a byte string, two digits per byte.
pub open spec fn hex_text(bytes: Seq<u8>) -> Seq<char>
    decreases bytes.len(),
{
    if bytes.len() == 0 {
        Seq::empty()
    } else {
        hex_text(bytes.drop_last()) + hex_byte(bytes.last())
    }
}

/// The decimal digit for `0..10`.
pub open spec fn decimal_digit(n: int) -> char {
    ((n + 48) as u8) as char
}

/// The decimal rendering of a natural number, with no leading zeros
/// (zero is `"0"`).
pub open spec fn decimal_text(n: nat) -> Seq<char>
    decreases n,
{
    if n < 10 {
        seq![decimal_digit(n as int)]
    } else {
        decimal_text(n / 10) + seq![decimal_digit((n % 10) as int)]
    }
}

/// Appends one character to a string with `String::push`; the contract
/// claims the string's characters grow by exactly that one.
#[verifier::external_body]
pub(crate) fn push_char(s: &mut String, c: char)
    ensures
        final(s)@ == old(s)@.push(c),
{
    s.push(c);
}

/// Appends a string slice to a string.
pub(crate) fn push_str(s: &mut String, t: &str)
    ensures
        final(s)@ == old(s)@ + t@,
{
    s.append(t);
}

/// The lowercase hex digit for a nibble.
pub fn hex_digit_char(n: u8) -> (c: char)
    requires
        n < 16,
    ensures
        c == hex_digit(n as int),
{
    if n < 10 {
        (n + 48) as char
    } else {
        (n - 10 + 97) as char
    }
}

/// Appends the two hex digits of `b` to `s`.
pub fn push_hex_byte(s: &mut String, b: u8)
    ensures
        final(s)@ == old(s)@ + hex_byte(b),
{
    let hi = hex_digit_char(b / 16);
    let lo = hex_digit_char(b % 16);
    push_char(s, hi);
    push_char(s, lo);
    assert(final(s)@ =~= old(s)@ + hex_byte(b));
}

/// Appends the hex rendering of `bytes[0..count]` to `s`.
pub fn push_hex_prefix(s: &mut String, bytes: &[u8], count: usize)
    requires
        count <= bytes@.len(),
    ensures
        final(s)@ == old(s)@ + hex_text(bytes@.take(count as int)),
{
    let mut i: usize = 0;
    while i < count
        invariant
            i <= count <= bytes@.len(),
            s@ == old(s)@ + hex_text(bytes@.take(i as int)),
        decreases count - i,
    {
        push_hex_byte(s, bytes[i]);
        assert(bytes@.take(i + 1).drop_last() =~= bytes@.take(i as int));
        i = i + 1;
    }
}

/// The length of a hex rendering is twice the byte count.
pub proof fn lemma_hex_text_len(bytes: Seq<u8>)
    ensures
        hex_text(bytes).len() == 2 * bytes.len(),
    decreases bytes.len(),
{
    if bytes.len() > 0 {
        lemma_hex_text_len(bytes.drop_last());
    }
}

/// Character `2i` and `2i + 1` of a hex rendering are the digits of byte `i`.
pub proof fn lemma_hex_text_index(bytes: Seq<u8>, i: int)
    requires
        0 <= i < bytes.len(),
    ensures
        hex_text(bytes).len() == 2 * bytes.len(),
        hex_text(bytes)[2 * i] == hex_digit(bytes[i] as int / 16),
        hex_text(bytes)[2 * i + 1] == hex_digit(bytes[i] as int % 16),
    decreases bytes.len(),
{
    lemma_hex_text_len(bytes);
    lemma_hex_text_len(bytes.drop_last());
    if i < bytes.len() - 1 {
        lemma_hex_text_index(bytes.drop_last(), i);
    }
}

/// Distinct nibbles have distinct hex digits.
pub proof fn lemma_hex_digit_injective(a: int, b: int)
    requires
        0 <= a < 16,
        0 <= b < 16,
        hex_digit(a) == hex_digit(b),
    ensures
        a == b,
{
}

/// Byte strings of one length with equal hex renderings are equal.
pub proof fn lemma_hex_text_injective(x: Seq<u8>, y: Seq<u8>)
    requires
        x.len() == y.len(),
        hex_text(x) == hex_text(y),
    ensures
        x == y,
{
    assert forall|i: int| 0 <= i < x.len() implies x[i] == y[i] by {
        lemma_hex_text_index(x, i);
        lemma_hex_text_index(y, i);
        lemma_hex_digit_injective(x[i] as int / 16, y[i] as int / 16);
        lemma_hex_digit_injective(x[i] as int % 16, y[i] as int % 16);
    }
    assert(x =~= y);
}

/// Every character of a hex rendering is a lowercase hex digit.
pub open spec fn is_hex_char(c: char) -> bool {
    ('0' <= c && c <= '9') || ('a' <= c && c <= 'f')
}

/// A hex rendering holds only lowercase hex digits.
pub proof fn lemma_hex_text_chars(bytes: Seq<u8>)
    ensures
        forall|k: int| 0 <= k < hex_text(bytes).len() ==> is_hex_char(#[trigger] hex_text(bytes)[k]),
    decreases bytes.len(),
{
    if bytes.len() > 0 {
        let prefix = hex_text(bytes.drop_last());
        let tail = hex_byte(bytes.last());
        lemma_hex_text_chars(bytes.drop_last());
        assert forall|k: int| 0 <= k < hex_text(bytes).len() implies is_hex_char(
            #[trigger] hex_text(bytes)[k],
        ) by {
            if k < prefix.len() {
                assert(hex_text(bytes)[k] == prefix[k]);
            } else {
                assert(hex_text(bytes)[k] == tail[k - prefix.len()]);
            }
        }
    }
}

/// The decimal digit character for `0..10`.
pub fn decimal_digit_char(n: u64) -> (c: char)
    requires
        n < 10,
    ensures
        c == decimal_digit(n as int),
{
    let b: u8 = n as u8;
    (b + 48) as char
}

/// Appends the decimal rendering of `n` to `s`.
pub fn push_decimal(s: &mut String, n: u64)
    ensures
        final(s)@ == old(s)@ + decimal_text(n as nat),
    decreases n,
{
    if n < 10 {
        push_char(s, decimal_digit_char(n));
        assert(final(s)@ =~= old(s)@ + decimal_text(n as nat));
    } else {
        push_decimal(s, n / 10);
        push_char(s, decimal_digit_char(n % 10));
        assert(final(s)@ =~= old(s)@ + decimal_text(n as nat));
    }
}

/// The number a string of decimal digits denotes.
pub open spec fn decimal_value(s: Seq<char>) -> int
    decreases s.len(),
{
    if s.len() == 0 {
        0
    } else {
        decimal_value(s.drop_last()) * 10 + (s.last() as int - 48)
    }
}

/// A hex digit's code point: `0`-`9` for nibbles below ten, `a`-`f` above.
pub proof fn lemma_hex_digit_code(n: int)
    requires
        0 <= n < 16,
    ensures
        hex_digit(n) as int == if n < 10 {
            48 + n
        } else {
            87 + n
        },
{
}

/// A decimal digit's code point is `0` plus its value.
pub proof fn lemma_decimal_digit_code(d: int)
    requires
        0 <= d < 10,
    ensures
        decimal_digit(d) as int == 48 + d,
{
}

/// The decimal rendering reads back as the number it renders, uses only the
/// digits `0`-`9`, and has no leading zero.
pub proof fn lemma_decimal_text_value(n: nat)
    ensures
        decimal_value(decimal_text(n)) == n,
        decimal_text(n).len() >= 1,
        forall|k: int|
            0 <= k < decimal_text(n).len() ==> 48 <= #[trigger] decimal_text(n)[k] as int <= 57,
        decimal_text(n).len() > 1 ==> decimal_text(n)[0] != '0',
    decreases n,
{
    if n < 10 {
        lemma_decimal_digit_code(n as int);
        assert(decimal_text(n).drop_last() =~= Seq::<char>::empty());
        assert(decimal_value(Seq::<char>::empty()) == 0);
        assert(decimal_value(decimal_text(n)) == decimal_value(decimal_text(n).drop_last()) * 10 + (
        decimal_text(n).last() as int - 48));
    } else {
        lemma_decimal_digit_code((n % 10) as int);
        lemma_decimal_text_value(n / 10);
        if n / 10 < 10 {
            lemma_decimal_digit_code((n / 10) as int);
        }
        let pre = decimal_text(n / 10);
        let t = decimal_text(n);
        assert(t.drop_last() =~= pre);
        assert(t.last() == decimal_digit((n % 10) as int));
        assert(decimal_value(t) == decimal_value(pre) * 10 + (t.last() as int - 48));
        assert(t[0] == pre[0]);
        if n / 10 < 10 {
            assert(pre[0] == decimal_digit((n / 10) as int));
        } else {
            assert(pre.len() > 1) by {
                lemma_decimal_text_value((n / 10) / 10);
            }
        }
        assert forall|k: int| 0 <= k < t.len() implies 48 <= #[trigger] t[k] as int <= 57 by {
            if k < pre.len() {
                assert(t[k] == pre[k]);
            }
        }
    }
}

/// Distinct numbers have distinct decimal renderings.
pub proof fn lemma_decimal_text_injective(a: nat, b: nat)
    requires
        decimal_text(a) == decimal_text(b),
    ensures
        a == b,
{
    lemma_decimal_text_value(a);
    lemma_decimal_text_value(b);
}

} // verus!
