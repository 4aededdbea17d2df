//! Text forms of bytes and numbers: hexadecimal and decimal digits.

use vstd::prelude::*;
use vstd::string::*;

verus! {

/// The digit for `d`: `0` to `9`, then `a` to `f`.
pub open spec fn digit_char(d: int) -> char {
    if d == 0 {
        '0'
    } else if d == 1 {
        '1'
    } else if d == 2 {
        '2'
    } else if d == 3 {
        '3'
    } else if d == 4 {
        '4'
    } else if d == 5 {
        '5'
    } else if d == 6 {
        '6'
    } else if d == 7 {
        '7'
    } else if d == 8 {
        '8'
    } else if d == 9 {
        '9'
    } else if d == 10 {
        'a'
    } else if d == 11 {
        'b'
    } else if d == 12 {
        'c'
    } else if d == 13 {
        'd'
    } else if d == 14 {
        'e'
    } else {
        'f'
    }
}

/// The two hexadecimal digits of a byte.
pub open spec fn hex_byte_spec(b: u8) -> Seq<char> {
    seq![digit_char(b as int / 16), digit_char(b as int % 16)]
}

/// The hexadecimal digits of a sequence of bytes, two for each.
pub open spec fn hex_spec(bytes: Seq<u8>) -> Seq<char>
    decreases bytes.len(),
{
    if bytes.len() == 0 {
        Seq::empty()
    } else {
        hex_spec(bytes.drop_last()) + hex_byte_spec(bytes.last())
    }
}

/// The digits of `n` in base `base`, without leading zeros; one `0` for
/// zero.
pub open spec fn digits_spec(n: nat, base: nat) -> Seq<char>
    decreases n,
{
    if n < base || base < 2 {
        seq![digit_char(n as int)]
    } else {
        proof {
            assert(n / base < n) by (nonlinear_arith)
                requires
                    n >= base,
                    base >= 2,
            ;
        }
        digits_spec(n / base, base).push(digit_char((n % base) as int))
    }
}

/// `digits` with zeros in front, up to `width` characters.
pub open spec fn pad_left(width: nat, digits: Seq<char>) -> Seq<char> {
    if digits.len() < width {
        Seq::new((width - digits.len()) as nat, |i: int| '0') + digits
    } else {
        digits
    }
}

/// The digit for `d` as a string.
pub fn digit_str(d: u8) -> (r: &'static str)
    requires
        d < 16,
    ensures
        r@ == seq![digit_char(d as int)],
{
    proof {
        reveal_strlit("0");
        reveal_strlit("1");
        reveal_strlit("2");
        reveal_strlit("3");
        reveal_strlit("4");
        reveal_strlit("5");
        reveal_strlit("6");
        reveal_strlit("7");
        reveal_strlit("8");
        reveal_strlit("9");
        reveal_strlit("a");
        reveal_strlit("b");
        reveal_strlit("c");
        reveal_strlit("d");
        reveal_strlit("e");
        reveal_strlit("f");
    }
    let r = if d == 0 {
        "0"
    } else if d == 1 {
        "1"
    } else if d == 2 {
        "2"
    } else if d == 3 {
        "3"
    } else if d == 4 {
        "4"
    } else if d == 5 {
        "5"
    } else if d == 6 {
        "6"
    } else if d == 7 {
        "7"
    } else if d == 8 {
        "8"
    } else if d == 9 {
        "9"
    } else if d == 10 {
        "a"
    } else if d == 11 {
        "b"
    } else if d == 12 {
        "c"
    } else if d == 13 {
        "d"
    } else if d == 14 {
        "e"
    } else {
        "f"
    };
    assert(r@ =~= seq![digit_char(d as int)]);
    r
}

/// Appends the two hexadecimal digits of a byte.
pub fn append_hex_byte(s: &mut String, b: u8)
    ensures
        final(s)@ == old(s)@ + hex_byte_spec(b),
{
    s.append(digit_str(b / 16));
    s.append(digit_str(b % 16));
    assert(s@ =~= old(s)@ + hex_byte_spec(b));
}

/// Appends the two hexadecimal digits of each byte.
pub fn append_hex(s: &mut String, bytes: &[u8])
    ensures
        final(s)@ == old(s)@ + hex_spec(bytes@),
{
    let mut i: usize = 0;
    assert(bytes@.subrange(0, 0) =~= Seq::<u8>::empty());
    assert(s@ =~= old(s)@ + hex_spec(bytes@.subrange(0, 0)));
    while i < bytes.len()
        invariant
            i <= bytes@.len(),
            s@ == old(s)@ + hex_spec(bytes@.subrange(0, i as int)),
        decreases bytes@.len() - i,
    {
        let b: u8 = bytes[i];
        append_hex_byte(s, b);
        proof {
            let done = bytes@.subrange(0, i as int);
            let next = bytes@.subrange(0, i + 1);
            assert(next.drop_last() =~= done);
            assert(next.last() == b);
            assert(s@ =~= old(s)@ + hex_spec(next));
        }
        i = i + 1;
    }
    assert(bytes@.subrange(0, i as int) =~= bytes@);
}

/// The hexadecimal digits of a sequence of bytes, two for each.
pub fn hex(bytes: &[u8]) -> (s: String)
    ensures
        s@ == hex_spec(bytes@),
{
    let mut s = String::new();
    append_hex(&mut s, bytes);
    assert(Seq::<char>::empty() + hex_spec(bytes@) =~= hex_spec(bytes@));
    s
}

/// Number of digits of `n` in base `base`.
pub fn count_digits(n: usize, base: usize) -> (k: usize)
    requires
        base == 10 || base == 16,
    ensures
        k == digits_spec(n as nat, base as nat).len(),
        1 <= k <= n + 1,
    decreases n,
{
    if n < base {
        1
    } else {
        let rest = count_digits(n / base, base);
        rest + 1
    }
}

/// Appends the digits of `n` in base `base`.
pub fn append_digits(s: &mut String, n: usize, base: usize)
    requires
        base == 10 || base == 16,
    ensures
        final(s)@ == old(s)@ + digits_spec(n as nat, base as nat),
    decreases n,
{
    if n < base {
        s.append(digit_str(n as u8));
    } else {
        append_digits(s, n / base, base);
        s.append(digit_str((n % base) as u8));
        assert(s@ =~= old(s)@ + digits_spec(n as nat, base as nat));
    }
}

/// The decimal digits of `n`.
pub fn decimal(n: usize) -> (s: String)
    ensures
        s@ == digits_spec(n as nat, 10),
{
    let mut s = String::new();
    append_digits(&mut s, n, 10);
    assert(Seq::<char>::empty() + digits_spec(n as nat, 10) =~= digits_spec(n as nat, 10));
    s
}

/// The hexadecimal digits of `n`, with zeros in front up to `width`
/// characters.
pub fn hex_padded(n: usize, width: usize) -> (s: String)
    ensures
        s@ == pad_left(width as nat, digits_spec(n as nat, 16)),
{
    let mut s = String::new();
    let k = count_digits(n, 16);
    let mut i: usize = k;
    assert(s@ =~= Seq::new(0nat, |j: int| '0'));
    while i < width
        invariant
            k <= i,
            i <= width || i == k,
            s@ == Seq::new((i - k) as nat, |j: int| '0'),
        decreases width - i,
    {
        proof {
            reveal_strlit("0");
        }
        s.append("0");
        i = i + 1;
        assert(s@ =~= Seq::new((i - k) as nat, |j: int| '0'));
    }
    append_digits(&mut s, n, 16);
    proof {
        let digits = digits_spec(n as nat, 16);
        if k < width {
            assert(i == width);
        } else {
            assert(i == k);
            assert(Seq::new(0nat, |j: int| '0') + digits =~= digits);
        }
    }
    s
}

/// Value of a hexadecimal digit, in either case.
pub open spec fn hex_value(c: u8) -> Option<u8> {
    if 0x30 <= c <= 0x39 {
        Some((c - 0x30) as u8)
    } else if 0x61 <= c <= 0x66 {
        Some((c - 0x61 + 10) as u8)
    } else if 0x41 <= c <= 0x46 {
        Some((c - 0x41 + 10) as u8)
    } else {
        None
    }
}

/// Value of two characters read as a hexadecimal number: two digits, or a
/// plus sign and one digit.
pub open spec fn pair_value(hi: u8, lo: u8) -> Option<u8> {
    match hex_value(lo) {
        None => None,
        Some(l) => if hi == 0x2b {
            Some(l)
        } else {
            match hex_value(hi) {
                Some(h) => Some((16 * h + l) as u8),
                None => None,
            }
        },
    }
}

/// `text` without a leading `0x`.
pub open spec fn strip_0x(text: Seq<u8>) -> Seq<u8> {
    if text.len() >= 2 && text[0] == 0x30 && text[1] == 0x78 {
        text.subrange(2, text.len() as int)
    } else {
        text
    }
}

/// Whether every pair of characters of `digits` has a value.
pub open spec fn all_pairs_valid(digits: Seq<u8>) -> bool {
    forall|i: int|
        0 <= i < digits.len() / 2 ==> (#[trigger] pair_value(digits[2 * i], digits[2 * i + 1]))
            is Some
}

/// The bytes that pairs of hexadecimal characters denote: none where their
/// number is odd or a pair has no value.
pub open spec fn parse_pairs_spec(digits: Seq<u8>) -> Option<Seq<u8>> {
    if digits.len() % 2 != 0 || !all_pairs_valid(digits) {
        None
    } else {
        Some(
            Seq::new(
                digits.len() / 2,
                |i: int| pair_value(digits[2 * i], digits[2 * i + 1])->0,
            ),
        )
    }
}

/// The bytes that a hexadecimal text denotes, with or without a leading
/// `0x`.
pub open spec fn parse_hex_spec(text: Seq<u8>) -> Option<Seq<u8>> {
    parse_pairs_spec(strip_0x(text))
}

fn hex_digit_value(c: u8) -> (r: Option<u8>)
    ensures
        r == hex_value(c),
{
    if 0x30 <= c && c <= 0x39 {
        Some(c - 0x30)
    } else if 0x61 <= c && c <= 0x66 {
        Some(c - 0x61 + 10)
    } else if 0x41 <= c && c <= 0x46 {
        Some(c - 0x41 + 10)
    } else {
        None
    }
}

/// Reads the bytes that the pairs of hexadecimal characters of `text` from
/// `start` on denote.
pub fn parse_pairs(text: &[u8], start: usize) -> (r: Option<Vec<u8>>)
    requires
        start <= text@.len(),
    ensures
        match parse_pairs_spec(text@.subrange(start as int, text@.len() as int)) {
            Some(bytes) => r is Some && r->0@ == bytes,
            None => r is None,
        },
{
    let len = text.len();
    let ghost digits = text@.subrange(start as int, len as int);
    if (len - start) % 2 != 0 {
        return None;
    }
    let count: usize = (len - start) / 2;
    let mut out: Vec<u8> = Vec::new();
    let mut i: usize = 0;
    while i < count
        invariant
            i <= count,
            count == digits.len() / 2,
            digits.len() % 2 == 0,
            digits == text@.subrange(start as int, len as int),
            len == text@.len(),
            start <= len,
            out@.len() == i,
            forall|j: int|
                0 <= j < i ==> (#[trigger] pair_value(digits[2 * j], digits[2 * j + 1])) == Some(
                    out@[j],
                ),
        decreases count - i,
    {
        let hi: u8 = text[start + 2 * i];
        let lo: u8 = text[start + 2 * i + 1];
        let ghost gi: int = i as int;
        assert(hi == digits[2 * gi] && lo == digits[2 * gi + 1]);
        let low = match hex_digit_value(lo) {
            Some(l) => l,
            None => {
                assert(pair_value(digits[2 * gi], digits[2 * gi + 1]) is None);
                return None;
            },
        };
        let value: u8 = if hi == 0x2b {
            low
        } else {
            match hex_digit_value(hi) {
                Some(h) => 16 * h + low,
                None => {
                    assert(pair_value(digits[2 * gi], digits[2 * gi + 1]) is None);
                    return None;
                },
            }
        };
        out.push(value);
        i = i + 1;
    }
    proof {
        assert(all_pairs_valid(digits));
        assert(out@ =~= parse_pairs_spec(digits)->0);
    }
    Some(out)
}

/// Reads the bytes that a hexadecimal text denotes, with or without a
/// leading `0x`.
pub fn parse_hex(text: &[u8]) -> (r: Option<Vec<u8>>)
    ensures
        match parse_hex_spec(text@) {
            Some(bytes) => r is Some && r->0@ == bytes,
            None => r is None,
        },
{
    let len = text.len();
    let start: usize = if len >= 2 && text[0] == 0x30 && text[1] == 0x78 {
        2
    } else {
        0
    };
    assert(strip_0x(text@) =~= text@.subrange(start as int, len as int));
    parse_pairs(text, start)
}

/// The number that decimal digits denote.
pub open spec fn decimal_value(digits: Seq<u8>) -> nat
    decreases digits.len(),
{
    if digits.len() == 0 {
        0
    } else {
        decimal_value(digits.drop_last()) * 10 + (digits.last() - 0x30) as nat
    }
}

/// Whether `digits` holds decimal digits only.
pub open spec fn all_decimal(digits: Seq<u8>) -> bool {
    forall|i: int| 0 <= i < digits.len() ==> 0x30 <= #[trigger] digits[i] <= 0x39
}

/// `text` without a leading plus sign.
pub open spec fn strip_plus(text: Seq<u8>) -> Seq<u8> {
    if text.len() >= 1 && text[0] == 0x2b {
        text.subrange(1, text.len() as int)
    } else {
        text
    }
}

/// The number that a decimal text denotes: at least one digit, after an
/// optional plus sign, and no more than `u128::MAX`.
pub open spec fn parse_decimal_spec(text: Seq<u8>) -> Option<u128> {
    let digits = strip_plus(text);
    if digits.len() == 0 || !all_decimal(digits) || decimal_value(digits) > u128::MAX {
        None
    } else {
        Some(decimal_value(digits) as u128)
    }
}

/// The number that the first digits denote is no more than what all of
/// them denote.
pub proof fn lemma_decimal_prefix(digits: Seq<u8>, i: int)
    requires
        0 <= i <= digits.len(),
        all_decimal(digits),
    ensures
        decimal_value(digits.subrange(0, i)) <= decimal_value(digits),
    decreases digits.len() - i,
{
    if i < digits.len() {
        lemma_decimal_prefix(digits, i + 1);
        let longer = digits.subrange(0, i + 1);
        assert(longer.drop_last() =~= digits.subrange(0, i));
        assert(longer.last() == digits[i]);
    } else {
        assert(digits.subrange(0, i) =~= digits);
    }
}

/// Reads the number that a decimal text denotes.
pub fn parse_decimal(text: &[u8]) -> (r: Option<u128>)
    ensures
        r == parse_decimal_spec(text@),
{
    let len = text.len();
    let start: usize = if len >= 1 && text[0] == 0x2b {
        1
    } else {
        0
    };
    let ghost digits = strip_plus(text@);
    assert(digits =~= text@.subrange(start as int, len as int));
    if len == start {
        return None;
    }
    let mut acc: u128 = 0;
    let mut i: usize = start;
    assert(digits.subrange(0, 0) =~= Seq::<u8>::empty());
    while i < len
        invariant
            start <= i <= len,
            len == text@.len(),
            digits == text@.subrange(start as int, len as int),
            digits == strip_plus(text@),
            forall|j: int| 0 <= j < i - start ==> 0x30 <= #[trigger] digits[j] <= 0x39,
            acc == decimal_value(digits.subrange(0, i - start)),
        decreases len - i,
    {
        let c: u8 = text[i];
        let ghost k: int = i - start;
        assert(c == digits[k]);
        if c < 0x30 || c > 0x39 {
            return None;
        }
        let d: u128 = (c - 0x30) as u128;
        proof {
            let longer = digits.subrange(0, k + 1);
            assert(longer.drop_last() =~= digits.subrange(0, k));
            assert(longer.last() == c);
        }
        if acc > (u128::MAX - d) / 10 {
            proof {
                if all_decimal(digits) {
                    lemma_decimal_prefix(digits, k + 1);
                }
            }
            return None;
        }
        acc = acc * 10 + d;
        i = i + 1;
    }
    proof {
        assert(digits.subrange(0, i - start) =~= digits);
        assert(all_decimal(digits));
    }
    Some(acc)
}

} // verus!
