//! Decimal numbers in text: writing them and reading them back.

use vstd::prelude::*;
use vstd::string::StringExecFns;

verus! {

/// The character of the decimal digit `d`.
pub open spec fn digit_char(d: int) -> char {
    if d == 0 {
        '0'
    } else if d == 1 {
        '1'
    } else if d == 2 {
        '2'
    } else if d == 3 {
        '3'
    } else if d == 4 {
        '4'
    } else if d == 5 {
        '5'
    } else if d == 6 {
        '6'
    } else if d == 7 {
        '7'
    } else if d == 8 {
        '8'
    } else {
        '9'
    }
}

/// The digit that the character `c` writes, if it writes one.
pub open spec fn digit_value(c: char) -> Option<int> {
    if c == '0' {
        Some(0)
    } else if c == '1' {
        Some(1)
    } else if c == '2' {
        Some(2)
    } else if c == '3' {
        Some(3)
    } else if c == '4' {
        Some(4)
    } else if c == '5' {
        Some(5)
    } else if c == '6' {
        Some(6)
    } else if c == '7' {
        Some(7)
    } else if c == '8' {
        Some(8)
    } else if c == '9' {
        Some(9)
    } else {
        None
    }
}

/// `n` in decimal, without leading zeros.
pub open spec fn decimal(n: nat) -> Seq<char>
    decreases n,
{
    if n < 10 {
        seq![digit_char(n as int)]
    } else {
        decimal(n / 10).push(digit_char((n % 10) as int))
    }
}

/// The last `width` decimal digits of `n`, leading zeros included.
pub open spec fn padded(n: nat, width: nat) -> Seq<char>
    decreases width,
{
    if width == 0 {
        Seq::<char>::empty()
    } else {
        padded(n / 10, (width - 1) as nat).push(digit_char((n % 10) as int))
    }
}

/// The number that `text` writes in decimal; nothing if `text` holds anything
/// but digits. The empty text writes 0.
pub open spec fn number(text: Seq<char>) -> Option<nat>
    decreases text.len(),
{
    if text.len() == 0 {
        Some(0)
    } else {
        match (number(text.drop_last()), digit_value(text.last())) {
            (Some(front), Some(d)) => Some(front * 10 + d as nat),
            _ => None,
        }
    }
}

/// `10` to the power `width`.
pub open spec fn pow10(width: nat) -> nat
    decreases width,
{
    if width == 0 {
        1
    } else {
        10 * pow10((width - 1) as nat)
    }
}

/// A digit's character writes that digit.
pub proof fn lemma_digit_round_trip(d: int)
    requires
        0 <= d <= 9,
    ensures
        digit_value(digit_char(d)) == Some(d),
{
}

/// A number below `10^width`, written with `width` digits, reads back as
/// itself.
pub proof fn lemma_padded_round_trip(n: nat, width: nat)
    requires
        n < pow10(width),
    ensures
        padded(n, width).len() == width,
        number(padded(n, width)) == Some(n),
    decreases width,
{
    if width > 0 {
        let front = padded(n / 10, (width - 1) as nat);
        let d = (n % 10) as int;
        lemma_padded_round_trip(n / 10, (width - 1) as nat);
        lemma_digit_round_trip(d);
        assert(padded(n, width) == front.push(digit_char(d)));
        assert(front.push(digit_char(d)).drop_last() =~= front);
        assert(front.push(digit_char(d)).last() == digit_char(d));
    }
}

/// Written digits always have the width asked for.
pub proof fn lemma_padded_len(n: nat, width: nat)
    ensures
        padded(n, width).len() == width,
    decreases width,
{
    if width > 0 {
        lemma_padded_len(n / 10, (width - 1) as nat);
    }
}

/// The text of one decimal digit.
pub fn digit_text(d: u32) -> (r: &'static str)
    ensures
        r@ == seq![digit_char(d as int)],
{
    proof {
        reveal_strlit("0");
        reveal_strlit("1");
        reveal_strlit("2");
        reveal_strlit("3");
        reveal_strlit("4");
        reveal_strlit("5");
        reveal_strlit("6");
        reveal_strlit("7");
        reveal_strlit("8");
        reveal_strlit("9");
    }
    let r = if d == 0 {
        "0"
    } else if d == 1 {
        "1"
    } else if d == 2 {
        "2"
    } else if d == 3 {
        "3"
    } else if d == 4 {
        "4"
    } else if d == 5 {
        "5"
    } else if d == 6 {
        "6"
    } else if d == 7 {
        "7"
    } else if d == 8 {
        "8"
    } else {
        "9"
    };
    assert(r@ =~= seq![digit_char(d as int)]);
    r
}

/// The digit that `c` writes, if it writes one.
pub fn digit_of(c: char) -> (r: Option<u32>)
    ensures
        r matches Some(d) ==> digit_value(c) == Some(d as int) && d <= 9,
        r is None ==> digit_value(c) is None,
{
    if c == '0' {
        Some(0)
    } else if c == '1' {
        Some(1)
    } else if c == '2' {
        Some(2)
    } else if c == '3' {
        Some(3)
    } else if c == '4' {
        Some(4)
    } else if c == '5' {
        Some(5)
    } else if c == '6' {
        Some(6)
    } else if c == '7' {
        Some(7)
    } else if c == '8' {
        Some(8)
    } else if c == '9' {
        Some(9)
    } else {
        None
    }
}

/// Appends `n` in decimal, without leading zeros.
pub fn push_decimal(out: &mut String, n: u32)
    ensures
        final(out)@ == old(out)@ + decimal(n as nat),
    decreases n,
{
    if n >= 10 {
        push_decimal(out, n / 10);
    }
    out.append(digit_text(n % 10));
    assert(final(out)@ =~= old(out)@ + decimal(n as nat));
}

/// Appends the last `width` decimal digits of `n`, leading zeros included.
pub fn push_padded(out: &mut String, n: u32, width: u32)
    ensures
        final(out)@ == old(out)@ + padded(n as nat, width as nat),
    decreases width,
{
    if width > 0 {
        push_padded(out, n / 10, width - 1);
        out.append(digit_text(n % 10));
    }
    assert(final(out)@ =~= old(out)@ + padded(n as nat, width as nat));
}

/// Reads the `count` characters of `text` from `from` on as a decimal number.
/// Nothing where one of them is no digit, where `text` is too short, or where
/// `count` is above nine.
pub fn read_number(text: &str, from: usize, count: usize) -> (r: Option<u32>)
    ensures
        r is Some <==> from + count <= text@.len() && count <= 9 && number(
            text@.subrange(from as int, from + count),
        ) is Some,
        r matches Some(n) ==> number(text@.subrange(from as int, from + count)) == Some(n as nat)
            && n < pow10(count as nat),
{
    let len = text.unicode_len();
    if count > 9 || from > len || count > len - from {
        return None;
    }
    let mut value: u32 = 0;
    let mut i: usize = 0;
    while i < count
        invariant
            i <= count <= 9,
            from + count <= text@.len() == len,
            number(text@.subrange(from as int, from + i)) == Some(value as nat),
            value < pow10(i as nat),
        decreases count - i,
    {
        let c = text.get_char(from + i);
        let ghost before = text@.subrange(from as int, from + i);
        let ghost now = text@.subrange(from as int, from + i + 1);
        proof {
            assert(now.drop_last() =~= before);
            assert(now.last() == c);
            lemma_pow10_small(i as nat);
            lemma_number_prefix(text@.subrange(from as int, from + count), (i + 1) as int);
            assert(text@.subrange(from as int, from + count).subrange(0, i + 1) =~= now);
        }
        match digit_of(c) {
            Some(d) => {
                value = value * 10 + d;
            },
            None => {
                return None;
            },
        }
        i += 1;
    }
    Some(value)
}

/// Powers of ten up to the ninth fit 32 bits.
pub proof fn lemma_pow10_small(width: nat)
    requires
        width <= 9,
    ensures
        pow10(width) <= 1_000_000_000,
        width <= 8 ==> pow10(width) <= 100_000_000,
        pow10(width + 1) == 10 * pow10(width),
{
    reveal_with_fuel(pow10, 11);
    assert(pow10(0) == 1);
    assert(pow10(1) == 10);
    assert(pow10(2) == 100);
    assert(pow10(3) == 1_000);
    assert(pow10(4) == 10_000);
    assert(pow10(5) == 100_000);
    assert(pow10(6) == 1_000_000);
    assert(pow10(7) == 10_000_000);
    assert(pow10(8) == 100_000_000);
    assert(pow10(9) == 1_000_000_000);
}

/// A text is a number only if each of its beginnings is one.
pub proof fn lemma_number_prefix(text: Seq<char>, len: int)
    requires
        0 <= len <= text.len(),
    ensures
        number(text.subrange(0, len)) is None ==> number(text) is None,
    decreases text.len(),
{
    if len < text.len() {
        assert(text.drop_last().subrange(0, len) =~= text.subrange(0, len));
        lemma_number_prefix(text.drop_last(), len);
    } else {
        assert(text.subrange(0, len) =~= text);
    }
}

/// Whether `piece` stands in `text` at position `at`.
pub open spec fn stands_at(text: Seq<char>, at: int, piece: Seq<char>) -> bool {
    0 <= at && at + piece.len() <= text.len() && text.subrange(at, at + piece.len()) == piece
}

/// Whether `text` begins with `piece`.
pub open spec fn begins_with(text: Seq<char>, piece: Seq<char>) -> bool {
    stands_at(text, 0, piece)
}

/// Whether `text` ends with `piece`.
pub open spec fn ends_with(text: Seq<char>, piece: Seq<char>) -> bool {
    stands_at(text, text.len() - piece.len(), piece)
}

/// Whether `piece` stands in `text` at position `at`.
pub fn has_at(text: &str, at: usize, piece: &str) -> (r: bool)
    ensures
        r == stands_at(text@, at as int, piece@),
{
    let len = text.unicode_len();
    let count = piece.unicode_len();
    if at > len || count > len - at {
        return false;
    }
    let mut i: usize = 0;
    while i < count
        invariant
            i <= count == piece@.len(),
            at + count <= len == text@.len(),
            text@.subrange(at as int, at + i) == piece@.subrange(0, i as int),
        decreases count - i,
    {
        if text.get_char(at + i) != piece.get_char(i) {
            assert(text@.subrange(at as int, at + count)[i as int] != piece@[i as int]);
            return false;
        }
        i += 1;
        assert(text@.subrange(at as int, at + i) =~= text@.subrange(at as int, at + i - 1).push(
            text@[at + i - 1],
        ));
        assert(piece@.subrange(0, i as int) =~= piece@.subrange(0, i - 1).push(piece@[i - 1]));
    }
    assert(piece@.subrange(0, count as int) =~= piece@);
    true
}

/// Whether `text` ends with `piece`.
pub fn has_at_end(text: &str, piece: &str) -> (r: bool)
    ensures
        r == ends_with(text@, piece@),
{
    let len = text.unicode_len();
    let count = piece.unicode_len();
    if count > len {
        return false;
    }
    has_at(text, len - count, piece)
}

/// Two, four and nine digits write the numbers below a hundred, ten thousand
/// and a thousand million.
pub proof fn lemma_pow10_values()
    ensures
        pow10(2) == 100,
        pow10(4) == 10_000,
        pow10(9) == 1_000_000_000,
{
    reveal_with_fuel(pow10, 11);
}

} // verus!
