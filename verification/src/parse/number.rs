//! Unsigned numbers as the fields of a record write them.

use vstd::prelude::*;

verus! {

/// The value of one digit in the given radix, or `None` for any other byte.
/// In radix 16 both cases of `a` to `f` count.
pub open spec fn digit_of(b: u8, radix: int) -> Option<int> {
    if 0x30 <= b <= 0x39 {
        Some(b - 0x30)
    } else if radix == 16 && 0x61 <= b <= 0x66 {
        Some(b - 0x61 + 10)
    } else if radix == 16 && 0x41 <= b <= 0x46 {
        Some(b - 0x41 + 10)
    } else {
        None
    }
}

/// Every byte of the text is a digit of the radix.
pub open spec fn all_digits(text: Seq<u8>, radix: int) -> bool {
    forall|i: int| 0 <= i < text.len() ==> (#[trigger] digit_of(text[i], radix)) is Some
}

/// The number that a run of digits writes, most significant digit first.
pub open spec fn digits_value(text: Seq<u8>, radix: int) -> int
    decreases text.len(),
{
    if text.len() == 0 {
        0
    } else {
        digits_value(text.drop_last(), radix) * radix + match digit_of(text.last(), radix) {
            Some(d) => d,
            None => 0,
        }
    }
}

/// The digits of a number: the text without one leading `+`, where more
/// follows it.
pub open spec fn unsigned_digits(text: Seq<u8>) -> Seq<u8> {
    if text.len() > 1 && text[0] == 0x2b {
        text.skip(1)
    } else {
        text
    }
}

/// The number that the text writes in the radix: at least one digit, after
/// an optional `+`, and a value that fits in 64 bits.
pub open spec fn number_of(text: Seq<u8>, radix: int) -> Option<u64> {
    let digits = unsigned_digits(text);
    if digits.len() > 0 && all_digits(digits, radix) && digits_value(digits, radix) <= u64::MAX {
        Some(digits_value(digits, radix) as u64)
    } else {
        None
    }
}

/// Text that opens with `0x`.
pub open spec fn has_hex_prefix(text: Seq<u8>) -> bool {
    text.len() >= 2 && text[0] == 0x30 && text[1] == 0x78
}

/// The number that a field writes: hexadecimal after `0x`, decimal otherwise.
pub open spec fn field_number(text: Seq<u8>) -> Option<u64> {
    if has_hex_prefix(text) {
        number_of(text.skip(2), 16)
    } else {
        number_of(text, 10)
    }
}

/// A run of digits is worth at least as much as each run it starts with.
pub proof fn lemma_digits_value_grows(text: Seq<u8>, radix: int, n: int)
    requires
        radix == 10 || radix == 16,
        0 <= n <= text.len(),
    ensures
        0 <= digits_value(text.take(n), radix) <= digits_value(text, radix),
    decreases text.len() - n,
{
    if n == text.len() {
        assert(text.take(n) =~= text);
        lemma_digits_value_nonnegative(text, radix);
    } else {
        let longer = text.take(n + 1);
        assert(longer.drop_last() =~= text.take(n));
        assert(longer.last() == text[n]);
        lemma_digits_value_grows(text, radix, n + 1);
        lemma_digits_value_nonnegative(text.take(n), radix);
        let shorter: int = digits_value(text.take(n), radix);
        assert(shorter * radix >= shorter) by (nonlinear_arith)
            requires
                shorter >= 0,
                radix >= 1,
        ;
    }
}

/// No run of digits is worth less than zero.
pub proof fn lemma_digits_value_nonnegative(text: Seq<u8>, radix: int)
    requires
        radix == 10 || radix == 16,
    ensures
        0 <= digits_value(text, radix),
    decreases text.len(),
{
    if text.len() > 0 {
        lemma_digits_value_nonnegative(text.drop_last(), radix);
        let head: int = digits_value(text.drop_last(), radix);
        assert(head * radix >= 0) by (nonlinear_arith)
            requires
                head >= 0,
                radix >= 1,
        ;
    }
}

/// The value of one digit in radix 10 or 16.
pub fn parse_digit(b: u8, radix: u64) -> (d: Option<u64>)
    requires
        radix == 10 || radix == 16,
    ensures
        match d {
            Some(v) => digit_of(b, radix as int) == Some(v as int) && v < radix,
            None => digit_of(b, radix as int) is None,
        },
{
    if 0x30 <= b && b <= 0x39 {
        Some((b - 0x30) as u64)
    } else if radix == 16 && 0x61 <= b && b <= 0x66 {
        Some((b - 0x61 + 10) as u64)
    } else if radix == 16 && 0x41 <= b && b <= 0x46 {
        Some((b - 0x41 + 10) as u64)
    } else {
        None
    }
}

/// Reads an unsigned number in radix 10 or 16.
pub fn parse_number(text: &[u8], radix: u64) -> (r: Option<u64>)
    requires
        radix == 10 || radix == 16,
    ensures
        r == number_of(text@, radix as int),
{
    let start: usize = if text.len() > 1 && text[0] == 0x2b {
        1
    } else {
        0
    };
    let ghost digits: Seq<u8> = unsigned_digits(text@);
    assert(digits =~= text@.skip(start as int));
    if text.len() == start {
        return None;
    }
    let mut value: u64 = 0;
    let mut i: usize = start;
    while i < text.len()
        invariant
            radix == 10 || radix == 16,
            start <= i <= text@.len(),
            digits == text@.skip(start as int),
            digits == unsigned_digits(text@),
            all_digits(digits.take(i - start), radix as int),
            value == digits_value(digits.take(i - start), radix as int),
        decreases text@.len() - i,
    {
        let ghost seen: Seq<u8> = digits.take(i - start);
        let ghost next: Seq<u8> = digits.take(i - start + 1);
        proof {
            assert(next.drop_last() =~= seen);
            assert(next.last() == text@[i as int]);
        }
        let d: u64 = match parse_digit(text[i], radix) {
            Some(d) => d,
            None => {
                assert(digit_of(digits[i - start], radix as int) is None);
                return None;
            },
        };
        assert(all_digits(next, radix as int)) by {
            assert forall|k: int| 0 <= k < next.len() implies (#[trigger] digit_of(
                next[k],
                radix as int,
            )) is Some by {
                if k < seen.len() {
                    assert(next[k] == seen[k]);
                }
            }
        }
        let grown: Option<u64> = match value.checked_mul(radix) {
            Some(scaled) => scaled.checked_add(d),
            None => None,
        };
        match grown {
            Some(v) => {
                value = v;
            },
            None => {
                proof {
                    assert(digits_value(next, radix as int) > u64::MAX);
                    lemma_digits_value_grows(digits, radix as int, i - start + 1);
                }
                return None;
            },
        }
        i += 1;
    }
    assert(digits.take(i - start) =~= digits);
    Some(value)
}

/// Reads the number of a field: hexadecimal after `0x`, decimal otherwise.
pub fn parse_field_number(text: &[u8]) -> (r: Option<u64>)
    ensures
        r == field_number(text@),
{
    if text.len() >= 2 && text[0] == 0x30 && text[1] == 0x78 {
        let rest: &[u8] = vstd::slice::slice_subrange(text, 2, text.len());
        assert(rest@ =~= text@.skip(2));
        parse_number(rest, 16)
    } else {
        parse_number(text, 10)
    }
}

} // verus!
