use vstd::prelude::*;
use vstd::string::*;

use crate::constants::DropId;

verus! {

/// Whether the character is one of the ten decimal digits.
pub open spec fn is_digit(c: char) -> bool {
    '0' <= c <= '9'
}

/// The number that a decimal digit stands for.
pub open spec fn digit_value(c: char) -> nat {
    if is_digit(c) {
        (c as u32 - '0' as u32) as nat
    } else {
        0
    }
}

/// The number that the digits write in base ten.
pub open spec fn digits_value(digits: Seq<char>) -> nat
    decreases digits.len(),
{
    if digits.len() == 0 {
        0
    } else {
        10 * digits_value(digits.drop_last()) + digit_value(digits.last())
    }
}

/// The digits of a message: the message without a plus sign at its start.
pub open spec fn digits_of(msg: Seq<char>) -> Seq<char> {
    if msg.len() > 0 && msg[0] == '+' {
        msg.skip(1)
    } else {
        msg
    }
}

/// The drop that a message names: the message is a number in base ten, made
/// of one digit or more, with a plus sign before it or not, and no larger
/// than the largest identifier. Any other message names no drop.
pub open spec fn parsed_drop_id(msg: Seq<char>) -> Option<DropId> {
    let digits = digits_of(msg);
    if digits.len() > 0 && (forall|i: int| 0 <= i < digits.len() ==> is_digit(#[trigger] digits[i]))
        && digits_value(digits) <= u32::MAX {
        Some(digits_value(digits) as DropId)
    } else {
        None
    }
}

/// The first digits of a number write no more than all of them.
proof fn lemma_prefix_value(digits: Seq<char>, k: int)
    requires
        0 <= k <= digits.len(),
    ensures
        digits_value(digits.take(k)) <= digits_value(digits),
    decreases digits.len() - k,
{
    if k < digits.len() {
        lemma_prefix_value(digits, k + 1);
        assert(digits.take(k + 1).drop_last() =~= digits.take(k));
    } else {
        assert(digits.take(k) =~= digits);
    }
}

/// The drop that the message names.
pub fn parse_drop_id(msg: &str) -> (r: Option<DropId>)
    ensures
        r == parsed_drop_id(msg@),
{
    let ghost digits = digits_of(msg@);
    if !msg.is_ascii() {
        proof {
            let i = choose|i: int| 0 <= i < msg@.len() && !('\0' <= #[trigger] msg@[i] <= '\u{7f}');
            if i > 0 || msg@[0] != '+' {
                let j = if digits.len() == msg@.len() { i } else { i - 1 };
                assert(!is_digit(digits[j]));
            }
        }
        return None;
    }
    let bytes = msg.as_bytes();
    proof {
        is_ascii_spec_bytes(msg);
    }
    let n = bytes.len();
    let start: usize = if n > 0 && bytes[0] == 43 { 1 } else { 0 };
    assert(digits =~= msg@.skip(start as int));
    if start == n {
        return None;
    }
    let mut value: u32 = 0;
    let mut i: usize = start;
    while i < n
        invariant
            start <= i <= n,
            n == msg@.len(),
            digits == msg@.skip(start as int),
            digits == digits_of(msg@),
            is_ascii(msg),
            bytes@ == Seq::new(msg@.len(), |k: int| msg@.index(k) as u8),
            forall|j: int| 0 <= j < i - start ==> is_digit(#[trigger] digits[j]),
            value == digits_value(digits.take(i - start)),
        decreases n - i,
    {
        let b = bytes[i];
        let ghost c = msg@[i as int];
        assert(c == digits[i - start]);
        assert('\0' <= c <= '\u{7f}');
        assert(b == c as u8);
        if b < 48 || b > 57 {
            assert(!is_digit(digits[i - start]));
            return None;
        }
        let d = (b - 48) as u32;
        proof {
            assert(is_digit(c));
            assert(digit_value(c) == d);
            assert(digits.take(i - start + 1).drop_last() =~= digits.take(i - start));
            assert(digits.take(i - start + 1).last() == c);
            assert(digits_value(digits.take(i - start + 1)) == 10 * value + d);
        }
        if value > (u32::MAX - d) / 10 {
            proof {
                lemma_prefix_value(digits, i - start + 1);
            }
            return None;
        }
        value = value * 10 + d;
        i += 1;
    }
    assert(digits.take(digits.len() as int) =~= digits);
    Some(value)
}

} // verus!
