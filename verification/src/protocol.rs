//! The bytes of the wire protocol: the tokens, the decimal payload of a
//! write command and the hexadecimal reply to a read command.

use vstd::prelude::*;
use vstd::string::StringSliceAdditionalSpecFns;

verus! {

/// Length of the reply to a read command.
pub const REPLY_LENGTH: usize = 32;

/// Whether two byte strings are the same.
pub fn bytes_equal(left: &[u8], right: &[u8]) -> (same: bool)
    ensures
        same == (left@ == right@),
{
    if left.len() != right.len() {
        return false;
    }
    let mut i: usize = 0;
    while i < left.len()
        invariant
            i <= left@.len(),
            left@.len() == right@.len(),
            left@.take(i as int) == right@.take(i as int),
        decreases left@.len() - i,
    {
        if left[i] != right[i] {
            assert(left@[i as int] != right@[i as int]);
            return false;
        }
        i += 1;
        assert(left@.take(i as int) =~= left@.take(i - 1).push(left@[i - 1]));
        assert(right@.take(i as int) =~= right@.take(i - 1).push(right@[i - 1]));
    }
    assert(left@ =~= left@.take(i as int));
    assert(right@ =~= right@.take(i as int));
    true
}

/// The reply to the handshake probe: `UART_OK!` to `UART_OK?`, `UNRECOG?`
/// to anything else.
pub open spec fn handshake_reply(probe: Seq<u8>) -> Seq<u8> {
    if probe == "UART_OK?".spec_bytes() {
        "UART_OK!".spec_bytes()
    } else {
        "UNRECOG?".spec_bytes()
    }
}

/// Whether the byte is an ASCII decimal digit.
pub open spec fn is_digit(byte: u8) -> bool {
    48 <= byte <= 57
}

/// The digit a byte stands for; zero for a byte below `0`.
pub open spec fn digit_of(byte: u8) -> nat {
    if byte >= 48 {
        (byte - 48) as nat
    } else {
        0
    }
}

/// The number that a string of decimal digits writes.
pub open spec fn digits_value(digits: Seq<u8>) -> nat
    decreases digits.len(),
{
    if digits.len() == 0 {
        0
    } else {
        digits_value(digits.drop_last()) * 10 + digit_of(digits.last())
    }
}

/// Whether every byte is a decimal digit.
pub open spec fn all_digits(digits: Seq<u8>) -> bool {
    forall|i: int| 0 <= i < digits.len() ==> is_digit(#[trigger] digits[i])
}

/// The text without one leading `+`.
pub open spec fn unsigned(text: Seq<u8>) -> Seq<u8> {
    if text.len() > 0 && text[0] == 43 {
        text.skip(1)
    } else {
        text
    }
}

/// The byte that a decimal text writes: an optional `+`, then one or more
/// decimal digits whose value is at most 255. Any other text writes none.
pub open spec fn decimal_byte(text: Seq<u8>) -> Option<u8> {
    let digits = unsigned(text);
    if digits.len() > 0 && all_digits(digits) && digits_value(digits) <= 255 {
        Some(digits_value(digits) as u8)
    } else {
        None
    }
}

/// A prefix of a digit string writes no more than the whole string.
pub proof fn lemma_digits_value_grows(digits: Seq<u8>, n: int)
    requires
        0 <= n <= digits.len(),
    ensures
        digits_value(digits.take(n)) <= digits_value(digits),
    decreases digits.len(),
{
    if n == digits.len() {
        assert(digits.take(n) =~= digits);
    } else {
        lemma_digits_value_grows(digits.drop_last(), n);
        assert(digits.drop_last().take(n) =~= digits.take(n));
    }
}

/// Parses the payload of a write command.
pub fn parse_byte(payload: &[u8]) -> (value: Option<u8>)
    ensures
        value == decimal_byte(payload@),
{
    let start: usize = if payload.len() > 0 && payload[0] == 43 {
        1
    } else {
        0
    };
    let ghost digits = unsigned(payload@);
    assert(digits =~= payload@.skip(start as int));
    if start == payload.len() {
        return None;
    }
    let mut total: u16 = 0;
    let mut i: usize = start;
    while i < payload.len()
        invariant
            start <= i <= payload@.len(),
            digits == unsigned(payload@),
            digits == payload@.skip(start as int),
            all_digits(digits.take(i - start)),
            total == digits_value(digits.take(i - start)),
            total <= 255,
        decreases payload@.len() - i,
    {
        let byte = payload[i];
        if byte < 48 || byte > 57 {
            assert(!is_digit(digits[i - start]));
            return None;
        }
        let ghost before = digits.take(i - start);
        total = total * 10 + (byte - 48) as u16;
        i += 1;
        proof {
            let now = digits.take(i - start);
            assert(now.drop_last() =~= before);
            assert(now.last() == byte);
            assert forall|k: int| 0 <= k < now.len() implies is_digit(#[trigger] now[k]) by {
                if k < before.len() {
                    assert(now[k] == before[k]);
                }
            }
        }
        if total > 255 {
            proof {
                lemma_digits_value_grows(digits, i - start);
            }
            return None;
        }
    }
    assert(digits.take(i - start) =~= digits);
    Some(total as u8)
}

/// The ASCII digit for a value below sixteen, letters in upper case.
pub open spec fn upper_digit(value: u8) -> u8 {
    if value < 10 {
        (48 + value) as u8
    } else {
        (55 + value) as u8
    }
}

/// The ASCII digit for a value below sixteen, letters in lower case.
pub open spec fn lower_digit(value: u8) -> u8 {
    if value < 10 {
        (48 + value) as u8
    } else {
        (87 + value) as u8
    }
}

/// The buffer after `number` has been written to its end in base 16: one
/// digit for a number below sixteen, two otherwise, most significant first,
/// letters in upper case. The bytes before the digits are untouched.
pub open spec fn hex_at_end(buffer: Seq<u8>, number: u8) -> Seq<u8> {
    if number < 16 {
        buffer.update(buffer.len() - 1, upper_digit(number))
    } else {
        buffer.update(buffer.len() - 2, upper_digit(number / 16)).update(
            buffer.len() - 1,
            upper_digit(number % 16),
        )
    }
}

/// `numtoa::NumToA::numtoa` for `u8` with base 16: the digits of `number`,
/// without leading zeros and with letters in upper case, are written to the
/// end of `string`; the rest of `string` is left as it was. For a buffer
/// shorter than two bytes the outside function panics.
#[verifier::external_body]
fn numtoa_base16(number: u8, string: &mut Vec<u8>)
    requires
        old(string)@.len() >= 2,
    ensures
        final(string)@ == hex_at_end(old(string)@, number),
{
    let _ = numtoa::NumToA::numtoa(number, 16, string.as_mut_slice());
}

/// An upper-case hexadecimal letter in lower case; any other byte as it is.
pub open spec fn lowered(byte: u8) -> u8 {
    if 65 <= byte <= 70 {
        (byte + 32) as u8
    } else {
        byte
    }
}

/// The reply to a read command: `REPLY_LENGTH` bytes, zero but for the
/// hexadecimal digits of `value` at the end, without leading zeros and with
/// letters in lower case.
pub open spec fn read_reply(value: u8) -> Seq<u8> {
    if value < 16 {
        Seq::new(31, |i: int| 0u8).push(lower_digit(value))
    } else {
        Seq::new(30, |i: int| 0u8).push(lower_digit(value / 16)).push(lower_digit(value % 16))
    }
}

/// Formats the reply to a read command.
pub fn format_read(value: u8) -> (reply: Vec<u8>)
    ensures
        reply@ == read_reply(value),
{
    let mut reply: Vec<u8> = Vec::new();
    while reply.len() < REPLY_LENGTH
        invariant
            reply@.len() <= REPLY_LENGTH,
            forall|k: int| 0 <= k < reply@.len() ==> reply@[k] == 0,
        decreases REPLY_LENGTH - reply@.len(),
    {
        reply.push(0);
    }
    let ghost blank = reply@;
    numtoa_base16(value, &mut reply);
    let ghost written = reply@;
    let mut i: usize = 0;
    while i < REPLY_LENGTH
        invariant
            i <= REPLY_LENGTH,
            reply@.len() == REPLY_LENGTH,
            written.len() == REPLY_LENGTH,
            forall|k: int| 0 <= k < i ==> reply@[k] == lowered(#[trigger] written[k]),
            forall|k: int| i <= k < REPLY_LENGTH ==> reply@[k] == #[trigger] written[k],
        decreases REPLY_LENGTH - i,
    {
        let byte = reply[i];
        if 65 <= byte && byte <= 70 {
            reply.set(i, byte + 32);
        }
        i += 1;
    }
    proof {
        let high = (value / 16) as u8;
        let low = (value % 16) as u8;
        assert(lowered(upper_digit(high)) == lower_digit(high));
        assert(lowered(upper_digit(low)) == lower_digit(low));
        assert(lowered(0) == 0);
        assert forall|k: int| 0 <= k < REPLY_LENGTH implies reply@[k] == read_reply(value)[k] by {
            assert(reply@[k] == lowered(written[k]));
            if k < 30 {
                assert(written[k] == blank[k]);
            }
        }
        assert(reply@ =~= read_reply(value));
    }
    reply
}

} // verus!
