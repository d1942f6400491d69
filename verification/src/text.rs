//! Text helpers shared by the protocol modules: turning numbers into their
//! decimal digits, reading them back, and recovering strings from raw bytes.

use vstd::prelude::*;
use vstd::utf8::*;

verus! {

/// The decimal digit bytes of `n`, most significant first.
pub open spec fn spec_dec_bytes(n: nat) -> Seq<u8>
    decreases n,
{
    if n < 10 {
        seq![(n + 48) as u8]
    } else {
        spec_dec_bytes(n / 10).push((n % 10 + 48) as u8)
    }
}

/// The decimal digit characters of `n`, most significant first.
pub open spec fn spec_dec_chars(n: nat) -> Seq<char> {
    spec_dec_bytes(n).map_values(|b: u8| b as char)
}

/// Every byte written by [`spec_dec_bytes`] is an ASCII digit.
pub proof fn lemma_dec_bytes_are_digits(n: nat)
    ensures
        forall|i: int|
            0 <= i < spec_dec_bytes(n).len() ==> 48 <= #[trigger] spec_dec_bytes(n)[i] <= 57,
    decreases n,
{
    if n >= 10 {
        lemma_dec_bytes_are_digits(n / 10);
        let pre = spec_dec_bytes(n / 10);
        let whole = spec_dec_bytes(n);
        assert(whole == pre.push((n % 10 + 48) as u8));
        assert forall|i: int| 0 <= i < whole.len() implies 48 <= #[trigger] whole[i] <= 57 by {
            if i < pre.len() {
                assert(whole[i] == pre[i]);
            } else {
                assert(whole[i] == (n % 10 + 48) as u8);
            }
        }
    }
}

/// A sequence of bytes below 128 is valid UTF-8 and decodes to the
/// characters the bytes spell.
pub proof fn lemma_ascii_bytes_decode(bytes: Seq<u8>)
    requires
        forall|i: int| 0 <= i < bytes.len() ==> #[trigger] bytes[i] < 128,
    ensures
        valid_utf8(bytes),
        decode_utf8(bytes) == bytes.map_values(|b: u8| b as char),
{
    let chars = bytes.map_values(|b: u8| b as char);
    assert forall|i: int| 0 <= i < chars.len() implies '\0' <= #[trigger] chars[i] <= '\u{7f}' by {
        assert(bytes[i] < 128);
    }
    assert(is_ascii_chars(chars));
    is_ascii_chars_encode_utf8(chars);
    assert(encode_utf8(chars) =~= bytes);
    encode_utf8_valid_utf8(chars);
    encode_utf8_decode_utf8(chars);
}

/// Relies on `String::from_utf8`: it succeeds exactly when the input is
/// valid UTF-8, and then returns the string those bytes encode.
#[verifier::external_body]
pub fn bytes_to_string(v: Vec<u8>) -> (r: Option<String>)
    ensures
        match r {
            Some(s) => valid_utf8(v@) && s@ == decode_utf8(v@),
            None => !valid_utf8(v@),
        },
{
    match String::from_utf8(v) {
        Ok(s) => Some(s),
        Err(_) => None,
    }
}

fn push_dec_bytes(n: u64, out: &mut Vec<u8>)
    ensures
        final(out)@ == old(out)@ + spec_dec_bytes(n as nat),
    decreases n,
{
    if n < 10 {
        out.push((n as u8) + 48);
    } else {
        push_dec_bytes(n / 10, out);
        out.push(((n % 10) as u8) + 48);
    }
    assert(final(out)@ =~= old(out)@ + spec_dec_bytes(n as nat));
}

/// Formats `n` in decimal.
pub fn u64_to_string(n: u64) -> (r: String)
    ensures
        r@ == spec_dec_chars(n as nat),
{
    let mut out: Vec<u8> = Vec::new();
    push_dec_bytes(n, &mut out);
    proof {
        lemma_dec_bytes_are_digits(n as nat);
        lemma_ascii_bytes_decode(out@);
    }
    match bytes_to_string(out) {
        Some(s) => s,
        None => {
            assert(false);
            String::new()
        },
    }
}

/// Whether `c` is a decimal digit character.
pub open spec fn spec_is_digit_char(c: char) -> bool {
    '0' <= c && c <= '9'
}

/// Whether every character of `s` is a decimal digit.
pub open spec fn spec_all_digit_chars(s: Seq<char>) -> bool {
    forall|i: int| 0 <= i < s.len() ==> spec_is_digit_char(#[trigger] s[i])
}

/// The number spelt by the digit characters of `s`, most significant first.
pub open spec fn spec_dec_value(s: Seq<char>) -> nat
    decreases s.len(),
{
    if s.len() == 0 {
        0
    } else {
        (spec_dec_value(s.drop_last()) * 10 + (s.last() as int - 48)) as nat
    }
}

/// Reading more digits can only keep the value or grow it.
proof fn lemma_dec_value_prefix_le(s: Seq<char>, i: int)
    requires
        0 <= i <= s.len(),
        spec_all_digit_chars(s),
    ensures
        spec_dec_value(s.take(i)) <= spec_dec_value(s),
    decreases s.len() - i,
{
    if i < s.len() {
        assert(s.take(i + 1).drop_last() =~= s.take(i));
        assert(s.take(i + 1).last() == s[i]);
        lemma_dec_value_prefix_le(s, i + 1);
    } else {
        assert(s.take(i) =~= s);
    }
}

/// Parses a decimal number out of `s`.
///
/// Returns the spelt value exactly when `s` is nonempty, contains only
/// digits and the value fits in a `u64`; returns `None` otherwise.
pub fn parse_u64_str(s: &str) -> (r: Option<u64>)
    ensures
        match r {
            Some(v) => s@.len() > 0 && spec_all_digit_chars(s@) && v == spec_dec_value(s@)
                && spec_dec_value(s@) <= u64::MAX,
            None => !(s@.len() > 0 && spec_all_digit_chars(s@) && spec_dec_value(s@)
                <= u64::MAX),
        },
{
    let n = s.unicode_len();
    if n == 0 {
        return None;
    }
    let mut acc: u128 = 0;
    let mut i: usize = 0;
    while i < n
        invariant
            0 <= i <= n,
            n == s@.len(),
            spec_all_digit_chars(s@.take(i as int)),
            acc == spec_dec_value(s@.take(i as int)),
            acc <= u64::MAX,
        decreases n - i,
    {
        let c = s.get_char(i);
        let d = c as u32;
        if d < 48 || d > 57 {
            assert(!spec_is_digit_char(s@[i as int]));
            return None;
        }
        acc = acc * 10 + ((d - 48) as u128);
        proof {
            assert(s@.take(i as int + 1).drop_last() =~= s@.take(i as int));
            assert(s@.take(i as int + 1).last() == s@[i as int]);
        }
        if acc > u64::MAX as u128 {
            proof {
                if spec_all_digit_chars(s@) {
                    lemma_dec_value_prefix_le(s@, i as int + 1);
                }
            }
            return None;
        }
        i = i + 1;
    }
    proof {
        assert(s@.take(n as int) =~= s@);
    }
    Some(acc as u64)
}

} // verus!
