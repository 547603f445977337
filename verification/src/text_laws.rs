//! What numbers, digits, blanks and byte strings mean as texts.

use vstd::prelude::*;

use crate::bytes::{bytes_less, is_bytes_less, lemma_bytes_less_prefix};
use crate::text::{
    base64_char, base64_text, decimal_text, decimal_value, digits_failure, digits_value,
    hex_of_bytes, hex_text, is_white, law_decimal_round_trip, parse_decimal, push_decimal,
    push_hex_bytes, read_decimal, trim_text, trimmed, trimmed_end, DecimalError,
};

verus! {

/// A decimal text grows by one digit where the number grows tenfold and by that digit; it
/// holds digits alone, and none of them leads without need.
pub proof fn law_decimal_digits(n: nat, d: nat, i: int)
    requires
        d < 10,
    ensures
        n > 0 ==> decimal_text(10 * n + d).len() == decimal_text(n).len() + 1,
        n > 0 ==> decimal_text(10 * n + d).drop_last() == decimal_text(n),
        n > 0 ==> decimal_text(10 * n + d).last() as int == '0' as int + d,
        decimal_text(d).len() == 1,
        decimal_text(d)[0] as int == '0' as int + d,
        n > 0 ==> decimal_text(n)[0] != '0',
        0 <= i < decimal_text(n).len() ==> '0' <= decimal_text(n)[i] <= '9',
    decreases n,
{
    let grown = 10 * n + d;
    assert(grown / 10 == n && grown % 10 == d);
    if n >= 10 {
        law_decimal_digits(n / 10, n % 10, i);
        assert(decimal_text(n).drop_last() =~= decimal_text(n / 10));
        assert(decimal_text(n)[0] == decimal_text(n / 10)[0]) by {
            law_decimal_round_trip(n / 10);
        }
    }
    if n > 0 {
        assert(decimal_text(grown).drop_last() =~= decimal_text(n));
    }
}

/// A number is written at the end of what is there.
pub proof fn law_write_decimal_call(text: &mut String, n: u64, out: ())
    requires
        call_ensures(push_decimal, (text, n), out),
    ensures
        final(text)@.take(old(text)@.len() as int) == old(text)@,
        decimal_value(final(text)@.skip(old(text)@.len() as int)) == Some(n as nat),
{
    law_decimal_round_trip(n as nat);
    assert(final(text)@.take(old(text)@.len() as int) =~= old(text)@);
    assert(final(text)@.skip(old(text)@.len() as int) =~= decimal_text(n as nat));
}

/// A read number grows tenfold and by the next digit; anything but a digit spoils it; a
/// leading plus is passed over; and nothing is read from nothing.
pub proof fn law_decimal_reading(s: Seq<char>, c: char)
    requires
        s.len() > 0,
        s != seq!['+'],
    ensures
        '0' <= c <= '9' && decimal_value(s) is Some ==> decimal_value(s.push(c)) == Some(
            (10 * decimal_value(s)->0 + (c as int - '0' as int)) as nat,
        ),
        !('0' <= c <= '9') ==> decimal_value(s.push(c)) is None,
        decimal_value(s) is None ==> decimal_value(s.push(c)) is None,
        s[0] != '+' ==> decimal_value(seq!['+'] + s) == decimal_value(s),
        decimal_value(Seq::<char>::empty()) is None,
        decimal_value(seq!['+']) is None,
{
    let longer = s.push(c);
    let digits = if s[0] == '+' { s.drop_first() } else { s };
    let more = if longer[0] == '+' { longer.drop_first() } else { longer };
    assert(longer[0] == s[0]);
    if s[0] == '+' {
        assert(s.len() > 1) by {
            if s.len() == 1 {
                assert(s =~= seq!['+']);
            }
        }
    }
    assert(more =~= digits.push(c));
    assert(more.drop_last() =~= digits);
    assert((seq!['+'] + s).drop_first() =~= s);
    assert(seq!['+'].drop_first() =~= Seq::<char>::empty());
}

/// A parsed number is the one that its digits stand for, and it is refused where they stand
/// for none or for one that does not fit.
pub proof fn law_parse_call(chars: &[char], out: Option<u64>)
    requires
        call_ensures(parse_decimal, (chars,), out),
    ensures
        out matches Some(n) ==> decimal_value(chars@) == Some(n as nat),
        out is Some <==> decimal_value(chars@) is Some && decimal_value(chars@)->0
            <= 0xffff_ffff_ffff_ffff,
{
}

/// Trimming at the end takes blanks away and leaves no blank there.
proof fn lemma_trimmed_end(s: Seq<char>)
    ensures
        trimmed_end(s).len() <= s.len(),
        trimmed_end(s) == s.take(trimmed_end(s).len() as int),
        trimmed_end(s).len() > 0 ==> !is_white(trimmed_end(s).last()),
        forall|i: int|
            #![trigger s[i]]
            trimmed_end(s).len() <= i < s.len() ==> is_white(s[i]),
    decreases s.len(),
{
    let out = trimmed_end(s);
    if s.len() > 0 && is_white(s.last()) {
        let rest = s.drop_last();
        lemma_trimmed_end(rest);
        assert(s.take(out.len() as int) =~= rest.take(out.len() as int));
        assert forall|i: int| #![trigger s[i]] out.len() <= i < s.len() implies is_white(s[i]) by {
            if i < rest.len() {
                assert(rest[i] == s[i]);
            }
        }
    } else {
        assert(s.take(s.len() as int) =~= s);
    }
}

/// A trimmed text begins and ends with no blank, and it is the text but for blanks before
/// and after it.
pub proof fn law_trimming(s: Seq<char>) -> (start: int)
    ensures
        0 <= start,
        start + trimmed(s).len() <= s.len(),
        trimmed(s) == s.subrange(start, start + trimmed(s).len()),
        forall|i: int| #![trigger s[i]] 0 <= i < start ==> is_white(s[i]),
        forall|i: int|
            #![trigger s[i]]
            start + trimmed(s).len() <= i < s.len() ==> is_white(s[i]),
        trimmed(s).len() > 0 ==> !is_white(trimmed(s)[0]) && !is_white(trimmed(s).last()),
    decreases s.len(),
{
    if s.len() > 0 && is_white(s[0]) {
        let rest = s.drop_first();
        let start = law_trimming(rest);
        let n = trimmed(s).len() as int;
        assert(s.subrange(start + 1, start + 1 + n) =~= rest.subrange(start, start + n));
        assert forall|i: int| #![trigger s[i]] 0 <= i < start + 1 implies is_white(s[i]) by {
            if i > 0 {
                assert(rest[i - 1] == s[i]);
            }
        }
        assert forall|i: int| #![trigger s[i]] start + 1 + n <= i < s.len() implies is_white(
            s[i],
        ) by {
            assert(rest[i - 1] == s[i]);
        }
        start + 1
    } else {
        lemma_trimmed_end(s);
        assert(s.subrange(0, trimmed_end(s).len() as int) =~= s.take(trimmed_end(s).len() as int));
        0
    }
}

/// Trimming a text gives its trimmed form.
pub proof fn law_trim_call(text: &str, out: String)
    requires
        call_ensures(trim_text, (text,), out),
    ensures
        out@.len() > 0 ==> !is_white(out@[0]) && !is_white(out@.last()),
        exists|start: int|
            #![trigger text@.subrange(start, start + out@.len())]
            0 <= start && start + out@.len() <= text@.len() && out@ == text@.subrange(
                start,
                start + out@.len(),
            ),
{
    let start = law_trimming(text@);
    assert(out@ == text@.subrange(start, start + out@.len()));
}

/// Each byte is two lowercase hexadecimal digits, the larger half first.
pub proof fn law_hex_digits(bytes: Seq<u8>, byte: u8)
    ensures
        hex_of_bytes(bytes.push(byte)).len() == hex_of_bytes(bytes).len() + 2,
        hex_of_bytes(bytes.push(byte)).drop_last().drop_last() == hex_of_bytes(bytes),
        ({
            let text = hex_of_bytes(bytes.push(byte));
            let high = text[text.len() - 2] as int;
            let low = text.last() as int;
            &&& byte / 16 < 10 ==> high == '0' as int + byte / 16
            &&& byte / 16 >= 10 ==> high == 'a' as int + byte / 16 - 10
            &&& byte % 16 < 10 ==> low == '0' as int + byte % 16
            &&& byte % 16 >= 10 ==> low == 'a' as int + byte % 16 - 10
        }),
{
    let longer = bytes.push(byte);
    assert(longer.drop_last() =~= bytes);
    assert(hex_of_bytes(longer).drop_last().drop_last() =~= hex_of_bytes(bytes));
}

/// Bytes are written as hexadecimal digits at the end of what is there.
pub proof fn law_write_hex_call(text: &mut String, bytes: &[u8], out: ())
    requires
        call_ensures(push_hex_bytes, (text, bytes), out),
    ensures
        final(text)@.take(old(text)@.len() as int) == old(text)@,
        final(text)@.len() == old(text)@.len() + 2 * bytes@.len(),
{
    crate::text::law_hex_round_trip(bytes@);
    assert(final(text)@.take(old(text)@.len() as int) =~= old(text)@);
}

/// A hexadecimal number grows by one digit where it grows sixteenfold and by that digit.
pub proof fn law_hex_number_digits(n: nat, d: nat, width: nat)
    requires
        d < 16,
    ensures
        ({
            let text = hex_text(16 * n + d, width + 1);
            &&& text.drop_last() == hex_text(n, width)
            &&& d < 10 ==> text.last() as int == '0' as int + d
            &&& d >= 10 ==> text.last() as int == 'a' as int + d - 10
        }),
{
    let grown = 16 * n + d;
    assert(grown / 16 == n && grown % 16 == d);
    assert(hex_text(grown, width + 1).drop_last() =~= hex_text(n, width));
}

/// Of two byte strings the one stands before the other that has the smaller byte where they
/// first differ, or that ends first.
pub proof fn law_byte_order_call(
    prefix: Seq<u8>,
    x: Seq<u8>,
    y: Seq<u8>,
    a: &[u8],
    b: &[u8],
    out: bool,
)
    requires
        call_ensures(is_bytes_less, (a, b), out),
        a@ == prefix + x,
        b@ == prefix + y,
        x.len() > 0 && y.len() > 0 ==> x[0] != y[0],
    ensures
        x.len() > 0 && y.len() > 0 ==> (out <==> x[0] < y[0]),
        x.len() == 0 ==> (out <==> y.len() > 0),
        x.len() > 0 && y.len() == 0 ==> !out,
{
    lemma_bytes_less_prefix(prefix, x, y);
    assert(bytes_less(a@, b@) == bytes_less(x, y));
}

/// A number is read exactly from a text that has a value which fits; an empty text, a wrong
/// letter and a value that is too large are told apart.
pub proof fn law_read_decimal_call(chars: &[char], out: Result<u64, DecimalError>)
    requires
        call_ensures(read_decimal, (chars,), out),
    ensures
        out is Ok <==> decimal_value(chars@) is Some && decimal_value(chars@)->0
            <= 0xffff_ffff_ffff_ffff,
        out matches Ok(n) ==> decimal_value(chars@) == Some(n as nat),
        chars@.len() == 0 <==> out == Err::<u64, DecimalError>(DecimalError::Empty),
        decimal_value(chars@) matches Some(n) && n > 0xffff_ffff_ffff_ffff ==> out == Err::<
            u64,
            DecimalError,
        >(DecimalError::TooLarge),
        out == Err::<u64, DecimalError>(DecimalError::InvalidDigit) ==> decimal_value(
            chars@,
        ) is None,
{
    let s = chars@;
    let digits = if s.len() > 0 && s[0] == '+' { s.drop_first() } else { s };
    lemma_failed_digits(digits);
}

/// Digits fail exactly where they have no value or too large a one.
proof fn lemma_failed_digits(s: Seq<char>)
    ensures
        digits_failure(s) is None <==> digits_value(s) is Some && digits_value(s)->0 <= u64::MAX,
        digits_failure(s) == Some(DecimalError::InvalidDigit) ==> digits_value(s) is None,
        digits_failure(s) != Some(DecimalError::Empty),
        digits_value(s) is Some && digits_value(s)->0 > u64::MAX ==> digits_failure(s) == Some(
            DecimalError::TooLarge,
        ),
    decreases s.len(),
{
    if s.len() > 0 {
        lemma_failed_digits(s.drop_last());
    }
}

/// Three bytes are written as four letters, six bits in each, the highest first; the letters
/// stand for their numbers in the order of the alphabet.
pub proof fn law_base64_groups(bytes: Seq<u8>, d: (int, int, int, int))
    requires
        bytes.len() >= 3,
        0 <= d.0 < 64,
        0 <= d.1 < 64,
        0 <= d.2 < 64,
        0 <= d.3 < 64,
        262144 * d.0 + 4096 * d.1 + 64 * d.2 + d.3 == 65536 * bytes[0] + 256 * bytes[1] + bytes[2],
    ensures
        base64_text(bytes) == seq![
            base64_char(d.0),
            base64_char(d.1),
            base64_char(d.2),
            base64_char(d.3),
        ] + base64_text(bytes.skip(3)),
        d.0 < 26 ==> base64_char(d.0) as int == 'A' as int + d.0,
        26 <= d.0 < 52 ==> base64_char(d.0) as int == 'a' as int + (d.0 - 26),
        52 <= d.0 < 62 ==> base64_char(d.0) as int == '0' as int + (d.0 - 52),
        base64_char(62) == '+',
        base64_char(63) == '/',
{
    let a = bytes[0] as int;
    let b = bytes[1] as int;
    let c = bytes[2] as int;
    assert(d.0 == a / 4 && d.1 == a % 4 * 16 + b / 16 && d.2 == b % 16 * 4 + c / 64 && d.3 == c
        % 64);
    if bytes.len() == 3 {
        assert(bytes.skip(3) =~= Seq::<u8>::empty());
    }
}

/// One or two bytes at the end are written as the three that they are with zeros behind,
/// but for the letters that hold nothing of them, which are equals signs.
pub proof fn law_base64_ends(bytes: Seq<u8>)
    requires
        1 <= bytes.len() <= 2,
    ensures
        base64_text(bytes).len() == 4,
        bytes.len() == 1 ==> base64_text(bytes) == base64_text(
            seq![bytes[0], 0u8, 0u8],
        ).take(2) + seq!['=', '='],
        bytes.len() == 2 ==> base64_text(bytes) == base64_text(
            seq![bytes[0], bytes[1], 0u8],
        ).take(3) + seq!['='],
        base64_text(Seq::<u8>::empty()).len() == 0,
{
    reveal_with_fuel(base64_text, 2);
    if bytes.len() == 1 {
        assert(base64_text(bytes) =~= base64_text(seq![bytes[0], 0u8, 0u8]).take(2) + seq![
            '=',
            '=',
        ]);
    } else {
        assert(base64_text(bytes) =~= base64_text(seq![bytes[0], bytes[1], 0u8]).take(3) + seq![
            '=',
        ]);
    }
}

} // verus!
