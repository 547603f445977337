//! Text building blocks: decimal and hexadecimal digits with exact meanings,
//! and trimming.

use vstd::prelude::*;
use vstd::string::*;

verus! {

/// `String::push` appends the given character to the end of the string.
pub assume_specification[ String::push ](s: &mut String, c: char)
    ensures
        final(s)@ == old(s)@.push(c),
;

/// Decimal digit of a value below ten.
pub open spec fn decimal_digit(d: nat) -> char {
    if d == 0 { '0' } else if d == 1 { '1' } else if d == 2 { '2' } else if d == 3 { '3' }
    else if d == 4 { '4' } else if d == 5 { '5' } else if d == 6 { '6' } else if d == 7 { '7' }
    else if d == 8 { '8' } else { '9' }
}

/// Decimal text of a number, without leading zeros.
pub open spec fn decimal_text(n: nat) -> Seq<char>
    decreases n,
{
    if n < 10 {
        seq![decimal_digit(n)]
    } else {
        decimal_text(n / 10).push(decimal_digit(n % 10))
    }
}

/// Lower-case hexadecimal digit of a value below sixteen.
pub open spec fn hex_digit(d: nat) -> char {
    if d < 10 { decimal_digit(d) } else if d == 10 { 'a' } else if d == 11 { 'b' }
    else if d == 12 { 'c' } else if d == 13 { 'd' } else if d == 14 { 'e' } else { 'f' }
}

/// Lower-case hexadecimal text of the low `width` digits of a number.
pub open spec fn hex_text(n: nat, width: nat) -> Seq<char>
    decreases width,
{
    if width == 0 {
        Seq::empty()
    } else {
        hex_text(n / 16, (width - 1) as nat).push(hex_digit(n % 16))
    }
}

/// Value of one decimal digit, if the character is one.
pub open spec fn digit_value(c: char) -> Option<nat> {
    if '0' <= c && c <= '9' { Some((c as int - '0' as int) as nat) } else { None }
}

/// Number written by a sequence of decimal digits, if every character is one.
pub open spec fn digits_value(s: Seq<char>) -> Option<nat>
    decreases s.len(),
{
    if s.len() == 0 {
        Some(0)
    } else {
        match (digits_value(s.drop_last()), digit_value(s.last())) {
            (Some(high), Some(low)) => Some(high * 10 + low),
            _ => None,
        }
    }
}

/// Number that a decimal text stands for: one optional plus sign, then at
/// least one digit.
pub open spec fn decimal_value(s: Seq<char>) -> Option<nat> {
    let digits = if s.len() > 0 && s[0] == '+' { s.drop_first() } else { s };
    if digits.len() == 0 { None } else { digits_value(digits) }
}

/// Lower-case hexadecimal text of a byte string, two digits per byte.
pub open spec fn hex_of_bytes(bytes: Seq<u8>) -> Seq<char>
    decreases bytes.len(),
{
    if bytes.len() == 0 {
        Seq::empty()
    } else {
        hex_of_bytes(bytes.drop_last()).push(hex_digit(bytes.last() as nat / 16)).push(
            hex_digit(bytes.last() as nat % 16),
        )
    }
}

/// Value of one hexadecimal digit of either case, given as an ASCII byte.
pub open spec fn nibble_value(raw: u8) -> Option<u8> {
    if 48 <= raw <= 57 {
        Some((raw - 48) as u8)
    } else if 97 <= raw <= 102 {
        Some((raw - 87) as u8)
    } else if 65 <= raw <= 70 {
        Some((raw - 55) as u8)
    } else {
        None
    }
}

/// Byte string written by pairs of hexadecimal digits.
pub open spec fn bytes_of_hex(digits: Seq<u8>) -> Seq<u8> {
    Seq::new(
        digits.len() / 2,
        |i: int|
            (nibble_value(digits[2 * i])->0 * 16 + nibble_value(digits[2 * i + 1])->0) as u8,
    )
}

/// Characters of a text in order.
pub fn chars_of(s: &str) -> (out: Vec<char>)
    ensures
        out@ == s@,
{
    let mut out: Vec<char> = Vec::new();
    let ghost all = s@;
    for c in it: s.chars()
        invariant
            it.seq() == all,
            out@ == all.take(it.index() as int),
    {
        out.push(c);
        proof { assert(all.take(it.index() + 1) =~= all.take(it.index() as int).push(c)); }
    }
    proof { assert(all.take(all.len() as int) =~= all); }
    out
}

/// Text made of the given characters.
pub fn string_of(chars: &[char]) -> (out: String)
    ensures
        out@ == chars@,
{
    let mut out = String::new();
    let mut i: usize = 0;
    while i < chars.len()
        invariant
            i <= chars.len(),
            out@ == chars@.take(i as int),
        decreases chars.len() - i,
    {
        out.push(chars[i]);
        proof { assert(chars@.take(i + 1) =~= chars@.take(i as int).push(chars@[i as int])); }
        i += 1;
    }
    proof { assert(chars@.take(chars@.len() as int) =~= chars@); }
    out
}

/// Exact value of one decimal digit character.
fn decimal_char(d: u64) -> (c: char)
    requires
        d < 10,
    ensures
        c == decimal_digit(d as nat),
{
    match d {
        0 => '0',
        1 => '1',
        2 => '2',
        3 => '3',
        4 => '4',
        5 => '5',
        6 => '6',
        7 => '7',
        8 => '8',
        _ => '9',
    }
}

/// Appends the decimal text of a number.
pub fn push_decimal(out: &mut String, n: u64)
    ensures
        final(out)@ == old(out)@ + decimal_text(n as nat),
    decreases n,
{
    if n >= 10 {
        push_decimal(out, n / 10);
    }
    out.push(decimal_char(n % 10));
    proof {
        if n < 10 {
            assert(out@ =~= old(out)@ + decimal_text(n as nat));
        } else {
            assert(out@ =~= old(out)@ + decimal_text(n as nat));
        }
    }
}

/// Exact lower-case hexadecimal digit of a value below sixteen.
fn hex_char(d: u8) -> (c: char)
    requires
        d < 16,
    ensures
        c == hex_digit(d as nat),
{
    match d {
        0 => '0',
        1 => '1',
        2 => '2',
        3 => '3',
        4 => '4',
        5 => '5',
        6 => '6',
        7 => '7',
        8 => '8',
        9 => '9',
        10 => 'a',
        11 => 'b',
        12 => 'c',
        13 => 'd',
        14 => 'e',
        _ => 'f',
    }
}

/// Appends the lower-case hexadecimal text of a byte string.
pub fn push_hex_bytes(out: &mut String, bytes: &[u8])
    ensures
        final(out)@ == old(out)@ + hex_of_bytes(bytes@),
{
    let ghost start = out@;
    let mut i: usize = 0;
    proof { assert(start + hex_of_bytes(bytes@.take(0)) =~= start); }
    while i < bytes.len()
        invariant
            i <= bytes.len(),
            out@ == start + hex_of_bytes(bytes@.take(i as int)),
        decreases bytes.len() - i,
    {
        let ghost next = bytes@.take(i + 1);
        proof {
            assert(next.drop_last() =~= bytes@.take(i as int));
            assert(next.last() == bytes@[i as int]);
        }
        out.push(hex_char(bytes[i] / 16));
        out.push(hex_char(bytes[i] % 16));
        proof { assert(out@ =~= start + hex_of_bytes(next)); }
        i += 1;
    }
    proof { assert(bytes@.take(bytes@.len() as int) =~= bytes@); }
}

/// Reads one hexadecimal digit of either case.
pub fn hex_nibble(raw: u8) -> (out: Option<u8>)
    ensures
        out == nibble_value(raw),
{
    if 48 <= raw && raw <= 57 {
        Some((raw - 48) as u8)
    } else if 97 <= raw && raw <= 102 {
        Some((raw - 87) as u8)
    } else if 65 <= raw && raw <= 70 {
        Some((raw - 55) as u8)
    } else {
        None
    }
}

/// Hexadecimal text has two digits per byte, all of them ASCII, and reading them
/// gives back the bytes.
pub proof fn law_hex_round_trip(bytes: Seq<u8>)
    ensures
        hex_of_bytes(bytes).len() == 2 * bytes.len(),
        forall|i: int|
            #![trigger hex_of_bytes(bytes)[i]]
            0 <= i < 2 * bytes.len() ==> nibble_value(hex_of_bytes(bytes)[i] as u8) is Some
                && 0 <= (hex_of_bytes(bytes)[i] as int) < 128,
        bytes_of_hex(Seq::new(2 * bytes.len(), |i: int| hex_of_bytes(bytes)[i] as u8)) == bytes,
    decreases bytes.len(),
{
    let text = hex_of_bytes(bytes);
    let raw = Seq::new(2 * bytes.len(), |i: int| text[i] as u8);
    if bytes.len() > 0 {
        let rest = bytes.drop_last();
        law_hex_round_trip(rest);
        let short = hex_of_bytes(rest);
        let raw_short = Seq::new(2 * rest.len(), |i: int| short[i] as u8);
        assert forall|i: int|
            #![trigger text[i]]
            0 <= i < 2 * bytes.len() implies nibble_value(text[i] as u8) is Some && 0
            <= (text[i] as int) < 128 by {
            if i < 2 * rest.len() {
                assert(text[i] == short[i]);
            }
        }
        assert forall|i: int| 0 <= i < bytes.len() implies bytes_of_hex(raw)[i] == bytes[i] by {
            if i < rest.len() {
                assert(bytes_of_hex(raw_short)[i] == rest[i]);
                assert(text[2 * i] == short[2 * i]);
                assert(text[2 * i + 1] == short[2 * i + 1]);
            } else {
                assert(text[2 * i] == hex_digit(bytes.last() as nat / 16));
                assert(text[2 * i + 1] == hex_digit(bytes.last() as nat % 16));
            }
        }
        assert(bytes_of_hex(raw) =~= bytes);
    } else {
        assert(bytes_of_hex(raw) =~= bytes);
    }
}

/// Appends one text to another.
pub fn push_text(out: &mut String, text: &str)
    ensures
        final(out)@ == old(out)@ + text@,
{
    out.append(text);
}

/// Returns whether two texts are the same.
pub fn same_text(a: &str, b: &str) -> (out: bool)
    ensures
        out == (a@ == b@),
{
    let left = chars_of(a);
    let right = chars_of(b);
    if left.len() != right.len() {
        return false;
    }
    let mut i: usize = 0;
    while i < left.len()
        invariant
            i <= left@.len(),
            left@.len() == right@.len(),
            left@ == a@,
            right@ == b@,
            forall|k: int| 0 <= k < i ==> left@[k] == right@[k],
        decreases left@.len() - i,
    {
        if left[i] != right[i] {
            return false;
        }
        i += 1;
    }
    proof { assert(left@ =~= right@); }
    true
}

/// Why a text is no decimal number of 64 bits.
#[derive(Clone, Copy, Debug, PartialEq, Eq, Structural)]
pub enum DecimalError {
    /// The text is empty.
    Empty,
    /// A character is no digit, or the sign stands alone.
    InvalidDigit,
    /// The digits stand for more than 64 bits hold.
    TooLarge,
}

impl DecimalError {
    /// Text of the failure.
    pub open spec fn text(self) -> Seq<char> {
        match self {
            DecimalError::Empty => "cannot parse integer from empty string"@,
            DecimalError::InvalidDigit => "invalid digit found in string"@,
            DecimalError::TooLarge => "number too large to fit in target type"@,
        }
    }

    /// Returns the text of the failure.
    pub fn message(self) -> (out: &'static str)
        ensures
            out@ == self.text(),
    {
        match self {
            DecimalError::Empty => "cannot parse integer from empty string",
            DecimalError::InvalidDigit => "invalid digit found in string",
            DecimalError::TooLarge => "number too large to fit in target type",
        }
    }
}

/// Why some digits are no number of 64 bits: the first failure from the left.
pub open spec fn digits_failure(s: Seq<char>) -> Option<DecimalError>
    decreases s.len(),
{
    if s.len() == 0 {
        None
    } else if digits_failure(s.drop_last()) is Some {
        digits_failure(s.drop_last())
    } else if digit_value(s.last()) is None {
        Some(DecimalError::InvalidDigit)
    } else if digits_value(s)->0 > u64::MAX {
        Some(DecimalError::TooLarge)
    } else {
        None
    }
}

/// Why a text is no decimal number of 64 bits, with one optional plus sign.
pub open spec fn decimal_failure(s: Seq<char>) -> Option<DecimalError> {
    let digits = if s.len() > 0 && s[0] == '+' { s.drop_first() } else { s };
    if s.len() == 0 {
        Some(DecimalError::Empty)
    } else if digits.len() == 0 {
        Some(DecimalError::InvalidDigit)
    } else {
        digits_failure(digits)
    }
}

/// Digits have no failure exactly where they stand for a number of 64 bits.
proof fn lemma_digits_failure(s: Seq<char>)
    ensures
        digits_failure(s) is None <==> (digits_value(s) matches Some(n) && n <= u64::MAX),
    decreases s.len(),
{
    if s.len() > 0 {
        lemma_digits_failure(s.drop_last());
    }
}

/// A failure among the first digits is the failure of all digits.
proof fn lemma_digits_failure_grows(s: Seq<char>, upto: int)
    requires
        0 <= upto <= s.len(),
    ensures
        digits_failure(s.take(upto)) is Some ==> digits_failure(s) == digits_failure(s.take(upto)),
    decreases s.len(),
{
    if upto < s.len() {
        lemma_digits_failure_grows(s.drop_last(), upto);
        assert(s.drop_last().take(upto) =~= s.take(upto));
    } else {
        assert(s.take(upto) =~= s);
    }
}

/// Reads a decimal number that fits 64 bits, or tells why the text is none.
pub fn read_decimal(chars: &[char]) -> (out: Result<u64, DecimalError>)
    ensures
        match out {
            Ok(n) => decimal_failure(chars@) is None && decimal_value(chars@) == Some(n as nat),
            Err(error) => decimal_failure(chars@) == Some(error),
        },
{
    if chars.len() == 0 {
        return Err(DecimalError::Empty);
    }
    let start: usize = if chars[0] == '+' { 1 } else { 0 };
    let ghost digits = chars@.skip(start as int);
    proof {
        if start == 1 {
            assert(digits =~= chars@.drop_first());
        } else {
            assert(digits =~= chars@);
        }
    }
    if start == chars.len() {
        return Err(DecimalError::InvalidDigit);
    }
    let mut value: u64 = 0;
    let mut i: usize = start;
    proof { assert(digits.take(0) =~= Seq::<char>::empty()); }
    while i < chars.len()
        invariant
            start <= i <= chars.len(),
            start < chars.len(),
            digits == chars@.skip(start as int),
            decimal_value(chars@) == digits_value(digits),
            decimal_failure(chars@) == digits_failure(digits),
            digits_value(digits.take(i - start)) == Some(value as nat),
            digits_failure(digits.take(i - start)) is None,
        decreases chars.len() - i,
    {
        let ghost next = digits.take(i - start + 1);
        proof {
            assert(next.drop_last() =~= digits.take(i - start));
            assert(next.last() == chars@[i as int]);
            lemma_digits_failure_grows(digits, i - start + 1);
        }
        let c = chars[i];
        let d: u64 = match c {
            '0' => 0,
            '1' => 1,
            '2' => 2,
            '3' => 3,
            '4' => 4,
            '5' => 5,
            '6' => 6,
            '7' => 7,
            '8' => 8,
            '9' => 9,
            _ => {
                return Err(DecimalError::InvalidDigit);
            },
        };
        proof { assert(digits_value(next) == Some((value * 10 + d) as nat)); }
        if value > (u64::MAX - d) / 10 {
            return Err(DecimalError::TooLarge);
        }
        value = value * 10 + d;
        i += 1;
    }
    proof { assert(digits.take(digits.len() as int) =~= digits); }
    Ok(value)
}

/// Reads a decimal number that fits 64 bits: one optional plus sign, then at
/// least one digit.
pub fn parse_decimal(chars: &[char]) -> (out: Option<u64>)
    ensures
        match decimal_value(chars@) {
            Some(n) => if n <= u64::MAX { out == Some(n as u64) } else { out is None },
            None => out is None,
        },
{
    proof {
        let digits = if chars@.len() > 0 && chars@[0] == '+' { chars@.drop_first() } else { chars@ };
        lemma_digits_failure(digits);
    }
    match read_decimal(chars) {
        Ok(value) => Some(value),
        Err(_) => None,
    }
}

/// Reading a decimal text gives back the number that it was written from.
pub proof fn law_decimal_round_trip(n: nat)
    ensures
        decimal_value(decimal_text(n)) == Some(n),
        decimal_text(n).len() > 0,
        decimal_text(n)[0] != '+',
        digits_value(decimal_text(n)) == Some(n),
    decreases n,
{
    if n >= 10 {
        law_decimal_round_trip(n / 10);
        let s = decimal_text(n);
        assert(s.drop_last() =~= decimal_text(n / 10));
    } else {
        let s = decimal_text(n);
        assert(s.drop_last() =~= Seq::<char>::empty());
        assert(digits_value(s.drop_last()) == Some(0nat));
    }
}

/// Value of one hexadecimal digit of either case, if the character is one.
pub open spec fn hex_digit_value(c: char) -> Option<nat> {
    if '0' <= c && c <= '9' {
        Some((c as int - '0' as int) as nat)
    } else if 'a' <= c && c <= 'f' {
        Some((c as int - 'a' as int + 10) as nat)
    } else if 'A' <= c && c <= 'F' {
        Some((c as int - 'A' as int + 10) as nat)
    } else {
        None
    }
}

/// Number written by a sequence of hexadecimal digits, if every character is one.
pub open spec fn hex_number(s: Seq<char>) -> Option<nat>
    decreases s.len(),
{
    if s.len() == 0 {
        Some(0)
    } else {
        match (hex_number(s.drop_last()), hex_digit_value(s.last())) {
            (Some(high), Some(low)) => Some(high * 16 + low),
            _ => None,
        }
    }
}

/// Sixteen to the given power.
pub open spec fn hex_range(width: nat) -> nat
    decreases width,
{
    if width == 0 { 1 } else { hex_range((width - 1) as nat) * 16 }
}

/// Reading a hexadecimal text gives back the number that it was written from.
pub proof fn law_hex_number_round_trip(n: nat, width: nat)
    requires
        n < hex_range(width),
    ensures
        hex_number(hex_text(n, width)) == Some(n),
        hex_text(n, width).len() == width,
        vstd::utf8::is_ascii_chars(hex_text(n, width)),
    decreases width,
{
    if width > 0 {
        assert(n / 16 < hex_range((width - 1) as nat));
        law_hex_number_round_trip(n / 16, (width - 1) as nat);
        let s = hex_text(n, width);
        assert(s.drop_last() =~= hex_text(n / 16, (width - 1) as nat));
        assert(hex_digit_value(hex_digit(n % 16)) == Some(n % 16));
    }
}

/// Thirty-two hexadecimal digits hold any number of 128 bits.
pub proof fn lemma_hex_width(n: u128)
    ensures
        n < hex_range(32),
{
    reveal_with_fuel(hex_range, 33);
}

/// Ten to the given power.
pub open spec fn decimal_range(width: nat) -> nat
    decreases width,
{
    if width == 0 { 1 } else { decimal_range((width - 1) as nat) * 10 }
}

/// A number below a power of ten has at most that many digits.
pub proof fn lemma_decimal_width(n: nat, width: nat)
    requires
        n < decimal_range(width),
        width > 0,
    ensures
        decimal_text(n).len() <= width,
    decreases width,
{
    if n >= 10 {
        assert(width > 1) by {
            reveal_with_fuel(decimal_range, 2);
        }
        assert(n / 10 < decimal_range((width - 1) as nat));
        lemma_decimal_width(n / 10, (width - 1) as nat);
    }
}

/// A decimal text is made of ASCII characters, and one of a 64-bit number has at most
/// twenty of them.
pub proof fn lemma_decimal_text(n: u64)
    ensures
        decimal_text(n as nat).len() <= 20,
        vstd::utf8::is_ascii_chars(decimal_text(n as nat)),
{
    reveal_with_fuel(decimal_range, 21);
    lemma_decimal_width(n as nat, 20);
    lemma_decimal_ascii(n as nat);
}

/// A decimal text is made of ASCII characters.
pub proof fn lemma_decimal_ascii(n: nat)
    ensures
        vstd::utf8::is_ascii_chars(decimal_text(n)),
    decreases n,
{
    if n >= 10 {
        lemma_decimal_ascii(n / 10);
    }
}

/// Character of the standard base64 alphabet for six bits.
pub open spec fn base64_char(bits: int) -> char {
    if bits < 26 {
        (65 + bits) as char
    } else if bits < 52 {
        (71 + bits) as char
    } else if bits < 62 {
        (bits - 4) as char
    } else if bits == 62 {
        '+'
    } else {
        '/'
    }
}

/// Standard base64 text of some bytes, padded to whole groups of four characters.
pub open spec fn base64_text(bytes: Seq<u8>) -> Seq<char>
    decreases bytes.len(),
{
    if bytes.len() == 0 {
        Seq::empty()
    } else {
        let a = bytes[0] as int;
        let b = if bytes.len() > 1 { bytes[1] as int } else { 0 };
        let c = if bytes.len() > 2 { bytes[2] as int } else { 0 };
        let first = base64_char(a / 4);
        let second = base64_char(a % 4 * 16 + b / 16);
        let third = if bytes.len() > 1 { base64_char(b % 16 * 4 + c / 64) } else { '=' };
        let fourth = if bytes.len() > 2 { base64_char(c % 64) } else { '=' };
        let rest = if bytes.len() > 3 { bytes.skip(3) } else { Seq::empty() };
        seq![first, second, third, fourth] + base64_text(rest)
    }
}

/// Unicode white space.
pub open spec fn is_white(c: char) -> bool {
    let n = c as u32;
    9 <= n <= 13 || n == 32 || n == 0x85 || n == 0xa0 || n == 0x1680 || 0x2000 <= n <= 0x200a || n
        == 0x2028 || n == 0x2029 || n == 0x202f || n == 0x205f || n == 0x3000
}

/// Returns whether a character is Unicode white space.
fn is_white_char(c: char) -> (out: bool)
    ensures
        out == is_white(c),
{
    let n: u32 = c as u32;
    (9 <= n && n <= 13) || n == 32 || n == 0x85 || n == 0xa0 || n == 0x1680 || (0x2000 <= n && n
        <= 0x200a) || n == 0x2028 || n == 0x2029 || n == 0x202f || n == 0x205f || n == 0x3000
}

/// A text without the white space at its end.
pub open spec fn trimmed_end(s: Seq<char>) -> Seq<char>
    decreases s.len(),
{
    if s.len() > 0 && is_white(s.last()) {
        trimmed_end(s.drop_last())
    } else {
        s
    }
}

/// A text without the white space at its start and end.
pub open spec fn trimmed(s: Seq<char>) -> Seq<char>
    decreases s.len(),
{
    if s.len() > 0 && is_white(s[0]) {
        trimmed(s.drop_first())
    } else {
        trimmed_end(s)
    }
}

/// Returns a text without the white space at its start and end.
pub fn trim_text(text: &str) -> (out: String)
    ensures
        out@ == trimmed(text@),
{
    let chars = chars_of(text);
    let mut start: usize = 0;
    proof { assert(chars@.skip(0) =~= chars@); }
    while start < chars.len() && is_white_char(chars[start])
        invariant
            start <= chars@.len(),
            trimmed(chars@.skip(start as int)) == trimmed(chars@),
        decreases chars@.len() - start,
    {
        proof { assert(chars@.skip(start as int).drop_first() =~= chars@.skip(start + 1)); }
        start += 1;
    }
    let ghost rest = chars@.skip(start as int);
    let mut end: usize = chars.len();
    proof {
        assert(chars@.subrange(start as int, end as int) =~= rest);
    }
    while end > start && is_white_char(chars[end - 1])
        invariant
            start <= end <= chars@.len(),
            trimmed_end(chars@.subrange(start as int, end as int)) == trimmed_end(rest),
        decreases end,
    {
        proof {
            assert(chars@.subrange(start as int, end as int).drop_last() =~= chars@.subrange(
                start as int,
                end - 1,
            ));
        }
        end -= 1;
    }
    let kept = vstd::slice::slice_subrange(&chars, start, end);
    string_of(kept)
}

} // verus!
