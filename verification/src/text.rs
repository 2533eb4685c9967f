//! Text: comparing strings, writing and reading numbers, and splitting a
//! string at a separator.

use vstd::prelude::*;
use vstd::string::*;
use vstd::utf8::*;
use crate::bytes::bytes_equal;

verus! {

/// The digits, in the order of their values.
pub open spec fn digit_chars() -> Seq<char> {
    "0123456789abcdef"@
}

/// The digits of `value` in base `radix`, the most significant first.
pub open spec fn number_digits(value: nat, radix: nat) -> Seq<char>
    decreases value,
{
    if radix < 2 || radix > 16 {
        Seq::empty()
    } else if value < radix {
        seq![digit_chars()[value as int]]
    } else {
        proof {
            assert(value / radix < value) by (nonlinear_arith)
                requires
                    value >= radix,
                    radix >= 2,
            ;
        }
        number_digits(value / radix, radix).push(digit_chars()[(value % radix) as int])
    }
}

/// `text`, with zeros in front where it is shorter than `width`.
pub open spec fn zero_padded(text: Seq<char>, width: nat) -> Seq<char> {
    if text.len() >= width {
        text
    } else {
        Seq::new((width - text.len()) as nat, |i: int| '0') + text
    }
}

/// The digits of `value` in base `radix`, with zeros in front where there
/// are fewer than `width`.
pub open spec fn digits(value: nat, radix: nat, width: nat) -> Seq<char> {
    zero_padded(number_digits(value, radix), width)
}

/// Why a string does not spell a number.
#[derive(Debug, Clone, Copy, PartialEq, Eq, Structural)]
pub enum NumberError {
    /// The string is empty.
    Empty,
    /// A character is no digit of the base, or the string is a sign alone.
    InvalidDigit,
    /// The number is larger than the largest that is accepted.
    TooLarge,
}

/// The value of a digit, for bases up to 36: the decimal digits, then the
/// letters of either case.
pub open spec fn digit_value(byte: u8) -> Option<nat> {
    if 0x30 <= byte <= 0x39 {
        Some((byte - 0x30) as nat)
    } else if 0x61 <= byte <= 0x7a {
        Some((byte - 0x61 + 10) as nat)
    } else if 0x41 <= byte <= 0x5a {
        Some((byte - 0x41 + 10) as nat)
    } else {
        None
    }
}

/// Reads the first `n` bytes of `text` as digits, from the left: each digit
/// multiplies what was read by the base and adds its own value. The first
/// byte that is no digit of the base, or that takes the value beyond `max`,
/// ends the reading with an error.
pub open spec fn read_digits(
    text: Seq<u8>,
    radix: nat,
    max: nat,
    n: nat,
) -> Result<nat, NumberError>
    decreases n,
{
    if n == 0 {
        Ok(0)
    } else {
        match read_digits(text, radix, max, (n - 1) as nat) {
            Err(e) => Err(e),
            Ok(value) => match digit_value(text[n - 1]) {
                Some(digit) if digit < radix => if value * radix + digit > max {
                    Err(NumberError::TooLarge)
                } else {
                    Ok(value * radix + digit)
                },
                _ => Err(NumberError::InvalidDigit),
            },
        }
    }
}

/// The number up to `max` that `text` spells in base `radix`: digits, with
/// one plus sign in front of them at most.
pub open spec fn number(text: Seq<u8>, radix: nat, max: nat) -> Result<nat, NumberError> {
    if text.len() == 0 {
        Err(NumberError::Empty)
    } else if text[0] == 0x2b {
        if text.len() == 1 {
            Err(NumberError::InvalidDigit)
        } else {
            read_digits(text.skip(1), radix, max, (text.len() - 1) as nat)
        }
    } else {
        read_digits(text, radix, max, text.len())
    }
}

/// What the error says.
pub open spec fn number_error_message(error: NumberError) -> Seq<char> {
    match error {
        NumberError::Empty => "cannot parse integer from empty string"@,
        NumberError::InvalidDigit => "invalid digit found in string"@,
        NumberError::TooLarge => "number too large to fit in target type"@,
    }
}

/// The segments of `text` between the occurrences of `separator`: one more
/// than there are occurrences, each without the separator.
pub open spec fn split(text: Seq<char>, separator: char) -> Seq<Seq<char>>
    decreases text.len(),
{
    if text.len() == 0 {
        seq![Seq::empty()]
    } else {
        let before = split(text.drop_last(), separator);
        if text.last() == separator {
            before.push(Seq::empty())
        } else {
            before.update(before.len() - 1, before.last().push(text.last()))
        }
    }
}

/// The segments, with the separator between each two of them.
pub open spec fn join(segments: Seq<Seq<char>>, separator: Seq<char>) -> Seq<char>
    decreases segments.len(),
{
    if segments.len() == 0 {
        Seq::empty()
    } else if segments.len() == 1 {
        segments[0]
    } else {
        join(segments.drop_last(), separator) + separator + segments.last()
    }
}

/// `text` without the occurrences of `unwanted`.
pub open spec fn without(text: Seq<char>, unwanted: char) -> Seq<char>
    decreases text.len(),
{
    if text.len() == 0 {
        Seq::empty()
    } else if text.last() == unwanted {
        without(text.drop_last(), unwanted)
    } else {
        without(text.drop_last(), unwanted).push(text.last())
    }
}

/// The views of a list of strings.
pub open spec fn strings_view(strings: Seq<String>) -> Seq<Seq<char>> {
    Seq::new(strings.len(), |i: int| strings[i]@)
}

/// Splitting has an inverse: the segments, joined by the separator, are the
/// text again; there is at least one segment, and none holds the separator.
pub proof fn lemma_split_joins_back(text: Seq<char>, separator: char)
    ensures
        split(text, separator).len() >= 1,
        join(split(text, separator), seq![separator]) == text,
        forall|i: int|
            0 <= i < split(text, separator).len() ==> !(#[trigger] split(
                text,
                separator,
            )[i]).contains(separator),
    decreases text.len(),
{
    if text.len() == 0 {
        assert(join(split(text, separator), seq![separator]) =~= text);
    } else {
        let rest = text.drop_last();
        lemma_split_joins_back(rest, separator);
        let before = split(rest, separator);
        let after = split(text, separator);
        if text.last() == separator {
            assert(after.drop_last() == before);
            assert(join(after, seq![separator]) =~= rest.push(separator));
            assert(rest.push(separator) == text);
        } else {
            let grown = before.last().push(text.last());
            assert(after.last() == grown);
            if before.len() == 1 {
                assert(join(before, seq![separator]) == before[0]);
                assert(join(after, seq![separator]) =~= rest.push(text.last()));
            } else {
                assert(after.drop_last() == before.drop_last());
                assert(join(after, seq![separator]) =~= (join(before.drop_last(), seq![separator])
                    + seq![separator] + before.last()).push(text.last()));
            }
            assert(rest.push(text.last()) == text);
            assert forall|i: int| 0 <= i < after.len() implies !(#[trigger] after[i]).contains(
                separator,
            ) by {
                if i == after.len() - 1 {
                    assert(!before[i].contains(separator));
                    if grown.contains(separator) {
                        let k = choose|k: int| 0 <= k < grown.len() && grown[k] == separator;
                        assert(before[i][k] == separator);
                    }
                } else {
                    assert(after[i] == before[i]);
                }
            }
        }
    }
}

/// A digit reads back as the value it was written for: each of the sixteen
/// digits is a plain character, none is a sign, and its value is its place
/// among the digits.
pub proof fn lemma_digit_reads_back(value: nat)
    requires
        value < 16,
    ensures
        digit_chars().len() == 16,
        '\0' <= digit_chars()[value as int] <= '\u{7f}',
        digit_chars()[value as int] as u8 != 0x2b,
        digit_value(digit_chars()[value as int] as u8) == Some(value),
{
    reveal_strlit("0123456789abcdef");
}

/// A number below 256 is written in base sixteen, two digits wide, as its
/// sixteens and its units.
pub proof fn lemma_two_hex_digits(value: nat)
    requires
        value < 256,
    ensures
        digits(value, 16, 2) == seq![
            digit_chars()[value as int / 16],
            digit_chars()[value as int % 16],
        ],
{
    reveal_strlit("0123456789abcdef");
    if value < 16 {
        assert(number_digits(value, 16) == seq![digit_chars()[value as int]]);
        assert(digits(value, 16, 2) =~= seq![
            digit_chars()[value as int / 16],
            digit_chars()[value as int % 16],
        ]);
    } else {
        assert(number_digits(value / 16, 16) == seq![digit_chars()[value as int / 16]]);
        assert(number_digits(value, 16) =~= seq![
            digit_chars()[value as int / 16],
            digit_chars()[value as int % 16],
        ]);
    }
}

/// Reading inverts writing: the two hexadecimal digits that a number below
/// 256 is written with spell that number.
pub proof fn lemma_two_hex_digits_read_back(value: nat, high: u8, low: u8)
    requires
        value < 256,
        high == digits(value, 16, 2)[0] as u8,
        low == digits(value, 16, 2)[1] as u8,
    ensures
        number(seq![high, low], 16, u8::MAX as nat) == Ok::<nat, NumberError>(value),
{
    lemma_two_hex_digits(value);
    lemma_digit_reads_back(value / 16);
    lemma_digit_reads_back(value % 16);
    let text = seq![high, low];
    assert(read_digits(text, 16, u8::MAX as nat, 0) == Ok::<nat, NumberError>(0));
    assert(read_digits(text, 16, u8::MAX as nat, 1) == Ok::<nat, NumberError>(value / 16));
    assert(read_digits(text, 16, u8::MAX as nat, 2) == Ok::<nat, NumberError>(value));
}

/// Whether two strings hold the same characters.
pub fn str_equal(a: &str, b: &str) -> (r: bool)
    ensures
        r == (a@ == b@),
{
    proof {
        encode_utf8_decode_utf8(a@);
        encode_utf8_decode_utf8(b@);
    }
    bytes_equal(a.as_bytes(), b.as_bytes())
}

/// Appends the digit of value `value` to `out`.
pub fn append_digit(out: &mut String, value: u8)
    requires
        value < 16,
    ensures
        final(out)@ == old(out)@.push(digit_chars()[value as int]),
{
    let all = "0123456789abcdef";
    proof {
        reveal_strlit("0123456789abcdef");
    }
    let digit = all.substring_char(value as usize, value as usize + 1);
    out.append(digit);
    assert(out@ =~= old(out)@.push(digit_chars()[value as int]));
}

/// Appends the digits of `value` in base `radix` to `out`.
fn append_digits(out: &mut String, value: u64, radix: u64)
    requires
        2 <= radix <= 16,
    ensures
        final(out)@ == old(out)@ + number_digits(value as nat, radix as nat),
    decreases value,
{
    if value < radix {
        append_digit(out, value as u8);
        assert(out@ =~= old(out)@ + number_digits(value as nat, radix as nat));
    } else {
        assert(value / radix < value) by (nonlinear_arith)
            requires
                value >= radix,
                radix >= 2,
        ;
        append_digits(out, value / radix, radix);
        append_digit(out, (value % radix) as u8);
        assert(out@ =~= old(out)@ + number_digits(value as nat, radix as nat));
    }
}

/// Appends the digits of `value` in base `radix` to `out`, with zeros in
/// front where there are fewer than `width`.
pub fn append_number(out: &mut String, value: u64, radix: u64, width: usize)
    requires
        2 <= radix <= 16,
    ensures
        final(out)@ == old(out)@ + digits(value as nat, radix as nat, width as nat),
{
    let mut body = String::new();
    append_digits(&mut body, value, radix);
    let count: usize = body.as_str().unicode_len();
    let mut missing: usize = if count < width {
        width - count
    } else {
        0
    };
    let ghost zeros = missing as nat;
    while missing > 0
        invariant
            missing <= zeros,
            out@ == old(out)@ + Seq::new((zeros - missing) as nat, |i: int| '0'),
        decreases missing,
    {
        append_digit(out, 0);
        proof {
            reveal_strlit("0123456789abcdef");
        }
        missing -= 1;
        assert(out@ =~= old(out)@ + Seq::new((zeros - missing) as nat, |i: int| '0'));
    }
    out.append(body.as_str());
    assert(out@ =~= old(out)@ + digits(value as nat, radix as nat, width as nat));
}

/// The value of a digit of base `radix`, if `byte` is one.
fn digit_of(byte: u8, radix: u8) -> (r: Option<u8>)
    requires
        2 <= radix <= 36,
    ensures
        match r {
            Some(digit) => digit_value(byte) == Some(digit as nat) && digit < radix,
            None => !(digit_value(byte) matches Some(digit) && digit < radix),
        },
{
    let value: u8 = if 0x30 <= byte && byte <= 0x39 {
        byte - 0x30
    } else if 0x61 <= byte && byte <= 0x7a {
        byte - 0x61 + 10
    } else if 0x41 <= byte && byte <= 0x5a {
        byte - 0x41 + 10
    } else {
        return None;
    };
    if value < radix {
        Some(value)
    } else {
        None
    }
}

/// Reads the number up to `max` that `text` spells in base `radix`.
pub fn parse_number(text: &[u8], radix: u8, max: u64) -> (r: Result<u64, NumberError>)
    requires
        2 <= radix <= 36,
    ensures
        match number(text@, radix as nat, max as nat) {
            Ok(value) => r == Ok::<u64, NumberError>(value as u64) && value <= max,
            Err(e) => r == Err::<u64, NumberError>(e),
        },
{
    if text.len() == 0 {
        return Err(NumberError::Empty);
    }
    let start: usize = if text[0] == 0x2b {
        if text.len() == 1 {
            return Err(NumberError::InvalidDigit);
        }
        1
    } else {
        0
    };
    let ghost digits_text = text@.skip(start as int);
    assert(text@.skip(0) =~= text@);
    let mut value: u64 = 0;
    let mut i: usize = start;
    while i < text.len()
        invariant
            2 <= radix <= 36,
            start <= i <= text.len(),
            text@.len() > start,
            start == if text@[0] == 0x2b {
                1usize
            } else {
                0usize
            },
            start == 0 ==> digits_text == text@,
            digits_text == text@.skip(start as int),
            value <= max,
            read_digits(digits_text, radix as nat, max as nat, (i - start) as nat) == Ok::<
                nat,
                NumberError,
            >(value as nat),
        decreases text.len() - i,
    {
        assert(digits_text[i - start] == text@[i as int]);
        let ghost reached = read_digits(
            digits_text,
            radix as nat,
            max as nat,
            (i - start + 1) as nat,
        );
        let digit = match digit_of(text[i], radix) {
            Some(digit) => digit,
            None => {
                proof {
                    assert(reached == Err::<nat, NumberError>(NumberError::InvalidDigit));
                    lemma_reading_error_is_kept(
                        digits_text,
                        radix as nat,
                        max as nat,
                        (i - start + 1) as nat,
                        digits_text.len(),
                    );
                }
                return Err(NumberError::InvalidDigit);
            },
        };
        assert(value as u128 * radix as u128 <= 0xffff_ffff_ffff_ffff * 36) by (nonlinear_arith)
            requires
                value <= 0xffff_ffff_ffff_ffff,
                radix <= 36,
        ;
        let wide: u128 = value as u128 * radix as u128 + digit as u128;
        if wide > max as u128 {
            proof {
                assert(reached == Err::<nat, NumberError>(NumberError::TooLarge));
                lemma_reading_error_is_kept(
                    digits_text,
                    radix as nat,
                    max as nat,
                    (i - start + 1) as nat,
                    digits_text.len(),
                );
            }
            return Err(NumberError::TooLarge);
        }
        assert(reached == Ok::<nat, NumberError>(wide as nat));
        value = wide as u64;
        i += 1;
    }
    Ok(value)
}

/// Reads the eight-bit number that `text` spells in base `radix`.
pub fn parse_u8(text: &[u8], radix: u8) -> (r: Result<u8, NumberError>)
    requires
        2 <= radix <= 36,
    ensures
        match number(text@, radix as nat, u8::MAX as nat) {
            Ok(value) => r == Ok::<u8, NumberError>(value as u8) && value <= u8::MAX,
            Err(e) => r == Err::<u8, NumberError>(e),
        },
{
    match parse_number(text, radix, u8::MAX as u64) {
        Ok(value) => Ok(value as u8),
        Err(e) => Err(e),
    }
}

/// The value of a setting: what the environment gives for it, read as a
/// decimal number, or else the default.
pub open spec fn setting(given: Option<Seq<u8>>, default: usize) -> Result<nat, NumberError> {
    match given {
        Some(text) => number(text, 10, usize::MAX as nat),
        None => Ok(default as nat),
    }
}

/// The value of a setting: what the environment gives for it, or else the
/// default. Fails where the environment gives something that is no decimal
/// number, or none that the machine can hold.
pub fn setting_or_default(given: Option<&str>, default: usize) -> (r: Result<usize, NumberError>)
    ensures
        match setting(
            match given {
                Some(text) => Some(text.spec_bytes()),
                None => None,
            },
            default,
        ) {
            Ok(value) => r == Ok::<usize, NumberError>(value as usize) && value <= usize::MAX,
            Err(e) => r == Err::<usize, NumberError>(e),
        },
{
    match given {
        None => Ok(default),
        Some(text) => match parse_number(text.as_bytes(), 10, usize::MAX as u64) {
            Ok(value) => Ok(value as usize),
            Err(e) => Err(e),
        },
    }
}

/// Once a byte has ended the reading, the bytes after it change nothing.
proof fn lemma_reading_error_is_kept(text: Seq<u8>, radix: nat, max: nat, n: nat, m: nat)
    requires
        n <= m,
        read_digits(text, radix, max, n) is Err,
    ensures
        read_digits(text, radix, max, m) == read_digits(text, radix, max, n),
    decreases m - n,
{
    if n < m {
        lemma_reading_error_is_kept(text, radix, max, n, (m - 1) as nat);
    }
}

/// What the error says, as a string.
pub fn number_error_text(error: NumberError) -> (r: &'static str)
    ensures
        r@ == number_error_message(error),
{
    match error {
        NumberError::Empty => "cannot parse integer from empty string",
        NumberError::InvalidDigit => "invalid digit found in string",
        NumberError::TooLarge => "number too large to fit in target type",
    }
}

/// The views of a list with one more string are the views of the list with
/// one more view.
proof fn lemma_strings_view_push(strings: Seq<String>, last: String)
    ensures
        strings_view(strings.push(last)) == strings_view(strings).push(last@),
{
    assert(strings_view(strings.push(last)) =~= strings_view(strings).push(last@));
}

/// Splits `text` at every occurrence of `separator`.
pub fn split_text(text: &str, separator: char) -> (r: Vec<String>)
    ensures
        strings_view(r@) == split(text@, separator),
{
    let len: usize = text.unicode_len();
    let mut done: Vec<String> = Vec::new();
    let mut start: usize = 0;
    let mut i: usize = 0;
    assert(text@.take(0) =~= Seq::<char>::empty());
    assert(strings_view(done@).push(text@.subrange(0, 0)) =~= split(text@.take(0), separator));
    while i < len
        invariant
            len == text@.len(),
            start <= i <= len,
            split(text@.take(i as int), separator) == strings_view(done@).push(
                text@.subrange(start as int, i as int),
            ),
        decreases len - i,
    {
        let ghost before = split(text@.take(i as int), separator);
        let ghost segments = strings_view(done@);
        assert(text@.take(i + 1).drop_last() == text@.take(i as int));
        assert(text@.take(i + 1).last() == text@[i as int]);
        if text.get_char(i) == separator {
            let segment = text.substring_char(start, i).to_owned();
            proof {
                lemma_strings_view_push(done@, segment);
            }
            done.push(segment);
            start = i + 1;
            assert(text@.subrange(start as int, i + 1) =~= Seq::<char>::empty());
            assert(split(text@.take(i + 1), separator) == before.push(Seq::empty()));
        } else {
            assert(before.last() == text@.subrange(start as int, i as int));
            assert(text@.subrange(start as int, i + 1) =~= before.last().push(text@[i as int]));
            assert(before.update(before.len() - 1, text@.subrange(start as int, i + 1))
                =~= segments.push(text@.subrange(start as int, i + 1)));
        }
        i += 1;
    }
    assert(text@.take(i as int) == text@);
    let last = text.substring_char(start, len).to_owned();
    proof {
        lemma_strings_view_push(done@, last);
    }
    done.push(last);
    done
}

/// Appends `text` without the occurrences of `unwanted` to `out`.
pub fn append_without(out: &mut String, text: &str, unwanted: char)
    ensures
        final(out)@ == old(out)@ + without(text@, unwanted),
{
    let len: usize = text.unicode_len();
    let mut i: usize = 0;
    assert(text@.take(0) =~= Seq::<char>::empty());
    assert(out@ =~= old(out)@ + without(text@.take(0), unwanted));
    while i < len
        invariant
            len == text@.len(),
            i <= len,
            out@ == old(out)@ + without(text@.take(i as int), unwanted),
        decreases len - i,
    {
        assert(text@.take(i + 1).drop_last() == text@.take(i as int));
        if text.get_char(i) != unwanted {
            out.append(text.substring_char(i, i + 1));
            assert(out@ =~= old(out)@ + without(text@.take(i + 1), unwanted));
        }
        i += 1;
    }
    assert(text@.take(i as int) == text@);
}

} // verus!
