//! Decimal numbers as text.

use crate::text::char_vec;
use vstd::prelude::*;

verus! {

/// Why a text is not a decimal integer of the wanted type.
#[derive(Clone, Copy, Debug, PartialEq, Eq, Structural)]
pub enum IntErrorKind {
    Empty,
    InvalidDigit,
    PosOverflow,
    NegOverflow,
}

impl IntErrorKind {
    /// The text that describes the error.
    pub open spec fn description(self) -> Seq<char> {
        match self {
            IntErrorKind::Empty => "cannot parse integer from empty string"@,
            IntErrorKind::InvalidDigit => "invalid digit found in string"@,
            IntErrorKind::PosOverflow => "number too large to fit in target type"@,
            IntErrorKind::NegOverflow => "number too small to fit in target type"@,
        }
    }

    /// Describes the error.
    pub fn message(&self) -> (text: String)
        ensures
            text@ == self.description(),
    {
        match self {
            IntErrorKind::Empty => "cannot parse integer from empty string".to_owned(),
            IntErrorKind::InvalidDigit => "invalid digit found in string".to_owned(),
            IntErrorKind::PosOverflow => "number too large to fit in target type".to_owned(),
            IntErrorKind::NegOverflow => "number too small to fit in target type".to_owned(),
        }
    }
}

/// Whether `c` is one of `0` to `9`.
pub open spec fn is_digit(c: char) -> bool {
    '0' <= c <= '9'
}

/// The value of a digit.
pub open spec fn digit_value(c: char) -> int {
    c as int - '0' as int
}

/// The digit of a value below ten.
pub open spec fn digit_of(value: int) -> char {
    ('0' as int + value) as char
}

/// The decimal digits of a number, without leading zeros.
pub open spec fn digits(n: nat) -> Seq<char>
    decreases n,
{
    if n < 10 {
        seq![digit_of(n as int)]
    } else {
        digits(n / 10).push(digit_of((n % 10) as int))
    }
}

/// The decimal form of an integer.
pub open spec fn decimal(n: int) -> Seq<char> {
    if n < 0 {
        seq!['-'] + digits((-n) as nat)
    } else {
        digits(n as nat)
    }
}

/// Reads the digits from the left. The first character that is no digit, or
/// that takes the value above `limit`, decides the error.
pub open spec fn read_digits(text: Seq<char>, limit: int, overflow: IntErrorKind) -> Result<
    int,
    IntErrorKind,
>
    decreases text.len(),
{
    if text.len() == 0 {
        Ok(0)
    } else {
        match read_digits(text.drop_last(), limit, overflow) {
            Err(error) => Err(error),
            Ok(value) => if !is_digit(text.last()) {
                Err(IntErrorKind::InvalidDigit)
            } else if value * 10 + digit_value(text.last()) > limit {
                Err(overflow)
            } else {
                Ok(value * 10 + digit_value(text.last()))
            },
        }
    }
}

/// The integer that a text denotes in a type that goes from `min` to `max`: an
/// optional sign (a minus only where the type has negative values), then one or
/// more digits.
pub open spec fn parse_int(text: Seq<char>, min: int, max: int) -> Result<int, IntErrorKind> {
    if text.len() == 0 {
        Err(IntErrorKind::Empty)
    } else if text.len() == 1 && (text[0] == '+' || text[0] == '-') {
        Err(IntErrorKind::InvalidDigit)
    } else if text[0] == '+' {
        read_digits(text.skip(1), max, IntErrorKind::PosOverflow)
    } else if text[0] == '-' && min < 0 {
        match read_digits(text.skip(1), -min, IntErrorKind::NegOverflow) {
            Ok(value) => Ok(-value),
            Err(error) => Err(error),
        }
    } else {
        read_digits(text, max, IntErrorKind::PosOverflow)
    }
}

proof fn lemma_read_digits_range(text: Seq<char>, limit: int, overflow: IntErrorKind)
    requires
        limit >= 0,
    ensures
        read_digits(text, limit, overflow) matches Ok(value) ==> 0 <= value <= limit,
    decreases text.len(),
{
    if text.len() > 0 {
        lemma_read_digits_range(text.drop_last(), limit, overflow);
    }
}

/// A number that was read stays within the bounds.
pub proof fn lemma_parse_int_range(text: Seq<char>, min: int, max: int)
    requires
        min <= 0 <= max,
    ensures
        parse_int(text, min, max) matches Ok(value) ==> min <= value <= max,
{
    if text.len() > 0 {
        lemma_read_digits_range(text, max, IntErrorKind::PosOverflow);
        lemma_read_digits_range(text.skip(1), max, IntErrorKind::PosOverflow);
        lemma_read_digits_range(text.skip(1), -min, IntErrorKind::NegOverflow);
    }
}

proof fn lemma_digits(n: nat, limit: int, overflow: IntErrorKind)
    requires
        n <= limit,
    ensures
        digits(n).len() >= 1,
        is_digit(digits(n)[0]),
        read_digits(digits(n), limit, overflow) == Ok::<int, IntErrorKind>(n as int),
    decreases n,
{
    if n < 10 {
        let one = digits(n);
        assert(one.drop_last() =~= Seq::empty());
        assert(one.last() == digit_of(n as int));
        reveal_with_fuel(read_digits, 2);
    } else {
        let front = (n / 10) as nat;
        lemma_digits(front, limit, overflow);
        assert(digits(n).drop_last() =~= digits(front));
        assert(digits(n).last() == digit_of((n % 10) as int));
        assert((n / 10) * 10 + n % 10 == n);
    }
}

/// Reading the decimal form of an integer gives the integer back, in every
/// type that holds it.
pub proof fn parse_inverts_decimal(n: int, min: int, max: int)
    requires
        min <= n <= max,
        min <= 0 <= max,
    ensures
        parse_int(decimal(n), min, max) == Ok::<int, IntErrorKind>(n),
{
    if n < 0 {
        lemma_digits((-n) as nat, -min, IntErrorKind::NegOverflow);
        assert(decimal(n).skip(1) =~= digits((-n) as nat));
    } else {
        lemma_digits(n as nat, max, IntErrorKind::PosOverflow);
    }
}

/// The decimal form of a natural number.
pub fn format_u64(n: u64) -> (text: String)
    ensures
        text@ == digits(n as nat),
    decreases n,
{
    if n < 10 {
        let mut text = String::new();
        text.push((48u8 + n as u8) as char);
        assert(text@ =~= digits(n as nat));
        text
    } else {
        let mut text = format_u64(n / 10);
        text.push((48u8 + (n % 10) as u8) as char);
        text
    }
}

/// The decimal form of a signed number.
pub fn format_i64(n: i64) -> (text: String)
    ensures
        text@ == decimal(n as int),
{
    if n < 0 {
        let magnitude: u64 = (-(n as i128)) as u64;
        let mut text = String::new();
        text.push('-');
        text.append(&format_u64(magnitude));
        assert(text@ =~= decimal(n as int));
        text
    } else {
        format_u64(n as u64)
    }
}

fn read_digits_from(
    chars: &Vec<char>,
    from: usize,
    limit: i128,
    overflow: IntErrorKind,
) -> (result: Result<i128, IntErrorKind>)
    requires
        from <= chars@.len(),
        0 <= limit <= 0xffff_ffff_ffff_ffff,
    ensures
        match result {
            Ok(value) => read_digits(chars@.skip(from as int), limit as int, overflow) == Ok::<
                int,
                IntErrorKind,
            >(value as int),
            Err(error) => read_digits(chars@.skip(from as int), limit as int, overflow) == Err::<
                int,
                IntErrorKind,
            >(error),
        },
{
    let ghost text = chars@.skip(from as int);
    let mut value: i128 = 0;
    let mut i: usize = from;
    let mut failed: Option<IntErrorKind> = None;
    while i < chars.len()
        invariant
            from <= i <= chars@.len(),
            text == chars@.skip(from as int),
            0 <= value <= limit <= 0xffff_ffff_ffff_ffff,
            match failed {
                None => read_digits(text.take(i - from), limit as int, overflow) == Ok::<
                    int,
                    IntErrorKind,
                >(value as int),
                Some(error) => read_digits(text.take(i - from), limit as int, overflow) == Err::<
                    int,
                    IntErrorKind,
                >(error),
            },
        decreases chars@.len() - i,
    {
        let c = chars[i];
        assert(text.take(i + 1 - from).drop_last() =~= text.take(i - from));
        assert(text.take(i + 1 - from).last() == c);
        if failed.is_none() {
            if c < '0' || c > '9' {
                failed = Some(IntErrorKind::InvalidDigit);
            } else {
                let next: i128 = value * 10 + (c as u8 - 48u8) as i128;
                if next > limit {
                    failed = Some(overflow);
                } else {
                    value = next;
                }
            }
        }
        i += 1;
    }
    assert(text.take(i - from) =~= text);
    match failed {
        Some(error) => Err(error),
        None => Ok(value),
    }
}

fn parse_bounded(text: &str, min: i128, max: i128) -> (result: Result<i128, IntErrorKind>)
    requires
        -0x8000_0000_0000_0000 <= min <= 0 <= max <= 0xffff_ffff_ffff_ffff,
    ensures
        match result {
            Ok(value) => parse_int(text@, min as int, max as int) == Ok::<int, IntErrorKind>(
                value as int,
            ) && min <= value <= max,
            Err(error) => parse_int(text@, min as int, max as int) == Err::<int, IntErrorKind>(
                error,
            ),
        },
{
    proof {
        lemma_parse_int_range(text@, min as int, max as int);
    }
    let chars = char_vec(text);
    if chars.len() == 0 {
        return Err(IntErrorKind::Empty);
    }
    let first = chars[0];
    if chars.len() == 1 && (first == '+' || first == '-') {
        return Err(IntErrorKind::InvalidDigit);
    }
    if first == '+' {
        read_digits_from(&chars, 1, max, IntErrorKind::PosOverflow)
    } else if first == '-' && min < 0 {
        match read_digits_from(&chars, 1, -min, IntErrorKind::NegOverflow) {
            Ok(value) => {
                proof {
                    lemma_read_digits_range(text@.skip(1), -min as int, IntErrorKind::NegOverflow);
                }
                Ok(-value)
            },
            Err(error) => Err(error),
        }
    } else {
        assert(chars@.skip(0) =~= chars@);
        read_digits_from(&chars, 0, max, IntErrorKind::PosOverflow)
    }
}

/// Reads an `i32`.
pub fn parse_i32(text: &str) -> (result: Result<i32, IntErrorKind>)
    ensures
        match result {
            Ok(value) => parse_int(text@, i32::MIN as int, i32::MAX as int) == Ok::<
                int,
                IntErrorKind,
            >(value as int),
            Err(error) => parse_int(text@, i32::MIN as int, i32::MAX as int) == Err::<
                int,
                IntErrorKind,
            >(error),
        },
{
    match parse_bounded(text, -0x8000_0000, 0x7fff_ffff) {
        Ok(value) => Ok(value as i32),
        Err(error) => Err(error),
    }
}

/// Reads an `i64`.
pub fn parse_i64(text: &str) -> (result: Result<i64, IntErrorKind>)
    ensures
        match result {
            Ok(value) => parse_int(text@, i64::MIN as int, i64::MAX as int) == Ok::<
                int,
                IntErrorKind,
            >(value as int),
            Err(error) => parse_int(text@, i64::MIN as int, i64::MAX as int) == Err::<
                int,
                IntErrorKind,
            >(error),
        },
{
    match parse_bounded(text, -0x8000_0000_0000_0000, 0x7fff_ffff_ffff_ffff) {
        Ok(value) => Ok(value as i64),
        Err(error) => Err(error),
    }
}

/// Reads a `u16`.
pub fn parse_u16(text: &str) -> (result: Result<u16, IntErrorKind>)
    ensures
        match result {
            Ok(value) => parse_int(text@, 0, u16::MAX as int) == Ok::<int, IntErrorKind>(
                value as int,
            ),
            Err(error) => parse_int(text@, 0, u16::MAX as int) == Err::<int, IntErrorKind>(error),
        },
{
    match parse_bounded(text, 0, 0xffff) {
        Ok(value) => Ok(value as u16),
        Err(error) => Err(error),
    }
}

/// Reads a `u64`.
pub fn parse_u64(text: &str) -> (result: Result<u64, IntErrorKind>)
    ensures
        match result {
            Ok(value) => parse_int(text@, 0, u64::MAX as int) == Ok::<int, IntErrorKind>(
                value as int,
            ),
            Err(error) => parse_int(text@, 0, u64::MAX as int) == Err::<int, IntErrorKind>(error),
        },
{
    match parse_bounded(text, 0, 0xffff_ffff_ffff_ffff) {
        Ok(value) => Ok(value as u64),
        Err(error) => Err(error),
    }
}

proof fn lemma_read_digits_only(text: Seq<char>, limit: int, overflow: IntErrorKind)
    ensures
        read_digits(text, limit, overflow) is Ok ==> forall|i: int|
            0 <= i < text.len() ==> '0' <= #[trigger] text[i] <= '9',
    decreases text.len(),
{
    if text.len() > 0 {
        lemma_read_digits_only(text.drop_last(), limit, overflow);
        if read_digits(text, limit, overflow) is Ok {
            assert forall|i: int| 0 <= i < text.len() implies '0' <= #[trigger] text[i] <= '9' by {
                if i < text.len() - 1 {
                    assert(text.drop_last()[i] == text[i]);
                }
            }
        }
    }
}

/// Only a number is read as one: digits, after at most one sign, and a minus
/// only where negative numbers are allowed.
pub proof fn only_digits_are_read(text: Seq<char>, min: int, max: int)
    requires
        parse_int(text, min, max) is Ok,
    ensures
        text.len() > 0,
        forall|i: int| 1 <= i < text.len() ==> '0' <= #[trigger] text[i] <= '9',
        '0' <= text[0] <= '9' || (text.len() > 1 && (text[0] == '+' || (text[0] == '-' && min
            < 0))),
{
    lemma_read_digits_only(text.skip(1), max, IntErrorKind::PosOverflow);
    lemma_read_digits_only(text.skip(1), -min, IntErrorKind::NegOverflow);
    lemma_read_digits_only(text, max, IntErrorKind::PosOverflow);
    assert forall|i: int| 1 <= i < text.len() implies '0' <= #[trigger] text[i] <= '9' by {
        assert(text.skip(1)[i - 1] == text[i]);
    }
}

/// One digit more makes ten times the number, and the digit.
pub proof fn digit_makes_ten_times_the_number(text: Seq<char>, digit: int, max: int)
    requires
        text.len() > 0,
        '0' <= text[0] <= '9',
        0 <= digit <= 9,
        parse_int(text, 0, max) is Ok,
        parse_int(text, 0, max)->Ok_0 * 10 + digit <= max,
    ensures
        parse_int(text.push(('0' as int + digit) as char), 0, max) == Ok::<int, IntErrorKind>(
            parse_int(text, 0, max)->Ok_0 * 10 + digit,
        ),
{
    let longer = text.push(('0' as int + digit) as char);
    assert(longer.drop_last() =~= text);
}

/// A number is written in digits, after a minus where it is negative.
pub proof fn numbers_are_written_in_digits(n: int)
    ensures
        decimal(n).len() > 0,
        n >= 0 ==> '0' <= decimal(n)[0] <= '9',
        n < 0 ==> decimal(n)[0] == '-' && decimal(n).len() > 1,
        forall|i: int| 1 <= i < decimal(n).len() ==> '0' <= #[trigger] decimal(n)[i] <= '9',
{
    if n < 0 {
        lemma_digits_written((-n) as nat);
    } else {
        lemma_digits_written(n as nat);
    }
}

proof fn lemma_digits_written(n: nat)
    ensures
        digits(n).len() > 0,
        forall|i: int| 0 <= i < digits(n).len() ==> '0' <= #[trigger] digits(n)[i] <= '9',
    decreases n,
{
    if n >= 10 {
        lemma_digits_written(n / 10);
        let front = digits(n / 10);
        assert forall|i: int| 0 <= i < digits(n).len() implies '0' <= #[trigger] digits(n)[i]
            <= '9' by {
            if i < front.len() {
                assert(digits(n)[i] == front[i]);
            }
        }
    }
}

proof fn lemma_read_digits_refuses(text: Seq<char>, limit: int, overflow: IntErrorKind)
    requires
        limit >= 0,
        forall|i: int| 0 <= i < text.len() ==> '0' <= #[trigger] text[i] <= '9',
    ensures
        read_digits(text, limit, overflow) is Err ==> read_digits(text, limit, overflow)
            == Err::<int, IntErrorKind>(overflow),
    decreases text.len(),
{
    if text.len() > 0 {
        lemma_read_digits_refuses(text.drop_last(), limit, overflow);
    }
}

/// A text is refused for what is wrong with it: that it is empty, that it is too
/// large or too small where all of it is digits, and else that a character is no
/// digit.
pub proof fn refused_numbers_say_why(text: Seq<char>, min: int, max: int)
    requires
        min <= 0 <= max,
    ensures
        text.len() == 0 <==> parse_int(text, min, max) == Err::<int, IntErrorKind>(
            IntErrorKind::Empty,
        ),
        text.len() > 0 && (forall|i: int| 0 <= i < text.len() ==> '0' <= #[trigger] text[i] <= '9')
            && parse_int(text, min, max) is Err ==> parse_int(text, min, max) == Err::<
            int,
            IntErrorKind,
        >(IntErrorKind::PosOverflow),
        text.len() > 1 && text[0] == '-' && min < 0 && (forall|i: int|
            1 <= i < text.len() ==> '0' <= #[trigger] text[i] <= '9') && parse_int(text, min, max)
            is Err ==> parse_int(text, min, max) == Err::<int, IntErrorKind>(
            IntErrorKind::NegOverflow,
        ),
        text.len() > 0 && !('0' <= text[0] <= '9') && text[0] != '+' && text[0] != '-' ==> parse_int(
            text,
            min,
            max,
        ) == Err::<int, IntErrorKind>(IntErrorKind::InvalidDigit),
        text.len() > 0 && text[0] == '-' && min == 0 ==> parse_int(text, min, max) == Err::<
            int,
            IntErrorKind,
        >(IntErrorKind::InvalidDigit),
{
    lemma_read_digits_kinds(text, max, IntErrorKind::PosOverflow);
    lemma_read_digits_kinds(text.skip(1), max, IntErrorKind::PosOverflow);
    lemma_read_digits_kinds(text.skip(1), -min, IntErrorKind::NegOverflow);
    if forall|i: int| 0 <= i < text.len() ==> '0' <= #[trigger] text[i] <= '9' {
        lemma_read_digits_refuses(text, max, IntErrorKind::PosOverflow);
    }
    if text.len() > 1 && forall|i: int| 1 <= i < text.len() ==> '0' <= #[trigger] text[i] <= '9' {
        assert forall|i: int| 0 <= i < text.skip(1).len() implies '0' <= #[trigger] text.skip(1)[i]
            <= '9' by {
            assert(text.skip(1)[i] == text[i + 1]);
        }
        lemma_read_digits_refuses(text.skip(1), -min, IntErrorKind::NegOverflow);
    }
}

proof fn lemma_read_digits_kinds(text: Seq<char>, limit: int, overflow: IntErrorKind)
    requires
        limit >= 0,
    ensures
        read_digits(text, limit, overflow) matches Err(error) ==> error == IntErrorKind::InvalidDigit
            || error == overflow,
        text.len() > 0 && !('0' <= text[0] <= '9') ==> read_digits(text, limit, overflow) == Err::<
            int,
            IntErrorKind,
        >(IntErrorKind::InvalidDigit),
    decreases text.len(),
{
    if text.len() > 0 {
        lemma_read_digits_kinds(text.drop_last(), limit, overflow);
    }
}

/// Every refusal says in words what is wrong.
pub proof fn number_errors_say_what_is_wrong()
    ensures
        IntErrorKind::Empty.description() == "cannot parse integer from empty string"@,
        IntErrorKind::InvalidDigit.description() == "invalid digit found in string"@,
        IntErrorKind::PosOverflow.description() == "number too large to fit in target type"@,
        IntErrorKind::NegOverflow.description() == "number too small to fit in target type"@,
{
}

} // verus!
