//! Characters and numbers as text.
use vstd::prelude::*;
use vstd::string::StringExecFns;

verus! {

/// `String::push` appends one character.
pub assume_specification[ String::push ](text: &mut String, c: char)
    ensures
        final(text)@ == old(text)@.push(c),
;

/// The characters of a text.
pub fn chars_of(text: &str) -> (chars: Vec<char>)
    ensures
        chars@ == text@,
{
    let mut chars: Vec<char> = Vec::new();
    for c in iter: text.chars()
        invariant
            iter.seq() == text@,
            chars@ == text@.take(iter.index()),
    {
        chars.push(c);
        assert(chars@ =~= text@.take(iter.index() + 1));
    }
    assert(chars@ =~= text@);
    chars
}

/// The text that the characters spell.
pub fn text_of(chars: &Vec<char>) -> (text: String)
    ensures
        text@ == chars@,
{
    let mut text = String::new();
    let mut i: usize = 0;
    while i < chars.len()
        invariant
            i <= chars.len(),
            text@ == chars@.take(i as int),
        decreases chars.len() - i,
    {
        text.push(chars[i]);
        i = i + 1;
        assert(chars@.take(i as int) =~= chars@.take(i - 1).push(chars@[i - 1]));
    }
    assert(chars@.take(i as int) =~= chars@);
    text
}

/// The text of a literal, as an owned text.
pub fn owned(text: &str) -> (copy: String)
    ensures
        copy@ == text@,
{
    String::from_str(text)
}

/// Whether two texts are the same.
pub fn same_text(a: &str, b: &str) -> (same: bool)
    ensures
        same == (a@ == b@),
{
    let left = chars_of(a);
    let right = chars_of(b);
    same_chars(&left, &right)
}

pub fn same_chars(left: &Vec<char>, right: &Vec<char>) -> (same: bool)
    ensures
        same == (left@ == right@),
{
    if left.len() != right.len() {
        return false;
    }
    let mut i: usize = 0;
    while i < left.len()
        invariant
            i <= left.len(),
            left.len() == right.len(),
            forall|j: int| 0 <= j < i ==> left[j] == right[j],
        decreases left.len() - i,
    {
        if left[i] != right[i] {
            return false;
        }
        i = i + 1;
    }
    assert(left@ =~= right@);
    true
}

/// A part of a list of characters.
pub fn part(chars: &Vec<char>, from: usize, to: usize) -> (found: Vec<char>)
    requires
        from <= to <= chars.len(),
    ensures
        found@ == chars@.subrange(from as int, to as int),
{
    let mut found: Vec<char> = Vec::new();
    let mut i: usize = from;
    while i < to
        invariant
            from <= i <= to <= chars.len(),
            found@ == chars@.subrange(from as int, i as int),
        decreases to - i,
    {
        found.push(chars[i]);
        i = i + 1;
        assert(chars@.subrange(from as int, i as int) =~= chars@.subrange(
            from as int,
            i - 1,
        ).push(chars@[i - 1]));
    }
    found
}

/// The characters that Unicode calls white space.
pub open spec fn white_space(c: char) -> bool {
    let u = c as u32;
    ||| 0x9 <= u <= 0xd
    ||| u == 0x20
    ||| u == 0x85
    ||| u == 0xa0
    ||| u == 0x1680
    ||| 0x2000 <= u <= 0x200a
    ||| u == 0x2028
    ||| u == 0x2029
    ||| u == 0x202f
    ||| u == 0x205f
    ||| u == 0x3000
}

fn is_white_space(c: char) -> (is: bool)
    ensures
        is == white_space(c),
{
    let u: u32 = c as u32;
    (u >= 0x9 && u <= 0xd) || u == 0x20 || u == 0x85 || u == 0xa0 || u == 0x1680 || (u >= 0x2000
        && u <= 0x200a) || u == 0x2028 || u == 0x2029 || u == 0x202f || u == 0x205f || u == 0x3000
}

/// Without white space in front.
pub open spec fn trimmed_start(text: Seq<char>) -> Seq<char>
    decreases text.len(),
{
    if text.len() > 0 && white_space(text[0]) {
        trimmed_start(text.skip(1))
    } else {
        text
    }
}

/// Without white space at the end.
pub open spec fn trimmed_end(text: Seq<char>) -> Seq<char>
    decreases text.len(),
{
    if text.len() > 0 && white_space(text.last()) {
        trimmed_end(text.drop_last())
    } else {
        text
    }
}

/// Without white space at either end.
pub open spec fn trimmed(text: Seq<char>) -> Seq<char> {
    trimmed_end(trimmed_start(text))
}

/// Removes the white space at both ends.
pub fn trim(chars: &Vec<char>) -> (rest: Vec<char>)
    ensures
        rest@ == trimmed(chars@),
{
    let mut from: usize = 0;
    assert(chars@.skip(0) =~= chars@);
    while from < chars.len() && is_white_space(chars[from])
        invariant
            from <= chars.len(),
            trimmed_start(chars@.skip(from as int)) == trimmed_start(chars@),
        decreases chars.len() - from,
    {
        assert(chars@.skip(from as int).skip(1) =~= chars@.skip(from + 1));
        from = from + 1;
    }
    let mut to: usize = chars.len();
    let ghost started = chars@.skip(from as int);
    assert(trimmed_start(chars@) == started);
    assert(chars@.subrange(from as int, to as int) =~= started);
    while to > from && is_white_space(chars[to - 1])
        invariant
            from <= to <= chars.len(),
            trimmed_end(chars@.subrange(from as int, to as int)) == trimmed_end(started),
        decreases to - from,
    {
        assert(chars@.subrange(from as int, to as int).drop_last() =~= chars@.subrange(
            from as int,
            to - 1,
        ));
        to = to - 1;
    }
    part(chars, from, to)
}

/// The small letter of a capital letter of the Latin alphabet; any other character itself.
pub open spec fn ascii_lower(c: char) -> char {
    if 'A' <= c && c <= 'Z' {
        (c as u32 + 32) as char
    } else {
        c
    }
}

fn lower_char(c: char) -> (lower: char)
    ensures
        lower == ascii_lower(c),
{
    if 'A' <= c && c <= 'Z' {
        ((c as u8) + 32) as char
    } else {
        c
    }
}

pub open spec fn lowered(text: Seq<char>) -> Seq<char> {
    text.map_values(|c: char| ascii_lower(c))
}

/// The text in small letters.
pub fn lower(chars: &Vec<char>) -> (low: Vec<char>)
    ensures
        low@ == lowered(chars@),
{
    let mut low: Vec<char> = Vec::new();
    let mut i: usize = 0;
    while i < chars.len()
        invariant
            i <= chars.len(),
            low.len() == i,
            forall|j: int| 0 <= j < i ==> low[j] == ascii_lower(chars[j]),
        decreases chars.len() - i,
    {
        low.push(lower_char(chars[i]));
        i = i + 1;
    }
    assert(low@ =~= lowered(chars@));
    low
}

/// Whether the text begins with `prefix`.
pub open spec fn begins_with(text: Seq<char>, prefix: Seq<char>) -> bool {
    prefix.len() <= text.len() && text.take(prefix.len() as int) == prefix
}

/// What follows `prefix`, or the whole text where it does not begin with that.
pub open spec fn without_prefix(text: Seq<char>, prefix: Seq<char>) -> Seq<char> {
    if begins_with(text, prefix) {
        text.skip(prefix.len() as int)
    } else {
        text
    }
}

pub fn starts_with(chars: &Vec<char>, prefix: &Vec<char>) -> (does: bool)
    ensures
        does == begins_with(chars@, prefix@),
{
    if prefix.len() > chars.len() {
        return false;
    }
    let front = part(chars, 0, prefix.len());
    assert(front@ =~= chars@.take(prefix.len() as int));
    same_chars(&front, prefix)
}

pub fn strip_prefix(chars: &Vec<char>, prefix: &str) -> (rest: Vec<char>)
    ensures
        rest@ == without_prefix(chars@, prefix@),
{
    let start = chars_of(prefix);
    if starts_with(chars, &start) {
        let rest = part(chars, start.len(), chars.len());
        assert(rest@ =~= chars@.skip(prefix@.len() as int));
        rest
    } else {
        part_all(chars)
    }
}

fn part_all(chars: &Vec<char>) -> (copy: Vec<char>)
    ensures
        copy@ == chars@,
{
    let copy = part(chars, 0, chars.len());
    assert(copy@ =~= chars@);
    copy
}

/// Without `prefix` in front, however often it stands there.
pub open spec fn without_prefixes(text: Seq<char>, prefix: Seq<char>) -> Seq<char>
    decreases text.len(),
{
    if prefix.len() > 0 && begins_with(text, prefix) {
        without_prefixes(text.skip(prefix.len() as int), prefix)
    } else {
        text
    }
}

pub fn strip_prefixes(chars: &Vec<char>, prefix: &str) -> (rest: Vec<char>)
    ensures
        rest@ == without_prefixes(chars@, prefix@),
{
    let start = chars_of(prefix);
    let mut rest = part_all(chars);
    if start.len() == 0 {
        return rest;
    }
    while starts_with(&rest, &start)
        invariant
            start@ == prefix@,
            start.len() > 0,
            without_prefixes(rest@, prefix@) == without_prefixes(chars@, prefix@),
        decreases rest.len(),
    {
        let next = part(&rest, start.len(), rest.len());
        assert(next@ =~= rest@.skip(prefix@.len() as int));
        rest = next;
    }
    rest
}

/// The character of a digit.
pub open spec fn digit_char(digit: int) -> char {
    if digit < 10 {
        ('0' as u32 + digit) as char
    } else {
        ('a' as u32 + digit - 10) as char
    }
}

fn char_of_digit(digit: u8) -> (c: char)
    requires
        digit < 16,
    ensures
        c == digit_char(digit as int),
{
    if digit < 10 {
        (48u8 + digit) as char
    } else {
        (87u8 + digit) as char
    }
}

/// The digits of a number, the most significant one first.
pub open spec fn number_text(n: nat, radix: nat) -> Seq<char>
    decreases n,
{
    if n < radix || radix < 2 {
        seq![digit_char(n as int)]
    } else {
        proof {
            lemma_quotient(n, radix);
        }
        number_text(n / radix, radix).push(digit_char((n % radix) as int))
    }
}

/// Dividing by the radix makes a number smaller and loses nothing with the remainder.
pub proof fn lemma_quotient(n: nat, radix: nat)
    requires
        radix >= 2,
        n > 0,
    ensures
        n / radix < n,
        n % radix < radix,
        (n / radix) * radix + n % radix == n,
{
    vstd::arithmetic::div_mod::lemma_div_decreases(n as int, radix as int);
    vstd::arithmetic::div_mod::lemma_fundamental_div_mod(n as int, radix as int);
    vstd::arithmetic::mul::lemma_mul_is_commutative(radix as int, (n / radix) as int);
}

/// The number in the decimal system.
pub open spec fn decimal(n: nat) -> Seq<char> {
    number_text(n, 10)
}

pub open spec fn signed_decimal(n: int) -> Seq<char> {
    if n < 0 {
        seq!['-'] + decimal((-n) as nat)
    } else {
        decimal(n as nat)
    }
}

fn push_number(text: &mut String, n: u128, radix: u128)
    requires
        2 <= radix <= 16,
    ensures
        final(text)@ == old(text)@ + number_text(n as nat, radix as nat),
    decreases n,
{
    let ghost before = text@;
    if n < radix {
        text.push(char_of_digit(n as u8));
        assert(text@ =~= before + number_text(n as nat, radix as nat));
    } else {
        proof {
            lemma_quotient(n as nat, radix as nat);
        }
        push_number(text, n / radix, radix);
        text.push(char_of_digit((n % radix) as u8));
        assert(text@ =~= before + number_text(n as nat, radix as nat));
    }
}

/// The decimal digits of a number.
pub fn decimal_text(n: u128) -> (text: String)
    ensures
        text@ == decimal(n as nat),
{
    let mut text = String::new();
    push_number(&mut text, n, 10);
    assert(text@ =~= decimal(n as nat));
    text
}

/// The hexadecimal digits of a number, in small letters.
pub fn hex_number_text(n: u128) -> (text: String)
    ensures
        text@ == number_text(n as nat, 16),
{
    let mut text = String::new();
    push_number(&mut text, n, 16);
    assert(text@ =~= number_text(n as nat, 16));
    text
}

/// The decimal digits of a number, after a minus sign where it is negative.
pub fn signed_decimal_text(n: i64) -> (text: String)
    ensures
        text@ == signed_decimal(n as int),
{
    let mut text = String::new();
    if n < 0 {
        text.push('-');
        let magnitude: u128 = (-(n as i128)) as u128;
        push_number(&mut text, magnitude, 10);
        assert(text@ =~= signed_decimal(n as int));
    } else {
        push_number(&mut text, n as u128, 10);
        assert(text@ =~= signed_decimal(n as int));
    }
    text
}

/// Why a text is not a number.
#[derive(Debug, Clone, Copy, PartialEq, Eq, Structural)]
pub enum NumberError {
    Empty,
    InvalidDigit,
    PosOverflow,
}

impl NumberError {
    pub open spec fn spec_message(self) -> Seq<char> {
        match self {
            NumberError::Empty => "cannot parse integer from empty string"@,
            NumberError::InvalidDigit => "invalid digit found in string"@,
            NumberError::PosOverflow => "number too large to fit in target type"@,
        }
    }

    /// What the error says to a reader.
    pub fn message(self) -> (text: &'static str)
        ensures
            text@ == self.spec_message(),
    {
        match self {
            NumberError::Empty => "cannot parse integer from empty string",
            NumberError::InvalidDigit => "invalid digit found in string",
            NumberError::PosOverflow => "number too large to fit in target type",
        }
    }
}

/// The value of a digit, in either case.
pub open spec fn digit_value(c: char, radix: int) -> Option<int> {
    let value = if '0' <= c && c <= '9' {
        c as u32 - '0' as u32
    } else if 'a' <= c && c <= 'z' {
        c as u32 - 'a' as u32 + 10
    } else if 'A' <= c && c <= 'Z' {
        c as u32 - 'A' as u32 + 10
    } else {
        radix
    };
    if value < radix {
        Some(value)
    } else {
        None
    }
}

fn value_of_digit(c: char, radix: u8) -> (value: Option<u8>)
    requires
        radix <= 36,
    ensures
        match value {
            Some(v) => digit_value(c, radix as int) == Some(v as int) && v < radix,
            None => digit_value(c, radix as int) is None,
        },
{
    let value: u8 = if '0' <= c && c <= '9' {
        (c as u8) - 48
    } else if 'a' <= c && c <= 'z' {
        (c as u8) - 97 + 10
    } else if 'A' <= c && c <= 'Z' {
        (c as u8) - 65 + 10
    } else {
        radix
    };
    if value < radix {
        Some(value)
    } else {
        None
    }
}

/// The number that the digits spell, read from the left: the first digit that is none, or
/// that makes the number too large, decides.
pub open spec fn read_digits(digits: Seq<char>, radix: int, max: int) -> Result<int, NumberError>
    decreases digits.len(),
{
    if digits.len() == 0 {
        Ok(0)
    } else {
        match read_digits(digits.drop_last(), radix, max) {
            Err(error) => Err(error),
            Ok(front) => match digit_value(digits.last(), radix) {
                None => Err(NumberError::InvalidDigit),
                Some(digit) => if front * radix + digit > max {
                    Err(NumberError::PosOverflow)
                } else {
                    Ok(front * radix + digit)
                },
            },
        }
    }
}

/// The number that a text spells. A plus sign may stand in front of the digits.
pub open spec fn read_number(text: Seq<char>, radix: int, max: int) -> Result<int, NumberError> {
    if text.len() == 0 {
        Err(NumberError::Empty)
    } else if text == seq!['+'] || text == seq!['-'] {
        Err(NumberError::InvalidDigit)
    } else if text[0] == '+' {
        read_digits(text.skip(1), radix, max)
    } else {
        read_digits(text, radix, max)
    }
}

proof fn lemma_read_digits_fails_early(digits: Seq<char>, count: int, radix: int, max: int)
    requires
        0 <= count <= digits.len(),
        read_digits(digits.take(count), radix, max) is Err,
    ensures
        read_digits(digits, radix, max) == read_digits(digits.take(count), radix, max),
    decreases digits.len() - count,
{
    if count < digits.len() {
        assert(digits.take(count + 1).drop_last() =~= digits.take(count));
        lemma_read_digits_fails_early(digits, count + 1, radix, max);
    } else {
        assert(digits.take(count) =~= digits);
    }
}

fn parse_digits(digits: &Vec<char>, radix: u8, max: u128) -> (number: Result<u128, NumberError>)
    requires
        2 <= radix <= 36,
    ensures
        match number {
            Ok(n) => read_digits(digits@, radix as int, max as int) == Ok::<int, NumberError>(
                n as int,
            ) && n <= max,
            Err(error) => read_digits(digits@, radix as int, max as int) == Err::<int, NumberError>(
                error,
            ),
        },
{
    let mut number: u128 = 0;
    let mut i: usize = 0;
    let base: u128 = radix as u128;
    assert(digits@.take(0) =~= Seq::empty());
    while i < digits.len()
        invariant
            i <= digits.len(),
            base == radix,
            2 <= radix <= 36,
            number <= max,
            read_digits(digits@.take(i as int), radix as int, max as int) == Ok::<int, NumberError>(
                number as int,
            ),
        decreases digits.len() - i,
    {
        let ghost next = digits@.take(i + 1);
        assert(next.drop_last() =~= digits@.take(i as int));
        let digit: u8 = match value_of_digit(digits[i], radix) {
            Some(digit) => digit,
            None => {
                proof {
                    lemma_read_digits_fails_early(digits@, i + 1, radix as int, max as int);
                }
                return Err(NumberError::InvalidDigit);
            },
        };
        let shifted: u128 = match number.checked_mul(base) {
            Some(shifted) => shifted,
            None => {
                proof {
                    lemma_read_digits_fails_early(digits@, i + 1, radix as int, max as int);
                }
                return Err(NumberError::PosOverflow);
            },
        };
        let total: u128 = match shifted.checked_add(digit as u128) {
            Some(total) => total,
            None => {
                proof {
                    lemma_read_digits_fails_early(digits@, i + 1, radix as int, max as int);
                }
                return Err(NumberError::PosOverflow);
            },
        };
        if total > max {
            proof {
                lemma_read_digits_fails_early(digits@, i + 1, radix as int, max as int);
            }
            return Err(NumberError::PosOverflow);
        }
        number = total;
        i = i + 1;
    }
    assert(digits@.take(i as int) =~= digits@);
    Ok(number)
}

/// Reads a number of at most `max` in the given system.
pub fn parse_number(chars: &Vec<char>, radix: u8, max: u128) -> (number: Result<u128, NumberError>)
    requires
        2 <= radix <= 36,
    ensures
        match number {
            Ok(n) => read_number(chars@, radix as int, max as int) == Ok::<int, NumberError>(
                n as int,
            ) && n <= max,
            Err(error) => read_number(chars@, radix as int, max as int) == Err::<int, NumberError>(
                error,
            ),
        },
{
    if chars.len() == 0 {
        return Err(NumberError::Empty);
    }
    if chars.len() == 1 && (chars[0] == '+' || chars[0] == '-') {
        proof {
            if chars@[0] == '+' {
                assert(chars@ =~= seq!['+']);
            } else {
                assert(chars@ =~= seq!['-']);
            }
        }
        return Err(NumberError::InvalidDigit);
    }
    proof {
        assert(chars@ != seq!['+'] && chars@ != seq!['-']) by {
            if chars@ == seq!['+'] || chars@ == seq!['-'] {
                assert(chars@.len() == 1);
            }
        }
    }
    if chars[0] == '+' {
        let digits = part(chars, 1, chars.len());
        assert(digits@ =~= chars@.skip(1));
        parse_digits(&digits, radix, max)
    } else {
        parse_digits(chars, radix, max)
    }
}

proof fn lemma_digit_value(digit: int, radix: int)
    requires
        0 <= digit < radix <= 16,
    ensures
        digit_value(digit_char(digit), radix) == Some(digit),
        digit_char(digit) != '+',
        digit_char(digit) != '-',
{
}

proof fn lemma_read_back(n: nat, radix: nat, max: int)
    requires
        2 <= radix <= 16,
        n <= max,
    ensures
        number_text(n, radix).len() > 0,
        number_text(n, radix)[0] != '+',
        number_text(n, radix)[0] != '-',
        read_digits(number_text(n, radix), radix as int, max) == Ok::<int, NumberError>(n as int),
    decreases n,
{
    let text = number_text(n, radix);
    if n < radix {
        lemma_digit_value(n as int, radix as int);
        assert(text.drop_last() =~= Seq::empty());
        assert(read_digits(text.drop_last(), radix as int, max) == Ok::<int, NumberError>(0));
        assert(0 * (radix as int) == 0) by (nonlinear_arith);
        assert(text.last() == digit_char(n as int));
    } else {
        lemma_quotient(n, radix);
        lemma_read_back(n / radix, radix, max);
        lemma_digit_value((n % radix) as int, radix as int);
        assert(text.drop_last() =~= number_text(n / radix, radix));
        assert(text.last() == digit_char((n % radix) as int));
    }
}

/// Reading back the digits of a number gives the number.
pub proof fn numbers_read_back(n: nat, radix: nat, max: int)
    requires
        2 <= radix <= 16,
        n <= max,
    ensures
        read_number(number_text(n, radix), radix as int, max) == Ok::<int, NumberError>(n as int),
{
    lemma_read_back(n, radix, max);
}

/// A small letter has no other small letter.
pub proof fn lowering_twice_changes_nothing(text: Seq<char>)
    ensures
        lowered(lowered(text)) == lowered(text),
{
    assert(lowered(lowered(text)) =~= lowered(text));
}

/// A copy of a text that may be missing.
pub fn copy_optional_text(text: &Option<String>) -> (copy: Option<String>)
    ensures
        copy == *text,
{
    match text {
        Some(text) => Some(text.clone()),
        None => None,
    }
}

/// Whether a text holds another one.
pub open spec fn holds(text: Seq<char>, inner: Seq<char>) -> bool {
    exists|from: int|
        0 <= from <= text.len() - inner.len() && #[trigger] text.subrange(
            from,
            from + inner.len(),
        ) == inner
}

/// Whether a text holds another one.
pub fn contains(chars: &Vec<char>, inner: &Vec<char>) -> (found: bool)
    ensures
        found == holds(chars@, inner@),
{
    if inner.len() == 0 {
        assert(chars@.subrange(0, 0 + inner@.len() as int) =~= inner@);
        return true;
    }
    if inner.len() > chars.len() {
        return false;
    }
    let mut from: usize = 0;
    while from <= chars.len() - inner.len()
        invariant
            0 < inner.len() <= chars.len(),
            from <= chars.len() - inner.len() + 1,
            forall|f: int|
                0 <= f < from ==> #[trigger] chars@.subrange(f, f + inner@.len()) != inner@,
        decreases chars.len() - from,
    {
        let piece = part(chars, from, from + inner.len());
        if same_chars(&piece, inner) {
            return true;
        }
        from = from + 1;
    }
    false
}

/// A text without white space at its ends stays as it is.
pub proof fn lemma_solid_text(text: Seq<char>)
    requires
        text.len() > 0,
        !white_space(text[0]),
        !white_space(text.last()),
    ensures
        trimmed(text) == text,
{
}

/// The digits of a number to base sixteen are digits and small letters.
pub proof fn lemma_hex_digits(n: nat)
    ensures
        number_text(n, 16).len() > 0,
        forall|i: int|
            0 <= i < number_text(n, 16).len() ==> ('0' <= (#[trigger] number_text(n, 16)[i])
                && number_text(n, 16)[i] <= '9') || ('a' <= number_text(n, 16)[i] && number_text(
                n,
                16,
            )[i] <= 'f'),
    decreases n,
{
    if n >= 16 {
        lemma_quotient(n, 16);
        lemma_hex_digits(n / 16);
    }
}

/// Each digit stands for its number: the ten digits, then the letters, small or capital.
pub proof fn digits_stand_for_numbers(c: char, radix: int)
    requires
        2 <= radix <= 36,
    ensures
        '0' <= c && c <= '9' && c as int - 48 < radix ==> digit_value(c, radix) == Some(
            c as int - 48,
        ),
        'a' <= c && c <= 'z' && c as int - 87 < radix ==> digit_value(c, radix) == Some(
            c as int - 87,
        ),
        'A' <= c && c <= 'Z' && c as int - 55 < radix ==> digit_value(c, radix) == Some(
            c as int - 55,
        ),
        digit_value(c, radix) matches Some(n) ==> 0 <= n < radix,
        !(('0' <= c && c <= '9') || ('a' <= c && c <= 'z') || ('A' <= c && c <= 'Z'))
            ==> digit_value(c, radix) is None,
        digit_value('9', 10) == Some(9int),
        digit_value('a', 10) is None,
        digit_value('f', 16) == Some(15int),
        digit_value('g', 16) is None,
{
}

/// A further digit multiplies what was read by the radix and adds the digit; what is no digit,
/// or makes the number too large, is refused.
pub proof fn numbers_are_read_digit_by_digit(text: Seq<char>, c: char, radix: int, max: int)
    ensures
        read_digits(Seq::empty(), radix, max) == Ok::<int, NumberError>(0),
        ({
            let front = read_digits(text, radix, max);
            let all = read_digits(text.push(c), radix, max);
            &&& front is Err ==> all == front
            &&& front is Ok && digit_value(c, radix) is None ==> all == Err::<int, NumberError>(
                NumberError::InvalidDigit,
            )
            &&& front is Ok && digit_value(c, radix) is Some ==> ({
                let n = front->Ok_0 * radix + digit_value(c, radix)->0;
                &&& n <= max ==> all == Ok::<int, NumberError>(n)
                &&& n > max ==> all == Err::<int, NumberError>(NumberError::PosOverflow)
            })
        }),
        text.len() > 0 && text[0] != '+' && text[0] != '-' ==> read_number(text, radix, max)
            == read_digits(text, radix, max),
        read_number(Seq::empty(), radix, max) == Err::<int, NumberError>(NumberError::Empty),
{
    assert(text.push(c).drop_last() =~= text);
}

/// A number is written with the digits of its quotient by the radix in front of the digit of its
/// remainder, and a number below the radix with its digit alone.
pub proof fn numbers_are_written_digit_by_digit(n: nat, radix: nat, digit: nat)
    requires
        2 <= radix <= 16,
        digit < radix,
    ensures
        number_text(digit, radix).len() == 1,
        digit < 10 ==> number_text(digit, radix)[0] as int == 48 + digit,
        digit >= 10 ==> number_text(digit, radix)[0] as int == 87 + digit,
        n > 0 ==> number_text(n * radix + digit, radix) == number_text(n, radix) + number_text(
            digit,
            radix,
        ),
{
    if n > 0 {
        let all = n * radix + digit;
        assert(all >= radix) by (nonlinear_arith)
            requires
                all == n * radix + digit,
                n >= 1,
                radix >= 2,
                digit >= 0,
        ;
        vstd::arithmetic::div_mod::lemma_fundamental_div_mod_converse(
            all as int,
            radix as int,
            n as int,
            digit as int,
        );
        assert(number_text(n, radix) + number_text(digit, radix) =~= number_text(n, radix).push(
            digit_char(digit as int),
        ));
    }
}

/// Trimming takes white space off both ends and nothing else: what stays is a part of the text
/// that white space neither begins nor ends, and all that goes is white space.
pub proof fn trimming_takes_white_space_off(text: Seq<char>) -> (ends: (int, int))
    ensures
        ({
            let (from, to) = ends;
            &&& 0 <= from <= to <= text.len()
            &&& trimmed(text) == text.subrange(from, to)
            &&& forall|i: int| 0 <= i < from ==> white_space(#[trigger] text[i])
            &&& forall|i: int| to <= i < text.len() ==> white_space(#[trigger] text[i])
            &&& from < to ==> !white_space(text[from]) && !white_space(text[to - 1])
        }),
{
    let from = lemma_trimmed_start(text);
    let rest = text.skip(from);
    let left = lemma_trimmed_end(rest);
    assert(text.subrange(from, from + left) =~= rest.take(left));
    assert forall|i: int| from + left <= i < text.len() implies white_space(
        #[trigger] text[i],
    ) by {
        assert(rest[i - from] == text[i]);
    }
    if left > 0 {
        assert(rest[0] == text[from]);
        assert(rest[left - 1] == text[from + left - 1]);
    }
    (from, from + left)
}

proof fn lemma_trimmed_start(text: Seq<char>) -> (from: int)
    ensures
        0 <= from <= text.len(),
        trimmed_start(text) == text.skip(from),
        forall|i: int| 0 <= i < from ==> white_space(#[trigger] text[i]),
        from < text.len() ==> !white_space(text[from]),
    decreases text.len(),
{
    if text.len() > 0 && white_space(text[0]) {
        let from = lemma_trimmed_start(text.skip(1));
        assert(text.skip(1).skip(from) =~= text.skip(from + 1));
        assert forall|i: int| 0 <= i < from + 1 implies white_space(#[trigger] text[i]) by {
            if i > 0 {
                assert(text.skip(1)[i - 1] == text[i]);
            }
        }
        if from < text.skip(1).len() {
            assert(text.skip(1)[from] == text[from + 1]);
        }
        from + 1
    } else {
        assert(text.skip(0) =~= text);
        0
    }
}

proof fn lemma_trimmed_end(text: Seq<char>) -> (left: int)
    ensures
        0 <= left <= text.len(),
        trimmed_end(text) == text.take(left),
        forall|i: int| left <= i < text.len() ==> white_space(#[trigger] text[i]),
        left > 0 ==> !white_space(text[left - 1]),
    decreases text.len(),
{
    if text.len() > 0 && white_space(text.last()) {
        let left = lemma_trimmed_end(text.drop_last());
        assert(text.drop_last().take(left) =~= text.take(left));
        assert forall|i: int| left <= i < text.len() implies white_space(#[trigger] text[i]) by {
            if i < text.len() - 1 {
                assert(text.drop_last()[i] == text[i]);
            }
        }
        left
    } else {
        assert(text.take(text.len() as int) =~= text);
        text.len() as int
    }
}

/// The space, the tabulator and the ends of lines are white space; letters, digits and the signs
/// of the keyboard are not.
pub proof fn white_space_is_blank(c: char)
    ensures
        white_space(' ') && white_space('\t') && white_space('\n') && white_space('\r'),
        33 <= c as u32 && c as u32 <= 126 ==> !white_space(c),
{
}

/// Capital letters become the small letters thirty-two places on; nothing else changes.
pub proof fn lowering_concerns_capitals(text: Seq<char>, i: int)
    requires
        0 <= i < text.len(),
    ensures
        lowered(text).len() == text.len(),
        'A' <= text[i] && text[i] <= 'Z' ==> lowered(text)[i] as int == text[i] as int + 32,
        !('A' <= text[i] && text[i] <= 'Z') ==> lowered(text)[i] == text[i],
{
}

/// A prefix comes off where it stands, once.
pub proof fn prefixes_come_off(prefix: Seq<char>, rest: Seq<char>)
    ensures
        without_prefix(prefix + rest, prefix) == rest,
        !begins_with(rest, prefix) ==> without_prefix(rest, prefix) == rest,
        begins_with(prefix + rest, prefix),
{
    assert((prefix + rest).take(prefix.len() as int) =~= prefix);
    assert((prefix + rest).skip(prefix.len() as int) =~= rest);
}

/// A sign in front tells a number below zero.
pub proof fn signs_tell_numbers_below_zero(n: nat)
    ensures
        signed_decimal(n as int) == number_text(n, 10),
        n > 0 ==> signed_decimal(-n) == seq!['-'] + number_text(n, 10),
{
}

/// A number that is read is none below zero and none above the bound.
pub proof fn numbers_that_are_read_fit(text: Seq<char>, radix: int, max: int)
    requires
        radix >= 2,
        max >= 0,
    ensures
        read_digits(text, radix, max) is Ok ==> 0 <= read_digits(text, radix, max)->Ok_0 <= max,
        read_number(text, radix, max) is Ok ==> 0 <= read_number(text, radix, max)->Ok_0 <= max,
{
    lemma_digits_fit(text, radix, max);
    lemma_digits_fit(text.skip(1), radix, max);
}

proof fn lemma_digits_fit(text: Seq<char>, radix: int, max: int)
    requires
        radix >= 2,
        max >= 0,
    ensures
        read_digits(text, radix, max) is Ok ==> 0 <= read_digits(text, radix, max)->Ok_0 <= max,
    decreases text.len(),
{
    if text.len() > 0 {
        lemma_digits_fit(text.drop_last(), radix, max);
        let front = read_digits(text.drop_last(), radix, max);
        if front is Ok {
            let n = front->Ok_0;
            assert(n * radix >= 0) by (nonlinear_arith)
                requires
                    n >= 0,
                    radix >= 0,
            ;
        }
    }
}

/// A text holds another exactly where it is made of something before, the other, and something
/// behind.
pub proof fn texts_hold_their_parts(before: Seq<char>, inner: Seq<char>, behind: Seq<char>)
    ensures
        holds(before + inner + behind, inner),
        inner.len() > before.len() ==> !holds(before, inner),
{
    let text = before + inner + behind;
    let from = before.len() as int;
    assert(text.subrange(from, from + inner.len()) =~= inner);
}

/// What a text holds stands somewhere in it.
pub proof fn parts_stand_in_their_text(text: Seq<char>, inner: Seq<char>) -> (split: (
    Seq<char>,
    Seq<char>,
))
    requires
        holds(text, inner),
    ensures
        text == split.0 + inner + split.1,
{
    let from = choose|from: int|
        0 <= from <= text.len() - inner.len() && #[trigger] text.subrange(
            from,
            from + inner.len(),
        ) == inner;
    let split = (text.take(from), text.skip(from + inner.len()));
    assert(text =~= split.0 + text.subrange(from, from + inner.len()) + split.1);
    split
}

} // verus!
