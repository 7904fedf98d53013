//! Numbers written as text, and comparisons of text.

use vstd::arithmetic::power::pow;
use vstd::prelude::*;
use vstd::string::*;

verus! {

/// The digit that `c` stands for, where it is one in the given radix (at most 16).
pub open spec fn digit_value(c: char, radix: nat) -> Option<nat> {
    let value: int = if '0' <= c <= '9' {
        c as int - '0' as int
    } else if 'a' <= c <= 'f' {
        c as int - 'a' as int + 10
    } else if 'A' <= c <= 'F' {
        c as int - 'A' as int + 10
    } else {
        16
    };
    if value < radix {
        Some(value as nat)
    } else {
        None
    }
}

/// The number that a run of digits stands for: `None` where a character is no digit.
pub open spec fn digits_value(digits: Seq<char>, radix: nat) -> Option<nat>
    decreases digits.len(),
{
    if digits.len() == 0 {
        Some(0)
    } else {
        match (digits_value(digits.drop_last(), radix), digit_value(digits.last(), radix)) {
            (Some(high), Some(low)) => Some(high * radix + low),
            _ => None,
        }
    }
}

/// The digits of a number without its sign: at least one digit has to follow the sign.
pub open spec fn magnitude(digits: Seq<char>, radix: nat, limit: nat) -> Option<nat> {
    match digits_value(digits, radix) {
        Some(value) if digits.len() > 0 && value <= limit => Some(value),
        _ => None,
    }
}

/// The number from 0 to `limit` that `text` stands for: an optional `+`, then digits alone.
pub open spec fn unsigned_value(text: Seq<char>, radix: nat, limit: nat) -> Option<nat> {
    if text.len() > 0 && text[0] == '+' {
        magnitude(text.skip(1), radix, limit)
    } else {
        magnitude(text, radix, limit)
    }
}

/// The number from `-(limit + 1)` to `limit` that `text` stands for: an optional `+` or `-`,
/// then digits alone.
pub open spec fn signed_value(text: Seq<char>, radix: nat, limit: nat) -> Option<int> {
    if text.len() > 0 && text[0] == '-' {
        match magnitude(text.skip(1), radix, limit + 1) {
            Some(value) => Some(-(value as int)),
            None => None,
        }
    } else {
        match unsigned_value(text, radix, limit) {
            Some(value) => Some(value as int),
            None => None,
        }
    }
}

/// The digit for a value below 16, letters in upper case.
pub open spec fn digit_char(value: nat) -> char {
    if value < 10 {
        ('0' as int + value) as char
    } else {
        ('A' as int + value - 10) as char
    }
}

/// A number written in the given radix (2 to 16), without leading zeros.
pub open spec fn number_text(value: nat, radix: nat) -> Seq<char>
    decreases value,
{
    if value < radix || radix < 2 {
        seq![digit_char(value)]
    } else {
        proof {
            assert(value / radix < value) by (nonlinear_arith)
                requires
                    2 <= radix <= value,
            ;
        }
        number_text(value / radix, radix).push(digit_char(value % radix))
    }
}

/// Reading a written number gives the number back, and nothing but digits was written.
pub proof fn law_number_text_reads_back(value: nat, radix: nat)
    requires
        2 <= radix <= 16,
    ensures
        digits_value(number_text(value, radix), radix) == Some(value),
        number_text(value, radix).len() > 0,
        forall|i: int|
            0 <= i < number_text(value, radix).len() ==> (#[trigger] digit_value(
                number_text(value, radix)[i],
                radix,
            )) is Some,
    decreases value,
{
    let text = number_text(value, radix);
    if value < radix {
        assert(text.drop_last() == Seq::<char>::empty());
        assert(digits_value(text.drop_last(), radix) == Some(0nat));
        assert(text.last() == digit_char(value));
        assert(digit_value(digit_char(value), radix) == Some(value));
        assert(0 * radix == 0) by (nonlinear_arith);
    } else {
        let high = value / radix;
        let low = value % radix;
        assert(high < value && high * radix + low == value) by (nonlinear_arith)
            requires
                high == value / radix,
                low == value % radix,
                2 <= radix <= value,
        ;
        law_number_text_reads_back(high, radix);
        assert(text.drop_last() == number_text(high, radix));
        assert(digit_value(digit_char(low), radix) == Some(low));
        assert forall|i: int| 0 <= i < text.len() implies (#[trigger] digit_value(
            text[i],
            radix,
        )) is Some by {
            if i < text.len() - 1 {
                assert(text[i] == number_text(high, radix)[i]);
            }
        }
    }
}

/// The value of the digits from position `from` on, where there is one of at most `limit`.
fn read_digits(text: &str, from: usize, limit: u64) -> (r: Option<u64>)
    requires
        from <= text@.len(),
        limit <= u32::MAX,
    ensures
        match magnitude(text@.skip(from as int), 10, limit as nat) {
            Some(value) => r == Some(value as u64),
            None => r is None,
        },
{
    let len = text.unicode_len();
    let ghost digits = text@.skip(from as int);
    let mut value: u64 = 0;
    let mut over: bool = false;
    let mut i: usize = from;
    while i < len
        invariant
            from <= i <= len,
            len == text@.len(),
            digits == text@.skip(from as int),
            limit <= u32::MAX,
            over ==> (digits_value(digits.take(i - from), 10) matches Some(v) && v > limit),
            !over ==> digits_value(digits.take(i - from), 10) == Some(value as nat),
            !over ==> value <= limit,
        decreases len - i,
    {
        let c: char = text.get_char(i);
        proof {
            let next = digits.take(i + 1 - from);
            assert(next.drop_last() == digits.take(i - from));
            assert(next.last() == c);
        }
        if !('0' <= c && c <= '9') {
            proof {
                lemma_digit_needed(digits, i - from, 10);
            }
            return None;
        }
        if !over {
            value = value * 10 + (c as u64 - '0' as u64);
            if value > limit {
                over = true;
            }
        }
        i = i + 1;
    }
    assert(digits.take(len - from) == digits);
    if over || len == from {
        None
    } else {
        Some(value)
    }
}

/// A text with a character that is no digit has no value.
proof fn lemma_digit_needed(digits: Seq<char>, i: int, radix: nat)
    requires
        0 <= i < digits.len(),
        digit_value(digits[i], radix) is None,
    ensures
        digits_value(digits, radix) is None,
    decreases digits.len(),
{
    if i < digits.len() - 1 {
        lemma_digit_needed(digits.drop_last(), i, radix);
    }
}

/// Reads a `u16` written in decimal.
pub fn parse_u16(text: &str) -> (r: Option<u16>)
    ensures
        match unsigned_value(text@, 10, u16::MAX as nat) {
            Some(value) => r == Some(value as u16),
            None => r is None,
        },
{
    match parse_unsigned(text, u16::MAX as u64) {
        Some(value) => Some(value as u16),
        None => None,
    }
}

/// Reads a `u32` written in decimal.
pub fn parse_u32(text: &str) -> (r: Option<u32>)
    ensures
        match unsigned_value(text@, 10, u32::MAX as nat) {
            Some(value) => r == Some(value as u32),
            None => r is None,
        },
{
    match parse_unsigned(text, u32::MAX as u64) {
        Some(value) => Some(value as u32),
        None => None,
    }
}

/// Reads an `i32` written in decimal.
pub fn parse_i32(text: &str) -> (r: Option<i32>)
    ensures
        match signed_value(text@, 10, i32::MAX as nat) {
            Some(value) => r == Some(value as i32),
            None => r is None,
        },
{
    if text.unicode_len() > 0 && text.get_char(0) == '-' {
        match read_digits(text, 1, 0x8000_0000) {
            Some(value) => Some((-(value as i64)) as i32),
            None => None,
        }
    } else {
        match parse_unsigned(text, i32::MAX as u64) {
            Some(value) => Some(value as i32),
            None => None,
        }
    }
}

fn parse_unsigned(text: &str, limit: u64) -> (r: Option<u64>)
    requires
        limit <= u32::MAX,
    ensures
        match unsigned_value(text@, 10, limit as nat) {
            Some(value) => r == Some(value as u64),
            None => r is None,
        },
{
    if text.unicode_len() > 0 && text.get_char(0) == '+' {
        read_digits(text, 1, limit)
    } else {
        assert(text@.skip(0) == text@);
        read_digits(text, 0, limit)
    }
}

/// Whether `text` is a boolean as it is written, and which one.
pub open spec fn bool_value(text: Seq<char>) -> Option<bool> {
    if text == "true"@ {
        Some(true)
    } else if text == "false"@ {
        Some(false)
    } else {
        None
    }
}

/// Reads a boolean: `true` and `false` are the only texts accepted.
pub fn parse_bool(text: &str) -> (r: Option<bool>)
    ensures
        r == bool_value(text@),
{
    if same_text(text, "true") {
        Some(true)
    } else if same_text(text, "false") {
        Some(false)
    } else {
        None
    }
}

/// Whether two texts hold the same characters.
pub fn same_text(a: &str, b: &str) -> (r: bool)
    ensures
        r == (a@ == b@),
{
    a.to_owned() == b.to_owned()
}

/// The lower-case form of an ASCII letter; every other character as it is.
pub open spec fn ascii_lower(c: char) -> char {
    if 'A' <= c <= 'Z' {
        (c as int - 'A' as int + 'a' as int) as char
    } else {
        c
    }
}

/// Whether two texts agree character by character, ASCII letters taken without their case.
pub open spec fn same_but_for_case(a: Seq<char>, b: Seq<char>) -> bool {
    &&& a.len() == b.len()
    &&& forall|i: int| 0 <= i < a.len() ==> ascii_lower(#[trigger] a[i]) == ascii_lower(b[i])
}

fn lower(c: char) -> (r: char)
    ensures
        r == ascii_lower(c),
{
    if 'A' <= c && c <= 'Z' {
        ((c as u8) - 65u8 + 97u8) as char
    } else {
        c
    }
}

/// Whether two texts agree, ASCII letters taken without their case.
pub fn same_text_but_for_case(a: &str, b: &str) -> (r: bool)
    ensures
        r == same_but_for_case(a@, b@),
{
    let len = a.unicode_len();
    if len != b.unicode_len() {
        return false;
    }
    let mut i: usize = 0;
    while i < len
        invariant
            i <= len,
            len == a@.len(),
            len == b@.len(),
            forall|j: int| 0 <= j < i ==> ascii_lower(#[trigger] a@[j]) == ascii_lower(b@[j]),
        decreases len - i,
    {
        if lower(a.get_char(i)) != lower(b.get_char(i)) {
            assert(ascii_lower(a@[i as int]) != ascii_lower(b@[i as int]));
            return false;
        }
        i = i + 1;
    }
    true
}

/// The text of one decimal digit.
fn decimal_digit(value: u32) -> (r: &'static str)
    requires
        value < 10,
    ensures
        r@ == seq![digit_char(value as nat)],
{
    proof {
        reveal_strlit("0");
        reveal_strlit("1");
        reveal_strlit("2");
        reveal_strlit("3");
        reveal_strlit("4");
        reveal_strlit("5");
        reveal_strlit("6");
        reveal_strlit("7");
        reveal_strlit("8");
        reveal_strlit("9");
    }
    match value {
        0 => "0",
        1 => "1",
        2 => "2",
        3 => "3",
        4 => "4",
        5 => "5",
        6 => "6",
        7 => "7",
        8 => "8",
        _ => "9",
    }
}

/// Writes a number in decimal.
pub fn decimal_text(value: u32) -> (r: String)
    ensures
        r@ == number_text(value as nat, 10),
    decreases value,
{
    if value < 10 {
        decimal_digit(value).to_owned()
    } else {
        let mut text = decimal_text(value / 10);
        text.append(decimal_digit(value % 10));
        text
    }
}

/// A `u32` that was written in decimal is read as the number that it was.
pub proof fn law_decimal_text_parses(value: u32)
    ensures
        unsigned_value(number_text(value as nat, 10), 10, u32::MAX as nat) == Some(value as nat),
{
    law_number_text_reads_back(value as nat, 10);
    let text = number_text(value as nat, 10);
    assert(digit_value(text[0], 10) is Some);
}

/// The decimal digits are the characters from `0` to `9`, and count up from zero.
pub proof fn law_decimal_digits(c: char)
    ensures
        digit_value(c, 10) is Some <==> '0' <= c && c <= '9',
        digit_value(c, 10) matches Some(value) ==> value == c as int - '0' as int,
{
}

/// In every radix up to 16 a digit is below the radix, each value below the radix has a digit,
/// and the only other digits are the same letters in lower case.
pub proof fn law_digits(c: char, value: nat, radix: nat)
    requires
        2 <= radix <= 16,
        value < radix,
    ensures
        digit_value(digit_char(value), radix) == Some(value),
        value < 10 ==> digit_char(value) as int == '0' as int + value,
        value >= 10 ==> digit_char(value) as int == 'A' as int + value - 10,
        digit_value(c, radix) matches Some(d) ==> d < radix && (c == digit_char(d) || (d >= 10
            && c as int == digit_char(d) as int - 'A' as int + 'a' as int)),
{
}

/// A digit counts by its place: of two runs of digits, one after the other, the first counts as
/// many times the radix as the second has digits. A character that is no digit has no value.
pub proof fn law_digits_count_by_place(first: Seq<char>, second: Seq<char>, radix: nat)
    ensures
        digits_value(first + second, radix) == match (
            digits_value(first, radix),
            digits_value(second, radix),
        ) {
            (Some(a), Some(b)) => Some((a * pow(radix as int, second.len()) + b) as nat),
            _ => None,
        },
        digits_value(first, radix) is Some ==> digits_value(first, radix)->0 * pow(
            radix as int,
            second.len(),
        ) >= 0,
    decreases second.len(),
{
    if second.len() == 0 {
        assert(first + second == first);
        reveal(pow);
    } else {
        let init = second.drop_last();
        law_digits_count_by_place(first, init, radix);
        assert((first + second).drop_last() == first + init);
        assert((first + second).last() == second.last());
        let n = init.len();
        let r = radix as int;
        assert(pow(r, second.len()) == r * pow(r, n)) by {
            reveal(pow);
        }
        if digits_value(first, radix) is Some {
            let a = digits_value(first, radix)->0 as int;
            let p = pow(r, n);
            assert(a * (r * p) == (a * p) * r && a * (r * p) >= 0) by (nonlinear_arith)
                requires
                    a * p >= 0,
                    r >= 0,
            ;
            if digits_value(init, radix) is Some {
                let b = digits_value(init, radix)->0 as int;
                assert((a * p + b) * r == (a * p) * r + b * r) by (nonlinear_arith);
            }
        }
    }
}

/// The texts that stand for a number: at least one digit, and before it a `+` or nothing; the
/// number is that of the digits, and at most the limit.
pub proof fn law_unsigned_value(text: Seq<char>, radix: nat, limit: nat, value: nat)
    requires
        radix <= 16,
    ensures
        unsigned_value(text, radix, limit) == Some(value) <==> value <= limit && exists|
            digits: Seq<char>,
        |
            {
                &&& digits.len() > 0
                &&& #[trigger] digits_value(digits, radix) == Some(value)
                &&& text == digits || text == seq!['+'] + digits
            },
{
    if text.len() > 0 && text[0] == '+' {
        assert(text == seq!['+'] + text.skip(1));
        assert(digit_value(text[0], radix) is None);
        lemma_digit_needed(text, 0, radix);
    }
    if exists|digits: Seq<char>|
        digits.len() > 0 && #[trigger] digits_value(digits, radix) == Some(value) && (text
            == digits || text == seq!['+'] + digits) {
        let digits = choose|digits: Seq<char>|
            digits.len() > 0 && #[trigger] digits_value(digits, radix) == Some(value) && (text
                == digits || text == seq!['+'] + digits);
        if text == seq!['+'] + digits {
            assert(text[0] == '+');
            assert(text.skip(1) == digits);
        }
    }
}

/// The texts that stand for a number with a sign: those without a `-` stand for the number from
/// zero to the limit that they stand for without a sign, and a `-` before digits turns their
/// number around, down to one below the limit turned around.
pub proof fn law_signed_value(text: Seq<char>, digits: Seq<char>, radix: nat, limit: nat)
    requires
        radix <= 16,
    ensures
        !(text.len() > 0 && text[0] == '-') ==> match unsigned_value(text, radix, limit) {
            Some(value) => signed_value(text, radix, limit) == Some(value as int),
            None => signed_value(text, radix, limit) is None,
        },
        match digits_value(digits, radix) {
            Some(value) if digits.len() > 0 && value <= limit + 1 => signed_value(
                seq!['-'] + digits,
                radix,
                limit,
            ) == Some(-(value as int)),
            _ => signed_value(seq!['-'] + digits, radix, limit) is None,
        },
{
    assert((seq!['-'] + digits).skip(1) == digits);
}

/// A number that was written is read as it was, with or without a `+` before it, if it is within
/// the limit, and is refused if it is not; with a `-` before it, it is read turned around.
pub proof fn law_written_number_is_read(value: nat, limit: nat)
    ensures
        unsigned_value(number_text(value, 10), 10, limit) == if value <= limit {
            Some(value)
        } else {
            None
        },
        unsigned_value(seq!['+'] + number_text(value, 10), 10, limit) == if value <= limit {
            Some(value)
        } else {
            None
        },
        signed_value(number_text(value, 10), 10, limit) == if value <= limit {
            Some(value as int)
        } else {
            None
        },
        signed_value(seq!['-'] + number_text(value, 10), 10, limit) == if value <= limit + 1 {
            Some(-(value as int))
        } else {
            None
        },
{
    let text = number_text(value, 10);
    law_number_text_reads_back(value, 10);
    assert(digit_value(text[0], 10) is Some);
    assert((seq!['+'] + text).skip(1) == text);
    assert((seq!['-'] + text).skip(1) == text);
}

/// A written number has no zero in front, unless it is zero.
pub proof fn law_no_leading_zero(value: nat, radix: nat)
    requires
        2 <= radix <= 16,
    ensures
        number_text(value, radix).len() > 0,
        number_text(value, radix)[0] == '0' ==> value == 0 && number_text(value, radix).len() == 1,
        forall|i: int|
            0 <= i < number_text(value, radix).len() ==> {
                let c = #[trigger] number_text(value, radix)[i];
                ('0' <= c && c <= '9') || ('A' <= c && c <= 'F')
            },
    decreases value,
{
    if value >= radix {
        assert(0 < value / radix < value) by (nonlinear_arith)
            requires
                2 <= radix <= value,
        ;
        law_no_leading_zero(value / radix, radix);
        let high = number_text(value / radix, radix);
        let text = number_text(value, radix);
        assert(text[0] == high[0]);
        assert(value % radix < 16) by (nonlinear_arith)
            requires
                2 <= radix <= 16,
        ;
        assert forall|i: int| 0 <= i < text.len() implies {
            let c = #[trigger] text[i];
            ('0' <= c && c <= '9') || ('A' <= c && c <= 'F')
        } by {
            if i < high.len() {
                assert(text[i] == high[i]);
            } else {
                assert(text[i] == digit_char(value % radix));
            }
        }
    }
}

/// The two texts of booleans, and no other, are read.
pub proof fn law_bool_value(text: Seq<char>, value: bool)
    ensures
        bool_value(text) == Some(value) <==> text == if value {
            "true"@
        } else {
            "false"@
        },
{
    reveal_strlit("true");
    reveal_strlit("false");
    assert("true"@.len() != "false"@.len());
}

/// Texts that agree but for case are as long as each other, and at each place hold the same
/// character, or a letter from `A` to `Z` and its counterpart from `a` to `z`.
pub proof fn law_same_but_for_case(a: Seq<char>, b: Seq<char>)
    ensures
        same_but_for_case(a, b) <==> a.len() == b.len() && forall|i: int|
            0 <= i < a.len() ==> {
                ||| #[trigger] a[i] == b[i]
                ||| 'A' <= a[i] && a[i] <= 'Z' && b[i] as int == a[i] as int + 32
                ||| 'A' <= b[i] && b[i] <= 'Z' && a[i] as int == b[i] as int + 32
            },
        same_but_for_case(a, a),
        same_but_for_case(a, b) ==> same_but_for_case(b, a),
{
    if same_but_for_case(a, b) {
        assert forall|i: int| 0 <= i < a.len() implies {
            ||| #[trigger] a[i] == b[i]
            ||| 'A' <= a[i] && a[i] <= 'Z' && b[i] as int == a[i] as int + 32
            ||| 'A' <= b[i] && b[i] <= 'Z' && a[i] as int == b[i] as int + 32
        } by {
            assert(ascii_lower(a[i]) == ascii_lower(b[i]));
        }
        assert forall|i: int| 0 <= i < b.len() implies ascii_lower(#[trigger] b[i]) == ascii_lower(
            a[i],
        ) by {
            assert(ascii_lower(a[i]) == ascii_lower(b[i]));
        }
    }
}

} // verus!
