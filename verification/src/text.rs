//! Decimal numerals and the small vocabulary of characters that the rest of
//! the crate reads and writes.

use vstd::prelude::*;
use vstd::string::*;

verus! {

/// The decimal digit that stands for `d`, for `d` below ten.
pub open spec fn digit_char(d: nat) -> char {
    ((48 + d) as u8) as char
}

/// The value of a decimal digit; zero for any other character.
pub open spec fn digit_value(c: char) -> nat {
    if is_digit(c) {
        (c as int - 48) as nat
    } else {
        0
    }
}

/// Whether `c` is one of `'0'` to `'9'`.
pub open spec fn is_digit(c: char) -> bool {
    '0' <= c <= '9'
}

/// The decimal numeral of `n`, without sign or leading zeros.
pub open spec fn decimal(n: nat) -> Seq<char>
    decreases n,
{
    if n < 10 {
        seq![digit_char(n)]
    } else {
        decimal(n / 10).push(digit_char(n % 10))
    }
}

/// The number that a string of decimal digits denotes; the empty string
/// denotes zero.
pub open spec fn decimal_value(s: Seq<char>) -> nat
    decreases s.len(),
{
    if s.len() == 0 {
        0
    } else {
        10 * decimal_value(s.drop_last()) + digit_value(s.last())
    }
}

/// Whether every character of `s` is a decimal digit.
pub open spec fn all_digits(s: Seq<char>) -> bool {
    forall|i: int| 0 <= i < s.len() ==> is_digit(#[trigger] s[i])
}

/// A numeral is made of digits, has at least one, and denotes the number it
/// was made from.
pub proof fn lemma_decimal_round_trip(n: nat)
    ensures
        decimal(n).len() >= 1,
        all_digits(decimal(n)),
        decimal_value(decimal(n)) == n,
        n >= 1 ==> decimal(n)[0] != '0',
    decreases n,
{
    let s = decimal(n);
    if n >= 10 {
        lemma_decimal_round_trip(n / 10);
        assert(s.drop_last() =~= decimal(n / 10));
        assert(s[0] == decimal(n / 10)[0]);
    } else {
        assert(s.drop_last() =~= Seq::<char>::empty());
        assert(decimal_value(s.drop_last()) == 0);
    }
}

/// The characters of `s`, in order.
pub fn chars_of(s: &str) -> (chars: Vec<char>)
    ensures
        chars@ == s@,
{
    let mut chars: Vec<char> = Vec::new();
    for c in it: s.chars()
        invariant
            chars@ == it.seq().take(it.index() as int),
            it.seq() == s@,
    {
        chars.push(c);
    }
    chars
}

/// The one-character text of a decimal digit.
pub fn digit_text(d: u8) -> (text: &'static str)
    requires
        d < 10,
    ensures
        text@ == seq![digit_char(d as nat)],
{
    proof {
        reveal_strlit("0");
        reveal_strlit("1");
        reveal_strlit("2");
        reveal_strlit("3");
        reveal_strlit("4");
        reveal_strlit("5");
        reveal_strlit("6");
        reveal_strlit("7");
        reveal_strlit("8");
        reveal_strlit("9");
    }
    let text = match d {
        0 => "0",
        1 => "1",
        2 => "2",
        3 => "3",
        4 => "4",
        5 => "5",
        6 => "6",
        7 => "7",
        8 => "8",
        _ => "9",
    };
    assert(text@ =~= seq![digit_char(d as nat)]);
    text
}

/// Appends the decimal numeral of `n` to `out`.
pub fn append_decimal(out: &mut String, n: u128)
    ensures
        final(out)@ == old(out)@ + decimal(n as nat),
    decreases n,
{
    if n >= 10 {
        append_decimal(out, n / 10);
    }
    out.append(digit_text((n % 10) as u8));
    assert(final(out)@ =~= old(out)@ + decimal(n as nat));
}

/// Whether `c` is white space: a character with Unicode's `White_Space`
/// property.
pub open spec fn is_whitespace(c: char) -> bool {
    let code = c as u32;
    ||| 0x09 <= code <= 0x0D
    ||| code == 0x20
    ||| code == 0x85
    ||| code == 0xA0
    ||| code == 0x1680
    ||| 0x2000 <= code <= 0x200A
    ||| code == 0x2028
    ||| code == 0x2029
    ||| code == 0x202F
    ||| code == 0x205F
    ||| code == 0x3000
}

/// The test for a line break.
pub open spec fn newline() -> spec_fn(char) -> bool {
    |c: char| c == '\n'
}

/// The test for white space.
pub open spec fn blank() -> spec_fn(char) -> bool {
    |c: char| is_whitespace(c)
}

/// The test for anything but white space.
pub open spec fn solid() -> spec_fn(char) -> bool {
    |c: char| !is_whitespace(c)
}

/// The first place at or after `from` whose character passes `test`, or the
/// length of `s` where none does.
pub open spec fn first_where(s: Seq<char>, from: int, test: spec_fn(char) -> bool) -> int
    decreases s.len() - from,
{
    if from >= s.len() {
        s.len() as int
    } else if test(s[from]) {
        from
    } else {
        first_where(s, from + 1, test)
    }
}

/// The digits of an unsigned numeral: the text itself, without the one plus
/// sign that may stand in front.
pub open spec fn numeral_digits(s: Seq<char>) -> Seq<char> {
    if s.len() > 0 && s[0] == '+' {
        s.skip(1)
    } else {
        s
    }
}

/// The number that `s` denotes, where it is an unsigned decimal numeral: one
/// or more digits, after at most one plus sign. Leading zeros are allowed.
pub open spec fn parse_unsigned(s: Seq<char>) -> Option<nat> {
    let digits = numeral_digits(s);
    if digits.len() > 0 && all_digits(digits) {
        Some(decimal_value(digits))
    } else {
        None
    }
}

/// The number that `s` denotes, where it denotes one that is at most `max`.
pub open spec fn parse_up_to(s: Seq<char>, max: nat) -> Option<nat> {
    match parse_unsigned(s) {
        Some(value) => if value <= max {
            Some(value)
        } else {
            None
        },
        None => None,
    }
}

/// `first_where` finds a place between `from` and the end, passes over
/// nothing that meets the test, and stops before the end only at a character
/// that meets it.
pub proof fn lemma_first_where(s: Seq<char>, from: int, test: spec_fn(char) -> bool)
    requires
        0 <= from <= s.len(),
    ensures
        from <= first_where(s, from, test) <= s.len(),
        forall|i: int| from <= i < first_where(s, from, test) ==> !test(#[trigger] s[i]),
        first_where(s, from, test) < s.len() ==> test(s[first_where(s, from, test)]),
    decreases s.len() - from,
{
    if from < s.len() && !test(s[from]) {
        lemma_first_where(s, from + 1, test);
    }
}

/// The numeral of a number is read back as that number.
pub proof fn lemma_parse_reads_decimal(n: nat)
    ensures
        parse_unsigned(decimal(n)) == Some(n),
{
    lemma_decimal_round_trip(n);
    assert(is_digit(decimal(n)[0]));
}

/// A numeral is worth at least as much as any of its beginnings.
pub proof fn lemma_decimal_value_grows(s: Seq<char>, k: int)
    requires
        0 <= k <= s.len(),
    ensures
        decimal_value(s.take(k)) <= decimal_value(s),
    decreases s.len(),
{
    if k < s.len() {
        lemma_decimal_value_grows(s.drop_last(), k);
        assert(s.drop_last().take(k) =~= s.take(k));
    } else {
        assert(s.take(k) =~= s);
    }
}

/// Whether `c` is white space.
pub fn is_space(c: char) -> (space: bool)
    ensures
        space == is_whitespace(c),
{
    let code: u32 = c as u32;
    (0x09 <= code && code <= 0x0D) || code == 0x20 || code == 0x85 || code == 0xA0 || code
        == 0x1680 || (0x2000 <= code && code <= 0x200A) || code == 0x2028 || code == 0x2029
        || code == 0x202F || code == 0x205F || code == 0x3000
}

/// The first line break at or after `from`, or the length of `chars`.
pub fn find_newline(chars: &[char], from: usize) -> (at: usize)
    requires
        from <= chars@.len(),
    ensures
        at == first_where(chars@, from as int, newline()),
{
    let mut at: usize = from;
    while at < chars.len() && chars[at] != '\n'
        invariant
            from <= at <= chars@.len(),
            first_where(chars@, from as int, newline()) == first_where(
                chars@,
                at as int,
                newline(),
            ),
        decreases chars@.len() - at,
    {
        at = at + 1;
    }
    at
}

/// The first character at or after `from` that is not white space, or the
/// length of `chars`.
pub fn skip_blank(chars: &[char], from: usize) -> (at: usize)
    requires
        from <= chars@.len(),
    ensures
        at == first_where(chars@, from as int, solid()),
{
    let mut at: usize = from;
    while at < chars.len() && is_space(chars[at])
        invariant
            from <= at <= chars@.len(),
            first_where(chars@, from as int, solid()) == first_where(chars@, at as int, solid()),
        decreases chars@.len() - at,
    {
        at = at + 1;
    }
    at
}

/// The first white space at or after `from`, or the length of `chars`.
pub fn skip_solid(chars: &[char], from: usize) -> (at: usize)
    requires
        from <= chars@.len(),
    ensures
        at == first_where(chars@, from as int, blank()),
{
    let mut at: usize = from;
    while at < chars.len() && !is_space(chars[at])
        invariant
            from <= at <= chars@.len(),
            first_where(chars@, from as int, blank()) == first_where(chars@, at as int, blank()),
        decreases chars@.len() - at,
    {
        at = at + 1;
    }
    at
}

/// Reads `chars` as an unsigned decimal numeral of at most 64 bits.
pub fn parse_u64(chars: &[char]) -> (value: Option<u64>)
    ensures
        match parse_up_to(chars@, u64::MAX as nat) {
            Some(number) => value == Some(number as u64),
            None => value is None,
        },
{
    let end: usize = chars.len();
    let mut at: usize = 0;
    if at < end && chars[at] == '+' {
        at = at + 1;
    }
    let first: usize = at;
    let ghost digits = numeral_digits(chars@);
    assert(digits =~= chars@.subrange(first as int, end as int));
    if at == end {
        return None;
    }
    let mut value: u64 = 0;
    while at < end
        invariant
            first <= at <= end == chars@.len(),
            digits == chars@.subrange(first as int, end as int),
            digits == numeral_digits(chars@),
            all_digits(digits.take(at - first)),
            value == decimal_value(digits.take(at - first)),
        decreases end - at,
    {
        let c = chars[at];
        let ghost shorter = digits.take(at - first);
        let ghost longer = digits.take(at - first + 1);
        assert(c == digits[at - first]);
        if !('0' <= c && c <= '9') {
            assert(!is_digit(digits[at - first]));
            return None;
        }
        proof {
            assert(longer.drop_last() =~= shorter);
            assert(longer.last() == c);
            assert(all_digits(longer));
            lemma_decimal_value_grows(digits, at - first + 1);
        }
        let digit: u64 = (c as u32 - 48) as u64;
        if value > (u64::MAX - digit) / 10 {
            assert(decimal_value(longer) > u64::MAX);
            return None;
        }
        value = value * 10 + digit;
        at = at + 1;
    }
    assert(digits.take(at - first) =~= digits);
    Some(value)
}

} // verus!
