//! Byte counts in binary units and integers with thousands separators.

use crate::text::{append_decimal, decimal, digit_char, digit_text, lemma_decimal_round_trip};
use vstd::prelude::*;
use vstd::string::*;

verus! {

/// The three digits of a full group, for `n` below one thousand.
pub open spec fn triple(n: nat) -> Seq<char> {
    seq![digit_char(n / 100 % 10), digit_char(n / 10 % 10), digit_char(n % 10)]
}

/// The decimal numeral of `n` with a comma before every complete group of
/// three digits, counted from the right.
pub open spec fn grouped(n: nat) -> Seq<char>
    decreases n,
{
    if n < 1000 {
        decimal(n)
    } else {
        grouped(n / 1000) + seq![','] + triple(n % 1000)
    }
}

/// The test that tells a digit from a separator.
pub open spec fn not_separator() -> spec_fn(char) -> bool {
    |c: char| c != ','
}

/// A text with its commas taken out.
pub open spec fn without_separators(s: Seq<char>) -> Seq<char> {
    s.filter(not_separator())
}

/// How many steps up the ladder of units a byte count is shown: one for
/// every full factor of 1024, and at most four.
pub open spec fn unit_index(bytes: nat) -> nat {
    if bytes < 1024 {
        0
    } else if bytes < 1024 * 1024 {
        1
    } else if bytes < 1024 * 1024 * 1024 {
        2
    } else if bytes < 1024 * 1024 * 1024 * 1024 {
        3
    } else {
        4
    }
}

/// The number of bytes in one unit of the given step: 1024 to its power.
pub open spec fn unit_size(index: nat) -> nat {
    if index == 0 {
        1
    } else if index == 1 {
        1024
    } else if index == 2 {
        1024 * 1024
    } else if index == 3 {
        1024 * 1024 * 1024
    } else {
        1024 * 1024 * 1024 * 1024
    }
}

/// The suffix of the given step of the ladder.
pub open spec fn unit_name(index: nat) -> Seq<char> {
    if index == 0 {
        seq!['B']
    } else if index == 1 {
        seq!['K', 'B']
    } else if index == 2 {
        seq!['M', 'B']
    } else if index == 3 {
        seq!['G', 'B']
    } else {
        seq!['T', 'B']
    }
}

/// The quotient `num / den` rounded to the nearest integer, a tie going to
/// the even neighbour.
pub open spec fn round_half_even(num: nat, den: nat) -> nat
    recommends
        den > 0,
{
    let q = num / den;
    let r = num % den;
    if 2 * r < den {
        q
    } else if 2 * r > den {
        q + 1
    } else if q % 2 == 0 {
        q
    } else {
        q + 1
    }
}

/// A byte count in hundredths of its unit, rounded.
pub open spec fn hundredths(bytes: nat) -> nat {
    round_half_even(bytes * 100, unit_size(unit_index(bytes)))
}

/// A byte count as a number with two fractional digits, a space and a unit.
pub open spec fn size_text(bytes: nat) -> Seq<char> {
    let h = hundredths(bytes);
    decimal(h / 100) + seq!['.', digit_char(h / 10 % 10), digit_char(h % 10), ' '] + unit_name(
        unit_index(bytes),
    )
}

/// Appends the three digits of a full group.
fn append_triple(out: &mut String, n: u128)
    requires
        n < 1000,
    ensures
        final(out)@ == old(out)@ + triple(n as nat),
{
    out.append(digit_text((n / 100 % 10) as u8));
    out.append(digit_text((n / 10 % 10) as u8));
    out.append(digit_text((n % 10) as u8));
    assert(final(out)@ =~= old(out)@ + triple(n as nat));
}

/// Appends `num` with thousands separators.
pub fn append_grouped(out: &mut String, num: u128)
    ensures
        final(out)@ == old(out)@ + grouped(num as nat),
    decreases num,
{
    if num < 1000 {
        append_decimal(out, num);
    } else {
        append_grouped(out, num / 1000);
        out.append(",");
        append_triple(out, num % 1000);
        proof {
            reveal_strlit(",");
            assert(final(out)@ =~= old(out)@ + grouped(num as nat));
        }
    }
}

/// `num` in decimal, with a comma between groups of three digits.
pub fn format_number(num: u128) -> (text: String)
    ensures
        text@ == grouped(num as nat),
{
    let mut text = String::new();
    append_grouped(&mut text, num);
    assert(text@ =~= grouped(num as nat));
    text
}

/// The step of the ladder at which `bytes` is shown, with the size of its
/// unit.
fn pick_unit(bytes: u128) -> (unit: (u8, u128))
    ensures
        unit.0 == unit_index(bytes as nat),
        unit.1 == unit_size(unit_index(bytes as nat)),
{
    if bytes < 1024 {
        (0, 1)
    } else if bytes < 1024 * 1024 {
        (1, 1024)
    } else if bytes < 1024 * 1024 * 1024 {
        (2, 1024 * 1024)
    } else if bytes < 1024 * 1024 * 1024 * 1024 {
        (3, 1024 * 1024 * 1024)
    } else {
        (4, 1024 * 1024 * 1024 * 1024)
    }
}

/// The suffix of a step of the ladder.
fn unit_suffix(index: u8) -> (text: &'static str)
    ensures
        text@ == unit_name(index as nat),
{
    proof {
        reveal_strlit("B");
        reveal_strlit("KB");
        reveal_strlit("MB");
        reveal_strlit("GB");
        reveal_strlit("TB");
    }
    let text = match index {
        0 => "B",
        1 => "KB",
        2 => "MB",
        3 => "GB",
        _ => "TB",
    };
    assert(text@ =~= unit_name(index as nat));
    text
}

/// Rounding a quotient can be done on the remainder alone when the part
/// already divided out is scaled by an even factor.
proof fn lemma_round_splits(whole: nat, rest: nat, den: nat)
    requires
        den > 0,
        rest < den,
    ensures
        round_half_even((whole * den + rest) * 100, den) == whole * 100 + round_half_even(
            rest * 100,
            den,
        ),
{
    let part = rest * 100;
    let q = part / den;
    let r = part % den;
    vstd::arithmetic::div_mod::lemma_fundamental_div_mod(part as int, den as int);
    assert((whole * den + rest) * 100 == (whole * 100 + q) * den + r) by (nonlinear_arith)
        requires
            part == rest * 100,
            part == den * q + r,
    ;
    vstd::arithmetic::div_mod::lemma_fundamental_div_mod_converse(
        ((whole * den + rest) * 100) as int,
        den as int,
        (whole * 100 + q) as int,
        r as int,
    );
}

/// `bytes` scaled to the largest unit that keeps it at or above one, rounded
/// to two fractional digits, with the unit's suffix.
pub fn human_readable_size(bytes: u128) -> (text: String)
    ensures
        text@ == size_text(bytes as nat),
{
    let (index, size) = pick_unit(bytes);
    let whole: u128 = bytes / size;
    let rest: u128 = bytes % size;
    let scaled: u128 = rest * 100;
    let mut cents: u128 = scaled / size;
    let left: u128 = scaled % size;
    if 2 * left > size || (2 * left == size && cents % 2 == 1) {
        cents = cents + 1;
    }
    proof {
        lemma_round_splits(whole as nat, rest as nat, size as nat);
        assert(cents == round_half_even(rest as nat * 100, size as nat));
    }
    assert(whole * 100 + cents <= u128::MAX) by {
        assert(size == 1 ==> rest == 0);
        assert(size >= 1024 ==> whole <= u128::MAX / 1024) by {
            assert(index == 1 ==> whole == bytes / 1024);
            assert(index == 2 ==> whole == bytes / 1048576);
            assert(index == 3 ==> whole == bytes / 1073741824);
            assert(index == 4 ==> whole == bytes / 1099511627776);
        }
    }
    let shown: u128 = whole * 100 + cents;
    assert(shown == hundredths(bytes as nat)) by {
        vstd::arithmetic::div_mod::lemma_fundamental_div_mod(bytes as int, size as int);
        assert(bytes == whole * size + rest) by (nonlinear_arith)
            requires
                bytes == size * whole + rest,
        ;
    }
    let mut text = String::new();
    append_decimal(&mut text, shown / 100);
    text.append(".");
    text.append(digit_text((shown / 10 % 10) as u8));
    text.append(digit_text((shown % 10) as u8));
    text.append(" ");
    text.append(unit_suffix(index));
    proof {
        reveal_strlit(".");
        reveal_strlit(" ");
        assert(text@ =~= size_text(bytes as nat));
    }
    text
}

/// A numeral of four or more digits is the numeral of its thousands
/// followed by its last three digits.
proof fn lemma_decimal_thousands(n: nat)
    requires
        n >= 1000,
    ensures
        decimal(n) == decimal(n / 1000) + triple(n % 1000),
{
    assert(decimal(n) == decimal(n / 10).push(digit_char(n % 10)));
    assert(decimal(n / 10) == decimal(n / 100).push(digit_char(n / 10 % 10)));
    assert(decimal(n / 100) == decimal(n / 1000).push(digit_char(n / 100 % 10)));
    assert(decimal(n) =~= decimal(n / 1000) + triple(n % 1000));
}

/// A text without commas is left as it is when the commas are taken out.
proof fn lemma_nothing_to_take_out(s: Seq<char>)
    requires
        forall|i: int| 0 <= i < s.len() ==> s[i] != ',',
    ensures
        without_separators(s) == s,
    decreases s.len(),
{
    reveal(Seq::filter);
    if s.len() > 0 {
        lemma_nothing_to_take_out(s.drop_last());
        assert(not_separator()(s.last()));
        assert(s.drop_last().push(s.last()) =~= s);
    }
}

/// Numerals of numbers below one thousand have at most three digits.
proof fn lemma_short_numeral(n: nat)
    requires
        n < 1000,
    ensures
        1 <= decimal(n).len() <= 3,
{
    reveal_with_fuel(decimal, 3);
}

/// Taking the separators out of a grouped numeral gives back the plain
/// decimal numeral of the same number.
pub proof fn lemma_grouped_without_separators(n: nat)
    ensures
        without_separators(grouped(n)) == decimal(n),
    decreases n,
{
    lemma_decimal_round_trip(n);
    if n < 1000 {
        lemma_nothing_to_take_out(decimal(n));
    } else {
        let head = grouped(n / 1000);
        let comma = seq![','];
        let tail = triple(n % 1000);
        lemma_grouped_without_separators(n / 1000);
        lemma_decimal_thousands(n);
        Seq::filter_distributes_over_add(head + comma, tail, not_separator());
        Seq::filter_distributes_over_add(head, comma, not_separator());
        lemma_nothing_to_take_out(tail);
        assert(without_separators(comma) =~= Seq::<char>::empty()) by {
            assert(comma.drop_last() =~= Seq::<char>::empty());
            assert(!not_separator()(comma.last()));
            reveal_with_fuel(Seq::filter, 2);
        }
        assert(without_separators(grouped(n)) =~= decimal(n));
    }
}

/// A grouped numeral holds one separator for every complete group of three
/// digits that has a digit to its left, and a separator stands at exactly
/// every fourth place counted from the right.
pub proof fn lemma_grouped_separator_places(n: nat)
    ensures
        grouped(n).len() == decimal(n).len() + (decimal(n).len() - 1) / 3,
        forall|i: int|
            0 <= i < grouped(n).len() ==> (#[trigger] grouped(n)[i] == ','
                <==> (grouped(n).len() - i) % 4 == 0),
    decreases n,
{
    lemma_decimal_round_trip(n);
    if n < 1000 {
        lemma_short_numeral(n);
    } else {
        lemma_grouped_separator_places(n / 1000);
        lemma_decimal_round_trip(n / 1000);
        lemma_decimal_thousands(n);
        let head = grouped(n / 1000);
        let whole = grouped(n);
        assert(whole.len() == head.len() + 4);
        assert forall|i: int| 0 <= i < whole.len() implies (#[trigger] whole[i] == ','
            <==> (whole.len() - i) % 4 == 0) by {
            if i < head.len() {
                assert(whole[i] == head[i]);
            } else if i > head.len() {
                assert(whole[i] == triple(n % 1000)[i - head.len() - 1]);
            }
        }
    }
}

/// A size text ends in a unit of the ladder. Below the top unit the byte
/// count is less than 1024 units, so the number shown is at most 1024.00; it
/// is below 1024.00 exactly when the count is more than half a hundredth of
/// a unit short of the next unit. Above the bottom unit the number shown is
/// at least 1.00.
pub proof fn lemma_size_text_shape(bytes: nat)
    ensures
        unit_index(bytes) <= 4,
        unit_name(unit_index(bytes)).is_suffix_of(size_text(bytes)),
        unit_index(bytes) < 4 ==> bytes < 1024 * unit_size(unit_index(bytes)),
        unit_index(bytes) < 4 ==> hundredths(bytes) <= 102400,
        unit_index(bytes) < 4 ==> (hundredths(bytes) < 102400 <==> 200 * bytes < 204799
            * unit_size(unit_index(bytes))),
        unit_index(bytes) > 0 ==> hundredths(bytes) >= 100,
{
    let index = unit_index(bytes);
    let size = unit_size(index);
    let text = size_text(bytes);
    let name = unit_name(index);
    assert(name =~= text.subrange(text.len() - name.len(), text.len() as int));
    assert(index == 0 ==> hundredths(bytes) == bytes * 100);
    assert(index == 1 ==> size == 1024);
    assert(index == 2 ==> size == 1048576);
    assert(index == 3 ==> size == 1073741824);
    assert(index == 4 ==> size == 1099511627776);
}

} // verus!
