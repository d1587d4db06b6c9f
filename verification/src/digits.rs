//! Decimal text: numbers as the characters that spell them.

use vstd::prelude::*;

verus! {

/// `String::push` of the standard library: it appends the character to the
/// end of the string and leaves what was there as it was.
pub assume_specification[ String::push ](s: &mut String, c: char)
    ensures
        final(s)@ == old(s)@.push(c),
;

/// The character for a single decimal digit.
pub open spec fn digit_char(d: int) -> char
    recommends
        0 <= d <= 9,
{
    if d == 0 {
        '0'
    } else if d == 1 {
        '1'
    } else if d == 2 {
        '2'
    } else if d == 3 {
        '3'
    } else if d == 4 {
        '4'
    } else if d == 5 {
        '5'
    } else if d == 6 {
        '6'
    } else if d == 7 {
        '7'
    } else if d == 8 {
        '8'
    } else {
        '9'
    }
}

/// Whether the character is one of `0` to `9`.
pub open spec fn is_digit(c: char) -> bool {
    '0' <= c <= '9'
}

/// The digit that a digit character stands for.
pub open spec fn digit_value(c: char) -> int
    recommends
        is_digit(c),
{
    c as int - '0' as int
}

/// Whether the text is made of decimal digits only.
pub open spec fn all_digits(text: Seq<char>) -> bool {
    forall|i: int| 0 <= i < text.len() ==> is_digit(#[trigger] text[i])
}

/// The decimal digits of `n`, most significant first, without leading
/// zeros; zero is the single digit `0`.
pub open spec fn digits(n: nat) -> Seq<char>
    decreases n,
{
    if n < 10 {
        seq![digit_char(n as int)]
    } else {
        digits(n / 10).push(digit_char((n % 10) as int))
    }
}

/// The number in decimal, with a minus sign in front of a negative one.
pub open spec fn decimal(n: int) -> Seq<char> {
    if n < 0 {
        seq!['-'] + digits((-n) as nat)
    } else {
        digits(n as nat)
    }
}

/// A run of `count` zeros.
pub open spec fn zeros(count: nat) -> Seq<char> {
    Seq::new(count, |i: int| '0')
}

/// The decimal digits of `n`, with zeros in front until there are `width`
/// characters; a number with more digits than that is not cut short.
pub open spec fn zero_padded(n: nat, width: nat) -> Seq<char> {
    if digits(n).len() >= width {
        digits(n)
    } else {
        zeros((width - digits(n).len()) as nat) + digits(n)
    }
}

/// The number that a run of digit characters spells; leading zeros do not
/// count.
pub open spec fn number_of(text: Seq<char>) -> nat
    recommends
        all_digits(text),
    decreases text.len(),
{
    if text.len() == 0 {
        0
    } else {
        (number_of(text.drop_last()) * 10 + digit_value(text.last())) as nat
    }
}

/// Ten to the power `e`.
pub open spec fn pow10(e: nat) -> nat
    decreases e,
{
    if e == 0 {
        1
    } else {
        10 * pow10((e - 1) as nat)
    }
}

/// Digit characters are digits, and stand for the digit they were made from.
pub proof fn lemma_digit_char(d: int)
    requires
        0 <= d <= 9,
    ensures
        is_digit(digit_char(d)),
        digit_value(digit_char(d)) == d,
{
}

/// The digits of a number are digits, at least one of them, and a number has
/// at most `e` digits exactly when it is below ten to the `e`.
pub proof fn lemma_digits_shape(n: nat, e: nat)
    ensures
        digits(n).len() >= 1,
        all_digits(digits(n)),
        e >= 1 ==> (digits(n).len() <= e <==> n < pow10(e)),
    decreases n,
{
    if n < 10 {
        lemma_digit_char(n as int);
        if e >= 1 {
            lemma_pow10_grows(1, e);
            assert(pow10(1) == 10) by {
                reveal_with_fuel(pow10, 2);
            }
        }
    } else {
        lemma_digits_shape(n / 10, (e - 1) as nat);
        lemma_digit_char((n % 10) as int);
        if e == 1 {
            assert(pow10(1) == 10) by {
                reveal_with_fuel(pow10, 2);
            }
        }
    }
}

/// Higher powers of ten are not smaller.
pub proof fn lemma_pow10_grows(low: nat, high: nat)
    requires
        low <= high,
    ensures
        1 <= pow10(low) <= pow10(high),
    decreases high,
{
    if high == 0 {
    } else if low == high {
        lemma_pow10_grows((low - 1) as nat, (high - 1) as nat);
    } else {
        lemma_pow10_grows(low, (high - 1) as nat);
    }
}

/// The digits of a number spell that number.
pub proof fn lemma_digits_spell(n: nat)
    ensures
        number_of(digits(n)) == n,
    decreases n,
{
    if n < 10 {
        lemma_digit_char(n as int);
        assert(digits(n).drop_last() == Seq::<char>::empty());
        assert(number_of(digits(n).drop_last()) == 0);
    } else {
        lemma_digits_spell(n / 10);
        lemma_digit_char((n % 10) as int);
        assert(digits(n).drop_last() == digits(n / 10));
    }
}

/// Zeros in front of a text do not change the number it spells.
pub proof fn lemma_leading_zeros(count: nat, text: Seq<char>)
    ensures
        number_of(zeros(count) + text) == number_of(text),
    decreases text.len(),
{
    let whole = zeros(count) + text;
    if text.len() == 0 {
        assert(whole == zeros(count));
        lemma_zeros_spell_zero(count);
    } else {
        lemma_leading_zeros(count, text.drop_last());
        assert(whole.drop_last() == zeros(count) + text.drop_last());
        assert(whole.last() == text.last());
    }
}

/// A run of zeros spells zero.
pub proof fn lemma_zeros_spell_zero(count: nat)
    ensures
        number_of(zeros(count)) == 0,
    decreases count,
{
    if count > 0 {
        lemma_zeros_spell_zero((count - 1) as nat);
        assert(zeros(count).drop_last() == zeros((count - 1) as nat));
    }
}

/// A padded number is at least `width` characters long, all of them digits,
/// and spells the number; one that is below ten to the `width` is exactly
/// `width` characters long.
pub proof fn lemma_zero_padded(n: nat, width: nat)
    ensures
        zero_padded(n, width).len() >= width,
        all_digits(zero_padded(n, width)),
        number_of(zero_padded(n, width)) == n,
        width >= 1 && n < pow10(width) ==> zero_padded(n, width).len() == width,
{
    lemma_digits_shape(n, width);
    lemma_digits_spell(n);
    if digits(n).len() < width {
        lemma_leading_zeros((width - digits(n).len()) as nat, digits(n));
    }
}

/// A digit character is the character of the digit that it stands for.
pub proof fn lemma_digit_value(c: char)
    requires
        is_digit(c),
    ensures
        0 <= digit_value(c) <= 9,
        digit_char(digit_value(c)) == c,
{
}

/// A text of digits that spells zero is made of zeros.
pub proof fn lemma_spells_zero(text: Seq<char>)
    requires
        all_digits(text),
        number_of(text) == 0,
    ensures
        text == zeros(text.len()),
    decreases text.len(),
{
    if text.len() > 0 {
        let front = text.drop_last();
        lemma_digit_value(text.last());
        assert(all_digits(front)) by {
            assert forall|i: int| 0 <= i < front.len() implies is_digit(#[trigger] front[i]) by {
                assert(front[i] == text[i]);
            }
        }
        lemma_spells_zero(front);
        assert(text == front.push(text.last()));
        assert(text =~= zeros(text.len()));
    }
}

/// A text of digits is the padded text of the number that it spells, and
/// that number is below ten to the length of the text.
pub proof fn lemma_padded_of_spelled(text: Seq<char>)
    requires
        all_digits(text),
        text.len() >= 1,
    ensures
        number_of(text) < pow10(text.len()),
        zero_padded(number_of(text), text.len()) == text,
    decreases text.len(),
{
    let width = text.len();
    let front = text.drop_last();
    let last = text.last();
    let high = number_of(front);
    let n = number_of(text);
    lemma_digit_value(last);
    assert(all_digits(front)) by {
        assert forall|i: int| 0 <= i < front.len() implies is_digit(#[trigger] front[i]) by {
            assert(front[i] == text[i]);
        }
    }
    assert(text == front.push(last));
    assert(n == high * 10 + digit_value(last));
    if high == 0 {
        lemma_spells_zero(front);
        lemma_pow10_grows(1, width);
        assert(pow10(1) == 10) by {
            reveal_with_fuel(pow10, 2);
        }
        assert(digits(n) == seq![last]);
        assert(zeros((width - 1) as nat) + seq![last] =~= text);
    } else {
        assert(front.len() >= 1);
        lemma_padded_of_spelled(front);
        lemma_digits_shape(high, front.len());
        assert(n / 10 == high && n % 10 == digit_value(last));
        assert(digits(n) == digits(high).push(last));
        let pad = (front.len() - digits(high).len()) as nat;
        assert(front == zeros(pad) + digits(high)) by {
            if digits(high).len() >= front.len() {
                assert(zeros(0) + digits(high) =~= digits(high));
            }
        }
        assert(zeros(pad) + digits(high).push(last) =~= front.push(last));
        if digits(n).len() >= width {
            assert(zeros(0) + digits(n) =~= digits(n));
        }
    }
}

/// The texts of `width` digits are the numbers below ten to the `width`,
/// padded to `width` places: no more and no fewer.
pub proof fn lemma_padded_texts(text: Seq<char>, width: nat)
    requires
        width >= 1,
    ensures
        text.len() == width && all_digits(text) <==> exists|n: nat|
            n < pow10(width) && text == #[trigger] zero_padded(n, width),
{
    if text.len() == width && all_digits(text) {
        lemma_padded_of_spelled(text);
        assert(text == zero_padded(number_of(text), width));
    }
    if exists|n: nat| n < pow10(width) && text == #[trigger] zero_padded(n, width) {
        let n = choose|n: nat| n < pow10(width) && text == #[trigger] zero_padded(n, width);
        lemma_zero_padded(n, width);
    }
}

/// A number in decimal is made of digits, behind a minus sign if it is
/// negative: there is no blank in it.
pub proof fn lemma_decimal_chars(n: int)
    ensures
        decimal(n).len() >= 1,
        forall|i: int| 0 <= i < decimal(n).len() ==> #[trigger] decimal(n)[i] != ' ',
        n < 0 <==> decimal(n)[0] == '-',
{
    if n < 0 {
        lemma_digits_shape((-n) as nat, 0);
        let body = digits((-n) as nat);
        assert forall|i: int| 0 <= i < decimal(n).len() implies #[trigger] decimal(n)[i]
            != ' ' by {
            if i > 0 {
                assert(decimal(n)[i] == body[i - 1]);
                assert(is_digit(body[i - 1]));
            }
        }
    } else {
        lemma_digits_shape(n as nat, 0);
        assert(is_digit(digits(n as nat)[0]));
    }
}

/// Two numbers with the same decimal text are the same number.
pub proof fn lemma_decimal_injective(a: int, b: int)
    requires
        decimal(a) == decimal(b),
    ensures
        a == b,
{
    lemma_decimal_chars(a);
    lemma_decimal_chars(b);
    if a < 0 {
        let x = digits((-a) as nat);
        let y = digits((-b) as nat);
        assert(x == decimal(a).subrange(1, decimal(a).len() as int));
        assert(y == decimal(b).subrange(1, decimal(b).len() as int));
        lemma_digits_spell((-a) as nat);
        lemma_digits_spell((-b) as nat);
    } else {
        lemma_digits_spell(a as nat);
        lemma_digits_spell(b as nat);
    }
}

/// Zero, padded to six places, is six zeros.
pub proof fn lemma_zero_in_six_places()
    ensures
        zero_padded(0, 6) == seq!['0', '0', '0', '0', '0', '0'],
{
    assert(digits(0) == seq!['0']);
    assert(zeros(5) + seq!['0'] == seq!['0', '0', '0', '0', '0', '0']);
}

/// The character of one decimal digit.
fn digit(d: u32) -> (c: char)
    requires
        d <= 9,
    ensures
        c == digit_char(d as int),
{
    match d {
        0 => '0',
        1 => '1',
        2 => '2',
        3 => '3',
        4 => '4',
        5 => '5',
        6 => '6',
        7 => '7',
        8 => '8',
        _ => '9',
    }
}

/// Appends the decimal digits of `n` to `text`.
fn push_digits(text: &mut String, n: u64)
    ensures
        final(text)@ == old(text)@ + digits(n as nat),
    decreases n,
{
    if n >= 10 {
        push_digits(text, n / 10);
    }
    text.push(digit((n % 10) as u32));
}

/// The number in decimal, as `{}` prints an integer: a minus sign in front
/// of a negative one, no leading zeros.
pub fn decimal_text(n: i32) -> (text: String)
    ensures
        text@ == decimal(n as int),
{
    let wide: i64 = n as i64;
    let mut text = String::new();
    if wide < 0 {
        text.push('-');
        push_digits(&mut text, (-wide) as u64);
    } else {
        push_digits(&mut text, wide as u64);
    }
    text
}

/// The number in decimal, with zeros in front until there are `width`
/// characters, as `{:0width$}` prints an unsigned integer.
pub fn zero_padded_text(n: u32, width: usize) -> (text: String)
    ensures
        text@ == zero_padded(n as nat, width as nat),
{
    let mut body = String::new();
    push_digits(&mut body, n as u64);
    let len = body.as_str().unicode_len();
    let mut text = String::new();
    let mut at: usize = len;
    while at < width
        invariant
            len <= at,
            at <= width || at == len,
            text@ == zeros((at - len) as nat),
        decreases width - at,
    {
        text.push('0');
        at += 1;
        assert(text@ == zeros((at - len) as nat));
    }
    text.append(body.as_str());
    text
}

} // verus!
