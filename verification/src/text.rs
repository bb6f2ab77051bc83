//! Small verified operations on text, stated over sequences of characters.

use crate::entry::{all_decimal_digits, is_decimal_digit};
use vstd::prelude::*;

verus! {

/// `String::push` appends one character, as its documentation says.
pub assume_specification[ String::push ](s: &mut String, c: char)
    ensures
        final(s)@ == old(s)@.push(c),
;

/// The decimal digits of `text`, in order, everything else left out.
pub open spec fn digits_of(text: Seq<char>) -> Seq<char> {
    text.filter(|c: char| is_decimal_digit(c))
}

/// The characters of a string, as a vector.
pub fn chars_of(text: &str) -> (chars: Vec<char>)
    ensures
        chars@ == text@,
{
    let mut chars: Vec<char> = Vec::new();
    for c in it: text.chars()
        invariant
            it.seq() == text@,
            chars@ == it.seq().take(it.index()),
    {
        proof {
            assert(it.seq().take(it.index() + 1) =~= it.seq().take(it.index()).push(c));
        }
        chars.push(c);
    }
    proof {
        assert(text@.take(text@.len() as int) =~= text@);
    }
    chars
}

/// Filtering a sequence extended by one element.
pub proof fn lemma_digits_of_push(text: Seq<char>, c: char)
    ensures
        digits_of(text.push(c)) == if is_decimal_digit(c) {
            digits_of(text).push(c)
        } else {
            digits_of(text)
        },
{
    assert(text.push(c).drop_last() =~= text);
    reveal(Seq::filter);
}

/// What is kept of a text are digits, no more of them than the text has
/// characters, and at least one exactly when the text holds a digit.
pub proof fn lemma_digits_of_are_digits(text: Seq<char>)
    ensures
        all_decimal_digits(digits_of(text)),
        digits_of(text).len() <= text.len(),
        digits_of(text).len() > 0 <==> exists|i: int|
            0 <= i < text.len() && is_decimal_digit(#[trigger] text[i]),
    decreases text.len(),
{
    reveal(Seq::filter);
    if text.len() > 0 {
        let front = text.drop_last();
        lemma_digits_of_are_digits(front);
        assert(front.push(text.last()) =~= text);
        lemma_digits_of_push(front, text.last());
        if digits_of(text).len() > 0 {
            if is_decimal_digit(text.last()) {
                assert(is_decimal_digit(text[text.len() - 1]));
            } else {
                let i = choose|i: int| 0 <= i < front.len() && is_decimal_digit(#[trigger] front[i]);
                assert(is_decimal_digit(text[i]));
            }
        }
        if exists|i: int| 0 <= i < text.len() && is_decimal_digit(#[trigger] text[i]) {
            let i = choose|i: int| 0 <= i < text.len() && is_decimal_digit(#[trigger] text[i]);
            if i < front.len() {
                assert(is_decimal_digit(front[i]));
            }
        }
    }
}

/// Keeps the decimal digits of `text` and drops every other character.
pub fn decimal_digits(text: &str) -> (digits: String)
    ensures
        digits@ == digits_of(text@),
        all_decimal_digits(digits@),
{
    let chars = chars_of(text);
    let mut digits = String::new();
    let mut i: usize = 0;
    proof {
        assert(chars@.take(0) =~= Seq::<char>::empty());
        reveal(Seq::filter);
    }
    while i < chars.len()
        invariant
            i <= chars.len(),
            digits@ == digits_of(chars@.take(i as int)),
        decreases chars.len() - i,
    {
        let c = chars[i];
        proof {
            assert(chars@.take(i + 1) =~= chars@.take(i as int).push(c));
            lemma_digits_of_push(chars@.take(i as int), c);
        }
        if '0' <= c && c <= '9' {
            digits.push(c);
        }
        i += 1;
    }
    proof {
        assert(chars@.take(chars@.len() as int) =~= chars@);
        lemma_digits_of_are_digits(text@);
    }
    digits
}

/// The character for a digit value below ten.
pub open spec fn digit_char(d: int) -> char {
    ((48 + d) as u8) as char
}

/// The decimal numeral of `n`, without leading zeros.
pub open spec fn decimal_of(n: nat) -> Seq<char>
    decreases n,
{
    if n < 10 {
        seq![digit_char(n as int)]
    } else {
        decimal_of(n / 10).push(digit_char((n % 10) as int))
    }
}

/// Writes `n` in decimal.
pub fn decimal_text(n: usize) -> (text: String)
    ensures
        text@ == decimal_of(n as nat),
    decreases n,
{
    let last = ((48 + (n % 10)) as u8) as char;
    if n < 10 {
        let mut text = String::new();
        text.push(last);
        assert(text@ =~= seq![digit_char(n as int)]);
        text
    } else {
        let mut text = decimal_text(n / 10);
        text.push(last);
        text
    }
}

/// The digits of two texts written one after the other.
pub proof fn lemma_digits_of_concat(a: Seq<char>, b: Seq<char>)
    ensures
        digits_of(a + b) == digits_of(a) + digits_of(b),
{
    Seq::filter_distributes_over_add(a, b, |c: char| is_decimal_digit(c));
}

/// A text without digits has no digits to keep.
pub proof fn lemma_digits_of_text_without_digits(text: Seq<char>)
    requires
        forall|i: int| 0 <= i < text.len() ==> !is_decimal_digit(#[trigger] text[i]),
    ensures
        digits_of(text) == Seq::<char>::empty(),
    decreases text.len(),
{
    reveal(Seq::filter);
    if text.len() > 0 {
        let front = text.drop_last();
        assert forall|i: int| 0 <= i < front.len() implies !is_decimal_digit(
            #[trigger] front[i],
        ) by {
            assert(front[i] == text[i]);
        }
        lemma_digits_of_text_without_digits(front);
        assert(!is_decimal_digit(text[text.len() - 1]));
    }
}

/// A decimal numeral is kept whole.
pub proof fn lemma_digits_of_numeral(text: Seq<char>)
    requires
        all_decimal_digits(text),
    ensures
        digits_of(text) == text,
    decreases text.len(),
{
    reveal(Seq::filter);
    if text.len() > 0 {
        let front = text.drop_last();
        assert forall|i: int| 0 <= i < front.len() implies is_decimal_digit(
            #[trigger] front[i],
        ) by {
            assert(front[i] == text[i]);
        }
        lemma_digits_of_numeral(front);
        assert(is_decimal_digit(text[text.len() - 1]));
        assert(front.push(text.last()) =~= text);
    } else {
        assert(digits_of(text) =~= text);
    }
}

} // verus!
