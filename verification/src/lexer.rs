//! The scanner: the smallest rules of the script language, read from a slice
//! of characters at a position.

use crate::grammar::{Class, at, is_alnum, is_digit, is_text_mark, number, run, word};
use crate::text::{chars_of, string_of};
use vstd::prelude::*;

verus! {

/// Whether the result `r` of a parser started at `pos` is what the rule
/// yields there: the same value, and a new position as far on as the rule
/// takes characters.
pub open spec fn parsed<T: View>(
    r: Option<(T, usize)>,
    pos: usize,
    len: nat,
    rule: Option<(T::V, nat)>,
) -> bool {
    match r {
        Some((value, next)) => pos <= next <= len && rule == Some((value@, (next - pos) as nat)),
        None => rule is None,
    }
}

/// Whether the new position `r` of a parser without a value, started at
/// `pos`, is what the rule yields there.
pub open spec fn passed(r: Option<usize>, pos: usize, len: nat, rule: Option<nat>) -> bool {
    match r {
        Some(next) => pos <= next <= len && rule == Some((next - pos) as nat),
        None => rule is None,
    }
}

/// Every character of a run is of its class.
pub proof fn lemma_run_holds(s: Seq<char>, i: int, class: Class, k: int)
    requires
        0 <= i,
        0 <= k < run(s, i, class),
    ensures
        i + k < s.len(),
        class.holds(s[i + k]),
    decreases k,
{
    if k > 0 {
        lemma_run_holds(s, i + 1, class, k - 1);
    }
}

/// The digits of a longer number write no smaller a number.
pub proof fn lemma_number_grows(digits: Seq<char>, k: int)
    requires
        0 <= k <= digits.len(),
        forall|j: int| 0 <= j < digits.len() ==> is_digit(digits[j]),
    ensures
        0 <= number(digits.take(k)) <= number(digits),
    decreases digits.len() - k,
{
    if k == digits.len() {
        assert(digits.take(k) =~= digits);
        lemma_number_nonnegative(digits);
    } else {
        lemma_number_grows(digits, k + 1);
        assert(digits.take(k + 1).drop_last() =~= digits.take(k));
        lemma_number_nonnegative(digits.take(k));
    }
}

/// Digits write a number that is not negative.
pub proof fn lemma_number_nonnegative(digits: Seq<char>)
    requires
        forall|j: int| 0 <= j < digits.len() ==> is_digit(digits[j]),
    ensures
        0 <= number(digits),
    decreases digits.len(),
{
    if digits.len() > 0 {
        lemma_number_nonnegative(digits.drop_last());
    }
}

impl Class {
    /// Whether `c` is of the class.
    pub fn test(self, c: char) -> (r: bool)
        ensures
            r == self.holds(c),
    {
        let digit = '0' <= c && c <= '9';
        let alnum = digit || ('a' <= c && c <= 'z') || ('A' <= c && c <= 'Z');
        match self {
            Class::Space => c == ' ',
            Class::Blank => c == ' ' || c == '\t' || c == '\r' || c == '\n',
            Class::Digit => digit,
            Class::Alnum => alnum,
            Class::SymbolTail => alnum || c == '-' || c == '_',
            Class::VarTail => alnum || c == '_',
            Class::Text => alnum || c == ',' || c == '\'' || c == '"' || c == '!' || c == '?' || c
                == '<' || c == '/' || c == '>' || c == '(' || c == ')' || c == ' ' || c == '.',
        }
    }
}

/// The position after the characters of the class that stand in a row at
/// `pos`.
pub fn scan(input: &[char], pos: usize, class: Class) -> (end: usize)
    requires
        pos <= input@.len(),
    ensures
        pos <= end <= input@.len(),
        end - pos == run(input@, pos as int, class),
{
    let mut end: usize = pos;
    while end < input.len() && class.test(input[end])
        invariant
            pos <= end <= input@.len(),
            run(input@, pos as int, class) == (end - pos) + run(input@, end as int, class),
        decreases input@.len() - end,
    {
        end += 1;
    }
    end
}

/// The position after the spaces that stand at `pos`.
pub fn skip_ws(input: &[char], pos: usize) -> (end: usize)
    requires
        pos <= input@.len(),
    ensures
        pos <= end <= input@.len(),
        end - pos == run(input@, pos as int, Class::Space),
{
    scan(input, pos, Class::Space)
}

/// The position after the spaces, tabs and line breaks that stand at `pos`.
pub fn ws(input: &[char], pos: usize) -> (end: usize)
    requires
        pos <= input@.len(),
    ensures
        pos <= end <= input@.len(),
        end - pos == run(input@, pos as int, Class::Blank),
{
    scan(input, pos, Class::Blank)
}

/// Whether the character `c` stands at `pos`.
pub fn peek(input: &[char], pos: usize, c: char) -> (r: bool)
    ensures
        r == at(input@, pos as int, c),
        r ==> pos < usize::MAX,
{
    pos < input.len() && input[pos] == c
}

/// The position after the characters of `w`, where they stand at `pos`.
pub fn tag(input: &[char], pos: usize, w: &str) -> (r: Option<usize>)
    requires
        pos <= input@.len(),
    ensures
        match r {
            Some(next) => word(input@, pos as int, w@) && next == pos + w@.len() && next
                <= input@.len(),
            None => !word(input@, pos as int, w@),
        },
{
    let chars = chars_of(w);
    let len = input.len();
    if chars.len() > len - pos {
        return None;
    }
    let mut k: usize = 0;
    while k < chars.len()
        invariant
            k <= chars@.len(),
            chars@ == w@,
            pos + chars@.len() <= input@.len() == len,
            forall|j: int| 0 <= j < k ==> input@[pos + j] == chars@[j],
        decreases chars@.len() - k,
    {
        if input[pos + k] != chars[k] {
            assert(input@.subrange(pos as int, pos + w@.len())[k as int] != w@[k as int]);
            return None;
        }
        k += 1;
    }
    assert(input@.subrange(pos as int, pos + w@.len()) =~= w@);
    Some(pos + chars.len())
}

/// The position after the end of a line that stands at `pos`.
pub fn line_end(input: &[char], pos: usize) -> (r: Option<usize>)
    requires
        pos <= input@.len(),
    ensures
        passed(r, pos, input@.len(), crate::grammar::line_end(input@, pos as int)),
{
    let len = input.len();
    let at = skip_ws(input, pos);
    if peek(input, at, '\n') {
        Some(at + 1)
    } else if peek(input, at, '\r') && peek(input, at + 1, '\n') {
        Some(at + 2)
    } else {
        None
    }
}

/// The position after as many line ends as stand in a row at `pos`.
pub fn line_ends(input: &[char], pos: usize) -> (end: usize)
    requires
        pos <= input@.len(),
    ensures
        pos <= end <= input@.len(),
        end - pos == crate::grammar::line_ends(input@, pos as int),
{
    let mut end: usize = pos;
    loop
        invariant
            pos <= end <= input@.len(),
            crate::grammar::line_ends(input@, pos as int) == (end - pos)
                + crate::grammar::line_ends(input@, end as int),
        decreases input@.len() - end,
    {
        match line_end(input, end) {
            Some(next) => {
                end = next;
            },
            None => {
                return end;
            },
        }
    }
}

/// The position after one line end or more.
pub fn line_ends1(input: &[char], pos: usize) -> (r: Option<usize>)
    requires
        pos <= input@.len(),
    ensures
        passed(r, pos, input@.len(), crate::grammar::line_ends1(input@, pos as int)),
{
    match line_end(input, pos) {
        Some(_) => Some(line_ends(input, pos)),
        None => None,
    }
}

/// A letter or digit and the characters of the class `tail` that follow it.
pub fn name(input: &[char], pos: usize, tail: Class) -> (r: Option<(String, usize)>)
    requires
        pos <= input@.len(),
    ensures
        parsed(r, pos, input@.len(), crate::grammar::name(input@, pos as int, tail)),
{
    if pos < input.len() && Class::Alnum.test(input[pos]) {
        let end = scan(input, pos + 1, tail);
        Some((string_of(input, pos, end), end))
    } else {
        None
    }
}

/// A symbol: a letter or digit, then letters, digits, `-` and `_`.
pub fn symbol(input: &[char], pos: usize) -> (r: Option<(String, usize)>)
    requires
        pos <= input@.len(),
    ensures
        parsed(r, pos, input@.len(), crate::grammar::symbol(input@, pos as int)),
{
    name(input, pos, Class::SymbolTail)
}

/// The name of a variable: a letter or digit, then letters, digits and `_`.
pub fn var_symbol(input: &[char], pos: usize) -> (r: Option<(String, usize)>)
    requires
        pos <= input@.len(),
    ensures
        parsed(r, pos, input@.len(), crate::grammar::var_symbol(input@, pos as int)),
{
    name(input, pos, Class::VarTail)
}

/// A label: a symbol and a colon.
pub fn label(input: &[char], pos: usize) -> (r: Option<(String, usize)>)
    requires
        pos <= input@.len(),
    ensures
        parsed(r, pos, input@.len(), crate::grammar::label(input@, pos as int)),
{
    let len = input.len();
    match symbol(input, pos) {
        Some((text, next)) => if peek(input, next, ':') {
            Some((text, next + 1))
        } else {
            None
        },
        None => None,
    }
}

/// A run of text.
pub fn raw_text_fragment(input: &[char], pos: usize) -> (r: Option<(String, usize)>)
    requires
        pos <= input@.len(),
    ensures
        parsed(r, pos, input@.len(), crate::grammar::raw_text_fragment(input@, pos as int)),
{
    let end = scan(input, pos, Class::Text);
    if end > pos {
        Some((string_of(input, pos, end), end))
    } else {
        None
    }
}

/// An integer that a 32-bit signed integer holds.
pub fn int_value(input: &[char], pos: usize) -> (r: Option<(i32, usize)>)
    requires
        pos <= input@.len(),
    ensures
        parsed(r, pos, input@.len(), crate::grammar::int_literal(input@, pos as int)),
{
    let end = scan(input, pos, Class::Digit);
    if end == pos {
        return None;
    }
    let ghost digits = input@.subrange(pos as int, end as int);
    proof {
        assert forall|j: int| 0 <= j < digits.len() implies is_digit(digits[j]) by {
            lemma_run_holds(input@, pos as int, Class::Digit, j);
        }
    }
    let mut value: i32 = 0;
    let mut j: usize = pos;
    assert(digits.take(0) =~= Seq::<char>::empty());
    while j < end
        invariant
            pos <= j <= end <= input@.len(),
            pos < end,
            end - pos == run(input@, pos as int, Class::Digit),
            digits == input@.subrange(pos as int, end as int),
            forall|k: int| 0 <= k < digits.len() ==> is_digit(digits[k]),
            value == number(digits.take(j - pos)),
        decreases end - j,
    {
        proof {
            assert(digits.take(j - pos + 1).drop_last() =~= digits.take(j - pos));
            assert(digits.take(j - pos + 1).last() == input@[j as int]);
            assert(is_digit(digits[j - pos]));
            lemma_number_grows(digits, j - pos + 1);
        }
        let digit: i32 = (input[j] as u32 - '0' as u32) as i32;
        let tens = match value.checked_mul(10) {
            Some(tens) => tens,
            None => {
                return None;
            },
        };
        value = match tens.checked_add(digit) {
            Some(sum) => sum,
            None => {
                return None;
            },
        };
        j += 1;
    }
    assert(digits.take(end - pos) =~= digits);
    Some((value, end))
}

} // verus!
