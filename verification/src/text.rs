//! Strings: comparing, splitting and writing numbers, over the sequence of characters of each.

use vstd::prelude::*;

verus! {

/// Whether `separator` stands in `text` at position `at`.
pub open spec fn occurs_at(text: Seq<char>, separator: Seq<char>, at: int) -> bool {
    &&& 0 <= at
    &&& at + separator.len() <= text.len()
    &&& text.subrange(at, at + separator.len()) == separator
}

/// Whether the first place where `separator` stands in `text` is position `at`.
pub open spec fn first_occurs_at(text: Seq<char>, separator: Seq<char>, at: int) -> bool {
    &&& occurs_at(text, separator, at)
    &&& forall|before: int| 0 <= before < at ==> !occurs_at(text, separator, before)
}

/// The text before and after the first place where `separator` stands, where it stands anywhere.
pub open spec fn first_split(text: Seq<char>, separator: Seq<char>) -> Option<
    (Seq<char>, Seq<char>),
> {
    if exists|at: int| occurs_at(text, separator, at) {
        let at = choose|at: int| first_occurs_at(text, separator, at);
        Some((text.take(at), text.skip(at + separator.len())))
    } else {
        None
    }
}

/// The characters of several strings, in order.
pub open spec fn string_views(strings: Seq<String>) -> Seq<Seq<char>> {
    strings.map_values(|string: String| string@)
}

/// The decimal digit `digit`, as text.
pub open spec fn digit_text(digit: nat) -> Seq<char> {
    if digit == 0 {
        "0"@
    } else if digit == 1 {
        "1"@
    } else if digit == 2 {
        "2"@
    } else if digit == 3 {
        "3"@
    } else if digit == 4 {
        "4"@
    } else if digit == 5 {
        "5"@
    } else if digit == 6 {
        "6"@
    } else if digit == 7 {
        "7"@
    } else if digit == 8 {
        "8"@
    } else {
        "9"@
    }
}

/// The number `number` in decimal, without leading zeros.
pub open spec fn decimal_text(number: nat) -> Seq<char>
    decreases number,
{
    if number < 10 {
        digit_text(number)
    } else {
        decimal_text(number / 10) + digit_text(number % 10)
    }
}

/// Two first places are the same place, and the split is the one made there.
pub proof fn lemma_first_split_at(text: Seq<char>, separator: Seq<char>, at: int)
    requires
        first_occurs_at(text, separator, at),
    ensures
        first_split(text, separator) == Some((text.take(at), text.skip(at + separator.len()))),
{
    let chosen = choose|place: int| first_occurs_at(text, separator, place);
    assert(first_occurs_at(text, separator, chosen));
    assert(occurs_at(text, separator, at));
    if chosen < at {
        assert(!occurs_at(text, separator, chosen));
    } else if at < chosen {
        assert(!occurs_at(text, separator, at));
    }
}

/// Where a separator occurs anywhere, there is a first place where it does.
pub proof fn lemma_first_occurrence_exists(text: Seq<char>, separator: Seq<char>, at: int)
    requires
        occurs_at(text, separator, at),
    ensures
        exists|first: int| first <= at && #[trigger] first_occurs_at(text, separator, first),
    decreases at,
{
    if forall|before: int| 0 <= before < at ==> !occurs_at(text, separator, before) {
        assert(first_occurs_at(text, separator, at));
    } else {
        let before = choose|before: int| 0 <= before < at && occurs_at(text, separator, before);
        lemma_first_occurrence_exists(text, separator, before);
    }
}

/// A text splits no later than at any place where the separator stands.
pub proof fn lemma_split_is_before(text: Seq<char>, separator: Seq<char>, at: int)
    requires
        occurs_at(text, separator, at),
    ensures
        first_split(text, separator) is Some,
        (first_split(text, separator)->0).0.len() <= at,
{
    lemma_first_occurrence_exists(text, separator, at);
    let first = choose|first: int|
        first <= at && #[trigger] first_occurs_at(text, separator, first);
    lemma_first_split_at(text, separator, first);
}

/// The two parts of a split, joined by the separator, are the text again; and the separator does
/// not stand anywhere before the place of the split.
pub proof fn law_split_parts_rejoin(text: Seq<char>, separator: Seq<char>)
    ensures
        match first_split(text, separator) {
            Some((before, after)) => {
                &&& text == before + separator + after
                &&& forall|at: int| 0 <= at < before.len() ==> !occurs_at(text, separator, at)
            },
            None => forall|at: int| !occurs_at(text, separator, at),
        },
{
    if exists|at: int| occurs_at(text, separator, at) {
        let at = choose|at: int| occurs_at(text, separator, at);
        lemma_first_occurrence_exists(text, separator, at);
        let first = choose|first: int|
            first <= at && #[trigger] first_occurs_at(text, separator, first);
        lemma_first_split_at(text, separator, first);
        assert(text =~= text.take(first) + separator + text.skip(first + separator.len())) by {
            assert(text.subrange(first, first + separator.len()) == separator);
            assert(text =~= text.take(first) + text.subrange(first, first + separator.len())
                + text.skip(first + separator.len()));
        }
    }
}

/// Where a text can be cut at a separator at all, it splits into two parts that make it up with the
/// separator between them, and no cut leaves less before it: of all cuts the split is the first.
pub proof fn law_split_is_the_first_cut(
    text: Seq<char>,
    separator: Seq<char>,
    before: Seq<char>,
    after: Seq<char>,
)
    ensures
        text == before + separator + after ==> {
            &&& first_split(text, separator) is Some
            &&& (first_split(text, separator)->0).0.len() <= before.len()
        },
        first_split(text, separator) is Some ==> text == (first_split(text, separator)->0).0
            + separator + (first_split(text, separator)->0).1,
        first_split(text, separator) is Some && text == before + separator + after && before.len()
            == (first_split(text, separator)->0).0.len() ==> first_split(text, separator) == Some(
            (before, after),
        ),
{
    law_split_parts_rejoin(text, separator);
    if text == before + separator + after {
        let at = before.len() as int;
        assert(text.subrange(at, at + separator.len()) =~= separator);
        assert(occurs_at(text, separator, at));
        lemma_split_is_before(text, separator, at);
        let (first, rest) = first_split(text, separator)->0;
        if first.len() == before.len() {
            assert((first + separator + rest).take(at) =~= first);
            assert((before + separator + after).take(at) =~= before);
            assert((first + separator + rest).skip(at + separator.len()) =~= rest);
            assert((before + separator + after).skip(at + separator.len()) =~= after);
        }
    }
}

/// The number that decimal digits stand for.
pub open spec fn number_read(digits: Seq<char>) -> int
    decreases digits.len(),
{
    if digits.len() == 0 {
        0
    } else {
        10 * number_read(digits.drop_last()) + (digits.last() as int - '0' as int)
    }
}

/// The characters of a number in decimal are digits, the first of them is not a zero unless it is
/// the only one, and reading them gives the number again.
pub proof fn law_decimal_text_reads_as_the_number(number: nat)
    ensures
        decimal_text(number).len() > 0,
        forall|i: int|
            0 <= i < decimal_text(number).len() ==> '0' <= #[trigger] decimal_text(number)[i]
                <= '9',
        decimal_text(number).len() > 1 ==> decimal_text(number)[0] != '0',
        number_read(decimal_text(number)) == number,
    decreases number,
{
    lemma_digit_text(number % 10);
    reveal_with_fuel(number_read, 2);
    if number < 10 {
        assert(digit_text(number).drop_last() =~= Seq::empty());
    } else {
        law_decimal_text_reads_as_the_number(number / 10);
        let (high, low) = (decimal_text(number / 10), digit_text(number % 10));
        assert((high + low).drop_last() =~= high);
        if high.len() == 1 && high[0] == '0' {
            assert(high.drop_last() =~= Seq::empty());
        }
    }
}

/// A digit is one character, as far above zero as the digit says.
proof fn lemma_digit_text(digit: nat)
    requires
        digit < 10,
    ensures
        digit_text(digit).len() == 1,
        digit_text(digit)[0] as int == '0' as int + digit,
{
    reveal_strlit("0");
    reveal_strlit("1");
    reveal_strlit("2");
    reveal_strlit("3");
    reveal_strlit("4");
    reveal_strlit("5");
    reveal_strlit("6");
    reveal_strlit("7");
    reveal_strlit("8");
    reveal_strlit("9");
}

/// Several strings have as many views, each that of the string at its place.
pub proof fn law_string_views_are_one_for_one(strings: Seq<String>)
    ensures
        string_views(strings).len() == strings.len(),
        forall|i: int|
            0 <= i < strings.len() ==> #[trigger] string_views(strings)[i] == strings[i]@,
{
}

/// Compares two strings, character by character.
pub fn same(left: &str, right: &str) -> (equal: bool)
    ensures
        equal == (left@ == right@),
{
    left.to_string() == right.to_string()
}

/// The characters of a string.
fn characters(text: &str) -> (chars: Vec<char>)
    ensures
        chars@ == text@,
{
    let mut chars: Vec<char> = Vec::new();
    for c in iter: text.chars()
        invariant
            iter.seq() == text@,
            chars@ == text@.take(iter.index()),
    {
        chars.push(c);
    }
    assert(text@.take(text@.len() as int) == text@);
    chars
}

/// Splits `text` at the first place where `separator` stands.
pub fn split_once(text: &str, separator: &str) -> (parts: Option<(String, String)>)
    ensures
        match parts {
            Some((before, after)) => first_split(text@, separator@) == Some((before@, after@)),
            None => first_split(text@, separator@) is None,
        },
{
    let chars = characters(text);
    let wanted = characters(separator);
    if wanted.len() > chars.len() {
        return None;
    }
    let last: usize = chars.len() - wanted.len();
    let mut at: usize = 0;
    loop
        invariant
            chars@ == text@,
            wanted@ == separator@,
            last == chars.len() - wanted.len(),
            at <= last,
            forall|before: int| 0 <= before < at ==> !occurs_at(text@, separator@, before),
        decreases last - at,
    {
        let mut matched: usize = 0;
        while matched < wanted.len() && chars[at + matched] == wanted[matched]
            invariant
                chars@ == text@,
                wanted@ == separator@,
                last == chars.len() - wanted.len(),
                at <= last,
                matched <= wanted.len(),
                forall|i: int| 0 <= i < matched ==> text@[at + i] == separator@[i],
            decreases wanted.len() - matched,
        {
            matched += 1;
        }
        if matched == wanted.len() {
            assert(text@.subrange(at as int, at + separator@.len()) =~= separator@);
            proof {
                lemma_first_split_at(text@, separator@, at as int);
            }
            let before = text.substring_char(0, at).to_string();
            let after = text.substring_char(at + wanted.len(), chars.len()).to_string();
            assert(before@ =~= text@.take(at as int));
            assert(after@ =~= text@.skip(at + separator@.len()));
            return Some((before, after));
        }
        assert(!occurs_at(text@, separator@, at as int)) by {
            if occurs_at(text@, separator@, at as int) {
                let here = text@.subrange(at as int, at + separator@.len());
                assert(here[matched as int] == text@[at + matched]);
            }
        }
        if at == last {
            return None;
        }
        at += 1;
    }
}

/// Writes one decimal digit.
fn digit(number: usize) -> (text: &'static str)
    requires
        number < 10,
    ensures
        text@ == digit_text(number as nat),
{
    if number == 0 {
        "0"
    } else if number == 1 {
        "1"
    } else if number == 2 {
        "2"
    } else if number == 3 {
        "3"
    } else if number == 4 {
        "4"
    } else if number == 5 {
        "5"
    } else if number == 6 {
        "6"
    } else if number == 7 {
        "7"
    } else if number == 8 {
        "8"
    } else {
        "9"
    }
}

/// Writes a number in decimal.
pub fn decimal(number: usize) -> (text: String)
    ensures
        text@ == decimal_text(number as nat),
    decreases number,
{
    if number < 10 {
        digit(number).to_string()
    } else {
        let mut text = decimal(number / 10);
        text.append(digit(number % 10));
        text
    }
}

} // verus!
