//! Text for fixed-width display: decimal numbers and padding with blanks.

use vstd::prelude::*;
use vstd::string::*;

verus! {

/// `count` blanks.
pub open spec fn blanks(count: nat) -> Seq<char> {
    Seq::new(count, |i: int| ' ')
}

/// `text` followed by as many blanks as it is shorter than `width`.
pub open spec fn padded(text: Seq<char>, width: nat) -> Seq<char> {
    if text.len() < width {
        text + blanks((width - text.len()) as nat)
    } else {
        text
    }
}

/// The length of the longest of `texts`; zero when there is none.
pub open spec fn longest(texts: Seq<Seq<char>>) -> nat
    decreases texts.len(),
{
    if texts.len() == 0 {
        0
    } else {
        let rest = longest(texts.drop_last());
        if texts.last().len() > rest {
            texts.last().len()
        } else {
            rest
        }
    }
}

/// The character of a decimal digit.
pub open spec fn digit_char(digit: int) -> char {
    if digit == 0 {
        '0'
    } else if digit == 1 {
        '1'
    } else if digit == 2 {
        '2'
    } else if digit == 3 {
        '3'
    } else if digit == 4 {
        '4'
    } else if digit == 5 {
        '5'
    } else if digit == 6 {
        '6'
    } else if digit == 7 {
        '7'
    } else if digit == 8 {
        '8'
    } else {
        '9'
    }
}

/// The decimal digits of `value`, without leading zeros; "0" for zero.
pub open spec fn decimal(value: nat) -> Seq<char>
    decreases value,
{
    if value < 10 {
        seq![digit_char(value as int)]
    } else {
        decimal(value / 10).push(digit_char((value % 10) as int))
    }
}

/// `hundredths` as a decimal number with two places after the point.
pub open spec fn two_places(hundredths: nat) -> Seq<char> {
    decimal(hundredths / 100) + seq!['.', digit_char((hundredths / 10 % 10) as int), digit_char(
        (hundredths % 10) as int,
    )]
}

/// No text among `texts` is longer than the longest.
pub proof fn lemma_longest_bounds(texts: Seq<Seq<char>>, i: int)
    requires
        0 <= i < texts.len(),
    ensures
        texts[i].len() <= longest(texts),
    decreases texts.len(),
{
    if i < texts.len() - 1 {
        lemma_longest_bounds(texts.drop_last(), i);
    }
}

/// Padded to a width that it does not exceed, a text has that width.
pub proof fn lemma_padded_len(text: Seq<char>, width: nat)
    ensures
        padded(text, width).len() == if text.len() < width {
            width
        } else {
            text.len()
        },
{
}

fn digit_text(digit: u64) -> (text: &'static str)
    requires
        digit < 10,
    ensures
        text@ == seq![digit_char(digit as int)],
{
    proof {
        reveal_strlit("0");
        reveal_strlit("1");
        reveal_strlit("2");
        reveal_strlit("3");
        reveal_strlit("4");
        reveal_strlit("5");
        reveal_strlit("6");
        reveal_strlit("7");
        reveal_strlit("8");
        reveal_strlit("9");
    }
    let text = if digit == 0 {
        "0"
    } else if digit == 1 {
        "1"
    } else if digit == 2 {
        "2"
    } else if digit == 3 {
        "3"
    } else if digit == 4 {
        "4"
    } else if digit == 5 {
        "5"
    } else if digit == 6 {
        "6"
    } else if digit == 7 {
        "7"
    } else if digit == 8 {
        "8"
    } else {
        "9"
    };
    assert(text@ =~= seq![digit_char(digit as int)]);
    text
}

/// The decimal digits of `value`.
pub fn decimal_text(value: u64) -> (text: String)
    ensures
        text@ == decimal(value as nat),
    decreases value,
{
    if value < 10 {
        String::from_str(digit_text(value))
    } else {
        let mut text = decimal_text(value / 10);
        text.append(digit_text(value % 10));
        assert(text@ =~= decimal(value as nat));
        text
    }
}

/// `hundredths` as a decimal number with two places after the point.
pub fn two_places_text(hundredths: u64) -> (text: String)
    ensures
        text@ == two_places(hundredths as nat),
{
    proof {
        reveal_strlit(".");
    }
    let mut text = decimal_text(hundredths / 100);
    text.append(".");
    text.append(digit_text(hundredths / 10 % 10));
    text.append(digit_text(hundredths % 10));
    assert(text@ =~= two_places(hundredths as nat));
    text
}

/// `text` followed by as many blanks as it is shorter than `width`.
pub fn pad_right(text: &String, width: usize) -> (wide: String)
    ensures
        wide@ == padded(text@, width as nat),
{
    proof {
        reveal_strlit(" ");
    }
    let mut wide = text.clone();
    let mut length: usize = text.as_str().unicode_len();
    while length < width
        invariant
            " "@ == seq![' '],
            text@.len() <= length,
            length <= width || length == text@.len(),
            wide@ == text@ + blanks((length - text@.len()) as nat),
        decreases width - length,
    {
        wide.append(" ");
        length = length + 1;
        assert(wide@ =~= text@ + blanks((length - text@.len()) as nat));
    }
    assert(wide@ =~= padded(text@, width as nat));
    wide
}

/// The length of the longest of `texts`.
pub fn longest_length(texts: &Vec<String>) -> (length: usize)
    ensures
        length == longest(texts.deep_view()),
{
    let mut length: usize = 0;
    let mut i: usize = 0;
    while i < texts.len()
        invariant
            i <= texts.len(),
            length == longest(texts.deep_view().take(i as int)),
        decreases texts.len() - i,
    {
        let here = texts[i].as_str().unicode_len();
        assert(texts.deep_view().take(i + 1).drop_last() =~= texts.deep_view().take(i as int));
        if here > length {
            length = here;
        }
        i = i + 1;
    }
    assert(texts.deep_view().take(i as int) =~= texts.deep_view());
    length
}

/// Every text padded with blanks to the length of the longest of them.
pub fn pad_all(texts: &Vec<String>) -> (wide: Vec<String>)
    ensures
        wide@.len() == texts@.len(),
        forall|i: int|
            0 <= i < texts@.len() ==> (#[trigger] wide@[i])@ == padded(
                texts@[i]@,
                longest(texts.deep_view()),
            ),
        forall|i: int|
            0 <= i < texts@.len() ==> (#[trigger] wide@[i])@.len() == longest(texts.deep_view()),
{
    let width = longest_length(texts);
    let mut wide: Vec<String> = Vec::new();
    let mut i: usize = 0;
    while i < texts.len()
        invariant
            i <= texts.len(),
            width == longest(texts.deep_view()),
            wide@.len() == i,
            forall|j: int| 0 <= j < i ==> (#[trigger] wide@[j])@ == padded(texts@[j]@, width as nat),
            forall|j: int| 0 <= j < i ==> (#[trigger] wide@[j])@.len() == width,
        decreases texts.len() - i,
    {
        let one = pad_right(&texts[i], width);
        proof {
            lemma_longest_bounds(texts.deep_view(), i as int);
            lemma_padded_len(texts@[i as int]@, width as nat);
        }
        wide.push(one);
        i = i + 1;
    }
    wide
}

} // verus!
