//! Strings as sequences of characters, and the few ways in which the library
//! puts text together.

use vstd::prelude::*;
use vstd::string::StringExecFns;

verus! {

/// The contents of a list of strings.
pub open spec fn texts(names: Seq<String>) -> Seq<Seq<char>> {
    names.map_values(|name: String| name@)
}

/// The contents of an optional string.
pub open spec fn optional_text(key: Option<String>) -> Option<Seq<char>> {
    match key {
        Some(name) => Some(name@),
        None => None,
    }
}

/// The contents of a list of optional strings.
pub open spec fn optional_texts(keys: Seq<Option<String>>) -> Seq<Option<Seq<char>>> {
    keys.map_values(|key: Option<String>| optional_text(key))
}

/// The numeral of a digit.
pub open spec fn digit_text(digit: nat) -> Seq<char> {
    if digit == 0 {
        "0"@
    } else if digit == 1 {
        "1"@
    } else if digit == 2 {
        "2"@
    } else if digit == 3 {
        "3"@
    } else if digit == 4 {
        "4"@
    } else if digit == 5 {
        "5"@
    } else if digit == 6 {
        "6"@
    } else if digit == 7 {
        "7"@
    } else if digit == 8 {
        "8"@
    } else {
        "9"@
    }
}

/// A number in decimal notation, without leading zeros.
pub open spec fn decimal(number: nat) -> Seq<char>
    decreases number,
{
    if number < 10 {
        digit_text(number)
    } else {
        decimal(number / 10) + digit_text(number % 10)
    }
}

/// The number of digits of a number in decimal notation.
pub open spec fn places(number: nat) -> nat
    decreases number,
{
    if number < 10 {
        1
    } else {
        places(number / 10) + 1
    }
}

/// So many zeros.
pub open spec fn zeros(count: nat) -> Seq<char>
    decreases count,
{
    if count == 0 {
        Seq::empty()
    } else {
        zeros((count - 1) as nat) + "0"@
    }
}

/// A number in decimal notation, with zeros in front of it where it has fewer
/// than `width` digits.
pub open spec fn padded(number: nat, width: nat) -> Seq<char> {
    if places(number) < width {
        zeros((width - places(number)) as nat) + decimal(number)
    } else {
        decimal(number)
    }
}

/// The pieces of a list, with `separator` between each two.
pub open spec fn joined(pieces: Seq<Seq<char>>, separator: Seq<char>) -> Seq<char>
    decreases pieces.len(),
{
    if pieces.len() == 0 {
        Seq::empty()
    } else if pieces.len() == 1 {
        pieces[0]
    } else {
        joined(pieces.drop_last(), separator) + separator + pieces.last()
    }
}

/// The list that holds a piece if there is one.
pub open spec fn present(piece: Option<Seq<char>>) -> Seq<Seq<char>> {
    match piece {
        Some(text) => seq![text],
        None => Seq::empty(),
    }
}

/// The pieces joined by `separator`, or nothing where there is no piece.
pub open spec fn joined_if_any(pieces: Seq<Seq<char>>, separator: Seq<char>) -> Option<Seq<char>> {
    if pieces.len() == 0 {
        None
    } else {
        Some(joined(pieces, separator))
    }
}

/// Digits, the lowest first, read as a numeral.
pub open spec fn numeral(digits: Seq<u8>) -> Seq<char>
    decreases digits.len(),
{
    if digits.len() == 0 {
        Seq::empty()
    } else {
        digit_text(digits.last() as nat) + numeral(digits.drop_last())
    }
}

fn digit_name(digit: u8) -> (name: &'static str)
    requires
        digit < 10,
    ensures
        name@ == digit_text(digit as nat),
{
    if digit == 0 {
        "0"
    } else if digit == 1 {
        "1"
    } else if digit == 2 {
        "2"
    } else if digit == 3 {
        "3"
    } else if digit == 4 {
        "4"
    } else if digit == 5 {
        "5"
    } else if digit == 6 {
        "6"
    } else if digit == 7 {
        "7"
    } else if digit == 8 {
        "8"
    } else {
        "9"
    }
}

/// The digits of a positive number, the lowest first.
fn digits_of(number: usize) -> (digits: Vec<u8>)
    requires
        number > 0,
    ensures
        numeral(digits@) == decimal(number as nat),
        digits@.len() == places(number as nat),
        forall|i: int| 0 <= i < digits@.len() ==> digits@[i] < 10,
{
    let mut digits: Vec<u8> = Vec::new();
    digits.push((number % 10) as u8);
    let mut rest: usize = number / 10;
    assert(digits@.drop_last() =~= Seq::<u8>::empty());
    assert(numeral(Seq::<u8>::empty()) =~= Seq::<char>::empty());
    assert(digits@.last() == number % 10);
    assert(numeral(digits@) =~= digit_text((number % 10) as nat));
    while rest > 0
        invariant
            digits@.len() > 0,
            decimal(number as nat) == if rest > 0 {
                decimal(rest as nat) + numeral(digits@)
            } else {
                numeral(digits@)
            },
            places(number as nat) == if rest > 0 {
                places(rest as nat) + digits@.len()
            } else {
                digits@.len()
            },
            forall|i: int| 0 <= i < digits@.len() ==> digits@[i] < 10,
        decreases rest,
    {
        let ghost before = digits@;
        let digit = (rest % 10) as u8;
        digits.push(digit);
        assert(digits@.drop_last() =~= before);
        assert(decimal(rest as nat) + numeral(before) =~= if rest >= 10 {
            decimal((rest / 10) as nat) + numeral(digits@)
        } else {
            numeral(digits@)
        });
        rest = rest / 10;
    }
    digits
}

/// Writes a number in decimal notation, with zeros in front of it where it
/// has fewer than `width` digits.
pub fn pad(number: usize, width: usize) -> (text: String)
    ensures
        text@ == padded(number as nat, width as nat),
{
    let mut text = String::new();
    if number == 0 {
        let mut i: usize = 1;
        while i < width
            invariant
                1 <= i,
                i <= width || i == 1,
                text@ == zeros((i - 1) as nat),
            decreases width - i,
        {
            text.append("0");
            i = i + 1;
        }
        assert(decimal(0) == "0"@);
        assert(places(0) == 1);
        assert(zeros(0) =~= Seq::<char>::empty());
        if 1 < width {
            assert(i == width);
            assert(padded(0, width as nat) == zeros((width - 1) as nat) + decimal(0));
        } else {
            assert(i == 1);
            assert(padded(0, width as nat) == decimal(0));
            assert(text@ + "0"@ =~= "0"@);
        }
        text.append("0");
        return text;
    }
    let digits = digits_of(number);
    let mut i: usize = digits.len();
    while i < width
        invariant
            digits@.len() <= i,
            i <= width || i == digits@.len(),
            text@ == zeros((i - digits@.len()) as nat),
        decreases width - i,
    {
        text.append("0");
        i = i + 1;
    }
    let ghost front = text@;
    let mut k: usize = digits.len();
    assert(digits@.take(k as int) =~= digits@);
    assert(zeros(0) =~= Seq::<char>::empty());
    while k > 0
        invariant
            k <= digits@.len(),
            forall|i: int| 0 <= i < digits@.len() ==> digits@[i] < 10,
            text@ + numeral(digits@.take(k as int)) == front + numeral(digits@),
        decreases k,
    {
        k = k - 1;
        proof {
            assert(digits@.take(k + 1).drop_last() =~= digits@.take(k as int));
            assert(text@ + (digit_text(digits@[k as int] as nat) + numeral(digits@.take(k as int)))
                =~= text@ + digit_text(digits@[k as int] as nat) + numeral(digits@.take(k as int)));
        }
        text.append(digit_name(digits[k]));
    }
    proof {
        assert(numeral(digits@.take(0)) =~= Seq::<char>::empty());
        assert(text@ + Seq::<char>::empty() =~= text@);
        assert(Seq::<char>::empty() + decimal(number as nat) =~= decimal(number as nat));
    }
    text
}

/// Writes a number in decimal notation.
pub fn number(value: usize) -> (text: String)
    ensures
        text@ == decimal(value as nat),
{
    pad(value, 0)
}

/// Adds a piece to a text that holds pieces joined by `separator`.
pub fn add_piece(text: &mut String, count: usize, separator: &str, piece: &str)
    ensures
        final(text)@ == if count == 0 {
            old(text)@ + piece@
        } else {
            old(text)@ + separator@ + piece@
        },
{
    if count > 0 {
        text.append(separator);
    }
    text.append(piece);
}

/// A list of pieces with one more piece is joined as the list, then the
/// separator and the piece; a first piece stands alone.
pub proof fn lemma_joined_push(pieces: Seq<Seq<char>>, separator: Seq<char>, piece: Seq<char>)
    ensures
        joined(pieces.push(piece), separator) == if pieces.len() == 0 {
            piece
        } else {
            joined(pieces, separator) + separator + piece
        },
{
    assert(pieces.push(piece).drop_last() =~= pieces);
}

} // verus!
