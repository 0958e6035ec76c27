//! Optional texts, and the decimal rendering of numbers in diagnostics.
use vstd::prelude::*;

verus! {

/// The characters of an optional text.
pub open spec fn text_view(text: Option<String>) -> Option<Seq<char>> {
    match text {
        Some(s) => Some(s@),
        None => None,
    }
}

/// The character of one decimal digit.
pub open spec fn digit_char(d: nat) -> char {
    (48 + d) as char
}

/// The decimal digits of `n`, most significant first, without leading zeroes.
pub open spec fn decimal_chars(n: nat) -> Seq<char>
    decreases n,
{
    if n < 10 {
        seq![digit_char(n)]
    } else {
        decimal_chars(n / 10).push(digit_char(n % 10))
    }
}

fn digit_text(d: u64) -> (r: &'static str)
    requires
        d < 10,
    ensures
        r@ == seq![digit_char(d as nat)],
{
    proof {
        reveal_strlit("0");
        reveal_strlit("1");
        reveal_strlit("2");
        reveal_strlit("3");
        reveal_strlit("4");
        reveal_strlit("5");
        reveal_strlit("6");
        reveal_strlit("7");
        reveal_strlit("8");
        reveal_strlit("9");
    }
    let text = match d {
        0 => "0",
        1 => "1",
        2 => "2",
        3 => "3",
        4 => "4",
        5 => "5",
        6 => "6",
        7 => "7",
        8 => "8",
        _ => "9",
    };
    assert(text@ =~= seq![digit_char(d as nat)]);
    text
}

/// Renders `n` in decimal.
pub fn decimal(n: u64) -> (r: String)
    ensures
        r@ == decimal_chars(n as nat),
    decreases n,
{
    let mut text = if n < 10 {
        String::new()
    } else {
        decimal(n / 10)
    };
    text.append(digit_text(n % 10));
    assert(text@ =~= decimal_chars(n as nat));
    text
}

/// The number that a text of decimal digits stands for.
pub open spec fn decimal_value(digits: Seq<char>) -> int
    decreases digits.len(),
{
    if digits.len() == 0 {
        0
    } else {
        decimal_value(digits.drop_last()) * 10 + (digits.last() as int - '0' as int)
    }
}

/// A number is rendered in the digits 0 to 9, without leading zeroes, and can be read back.
pub proof fn law_decimal_reads_back(n: nat)
    ensures
        decimal_value(decimal_chars(n)) == n,
        decimal_chars(n).len() > 0,
        forall|i: int|
            0 <= i < decimal_chars(n).len() ==> '0' <= #[trigger] decimal_chars(n)[i] <= '9',
        decimal_chars(n).len() > 1 ==> decimal_chars(n)[0] != '0',
    decreases n,
{
    reveal_with_fuel(decimal_value, 2);
    let text = decimal_chars(n);
    if n < 10 {
        assert(text.drop_last() =~= seq![]);
    } else {
        law_decimal_reads_back(n / 10);
        assert(text.drop_last() =~= decimal_chars(n / 10));
        if decimal_chars(n / 10).len() == 1 {
            assert(decimal_chars(n / 10).drop_last() =~= seq![]);
        }
    }
}

/// An optional text keeps whether it is there, and its characters.
pub proof fn law_text_view(text: Option<String>)
    ensures
        text is None ==> text_view(text) == None::<Seq<char>>,
        text matches Some(s) ==> text_view(text) == Some(s@),
{
}

} // verus!
