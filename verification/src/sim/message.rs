//! The wording of the errors that selection and simulation report.

use vstd::prelude::*;
use vstd::string::StringExecFns;

verus! {

/// The character that stands for the digit `d`.
pub open spec fn digit_char(d: nat) -> char {
    if d == 0 {
        '0'
    } else if d == 1 {
        '1'
    } else if d == 2 {
        '2'
    } else if d == 3 {
        '3'
    } else if d == 4 {
        '4'
    } else if d == 5 {
        '5'
    } else if d == 6 {
        '6'
    } else if d == 7 {
        '7'
    } else if d == 8 {
        '8'
    } else {
        '9'
    }
}

/// The decimal numeral of `n`: its digits, most significant first, with no
/// leading zero except for zero itself.
pub open spec fn decimal(n: nat) -> Seq<char>
    decreases n,
{
    if n < 10 {
        seq![digit_char(n)]
    } else {
        decimal(n / 10).push(digit_char(n % 10))
    }
}

/// What is said of a `count` that a selector cannot work with.
pub open spec fn count_error_text(count: usize) -> Seq<char> {
    "Invalid parameter `count`: "@ + decimal(count as nat)
        + ". Should be larger than zero, a multiple of two and less than half the population size."@
}

/// What is said of a number of `participants` that a tournament cannot be
/// held with.
pub open spec fn participants_error_text(participants: usize) -> Seq<char> {
    "Invalid parameter `participants`: "@ + decimal(participants as nat)
        + ". Should be larger than one and less than the population size."@
}

/// What is said when a simulator has nobody to work on.
pub open spec fn empty_population_text() -> Seq<char> {
    "Tried to run a simulator without a population, or the population was empty."@
}

/// The numeral of one digit.
fn digit_text(d: usize) -> (s: &'static str)
    requires
        d < 10,
    ensures
        s@ == seq![digit_char(d as nat)],
{
    proof {
        reveal_strlit("0");
        reveal_strlit("1");
        reveal_strlit("2");
        reveal_strlit("3");
        reveal_strlit("4");
        reveal_strlit("5");
        reveal_strlit("6");
        reveal_strlit("7");
        reveal_strlit("8");
        reveal_strlit("9");
    }
    let s = if d == 0 {
        "0"
    } else if d == 1 {
        "1"
    } else if d == 2 {
        "2"
    } else if d == 3 {
        "3"
    } else if d == 4 {
        "4"
    } else if d == 5 {
        "5"
    } else if d == 6 {
        "6"
    } else if d == 7 {
        "7"
    } else if d == 8 {
        "8"
    } else {
        "9"
    };
    assert(s@ =~= seq![digit_char(d as nat)]);
    s
}

/// Writes `n` as a decimal numeral.
pub fn decimal_string(n: usize) -> (s: String)
    ensures
        s@ == decimal(n as nat),
    decreases n,
{
    if n < 10 {
        String::from_str(digit_text(n))
    } else {
        let mut s = decimal_string(n / 10);
        s.append(digit_text(n % 10));
        assert(s@ =~= decimal((n / 10) as nat).push(digit_char((n % 10) as nat)));
        s
    }
}

/// The error for an unusable `count`.
pub fn count_error(count: usize) -> (s: String)
    ensures
        s@ == count_error_text(count),
{
    let mut s = String::from_str("Invalid parameter `count`: ");
    let numeral = decimal_string(count);
    s.append(numeral.as_str());
    s.append(
        ". Should be larger than zero, a multiple of two and less than half the population size.",
    );
    s
}

/// The error for an unusable number of `participants`.
pub fn participants_error(participants: usize) -> (s: String)
    ensures
        s@ == participants_error_text(participants),
{
    let mut s = String::from_str("Invalid parameter `participants`: ");
    let numeral = decimal_string(participants);
    s.append(numeral.as_str());
    s.append(". Should be larger than one and less than the population size.");
    s
}

/// The error for an empty population.
pub fn empty_population_error() -> (s: String)
    ensures
        s@ == empty_population_text(),
{
    String::from_str("Tried to run a simulator without a population, or the population was empty.")
}

} // verus!
