//! How the values of each domain read in a report.

use vstd::prelude::*;
use vstd::string::*;

verus! {

/// The text of one decimal digit.
pub open spec fn digit(value: int) -> Seq<char> {
    if value == 0 {
        "0"@
    } else if value == 1 {
        "1"@
    } else if value == 2 {
        "2"@
    } else if value == 3 {
        "3"@
    } else if value == 4 {
        "4"@
    } else if value == 5 {
        "5"@
    } else if value == 6 {
        "6"@
    } else if value == 7 {
        "7"@
    } else if value == 8 {
        "8"@
    } else {
        "9"@
    }
}

/// A natural number in decimal, without leading zeros.
pub open spec fn decimal(value: nat) -> Seq<char>
    decreases value,
{
    if value < 10 {
        digit(value as int)
    } else {
        decimal(value / 10) + digit((value % 10) as int)
    }
}

/// An integer in decimal, with a minus sign where it is negative.
pub open spec fn signed_decimal(value: int) -> Seq<char> {
    if value < 0 {
        "-"@ + decimal((-value) as nat)
    } else {
        decimal(value as nat)
    }
}

/// The parts in order, with a comma and a space between each two.
pub open spec fn joined(parts: Seq<Seq<char>>) -> Seq<char>
    decreases parts.len(),
{
    if parts.len() == 0 {
        Seq::empty()
    } else if parts.len() == 1 {
        parts[0]
    } else {
        joined(parts.drop_last()) + ", "@ + parts.last()
    }
}

/// Joining one part more: the first part stands alone, every later one
/// follows a comma and a space.
pub proof fn lemma_joined_take(parts: Seq<Seq<char>>, count: int)
    requires
        0 <= count < parts.len(),
    ensures
        joined(parts.take(count + 1)) == if count == 0 {
            parts[0]
        } else {
            joined(parts.take(count)) + ", "@ + parts[count]
        },
{
    let longer = parts.take(count + 1);
    assert(longer.len() == count + 1);
    assert(longer.last() == parts[count]);
    assert(longer.drop_last() =~= parts.take(count));
    if count == 0 {
        assert(longer[0] == parts[0]);
    }
}

/// A value that a report can show.
pub trait Render: View {
    /// The text that stands for a value, given as a mathematical value.
    spec fn text(value: Self::V) -> Seq<char>;

    /// Writes the value out.
    fn render(&self) -> (text: String)
        ensures
            text@ == Self::text(self@),
    ;
}

fn digit_text(value: u64) -> (text: &'static str)
    requires
        value < 10,
    ensures
        text@ == digit(value as int),
{
    if value == 0 {
        "0"
    } else if value == 1 {
        "1"
    } else if value == 2 {
        "2"
    } else if value == 3 {
        "3"
    } else if value == 4 {
        "4"
    } else if value == 5 {
        "5"
    } else if value == 6 {
        "6"
    } else if value == 7 {
        "7"
    } else if value == 8 {
        "8"
    } else {
        "9"
    }
}

/// Writes a natural number in decimal.
pub fn render_decimal(value: u64) -> (text: String)
    ensures
        text@ == decimal(value as nat),
    decreases value,
{
    if value < 10 {
        digit_text(value).to_owned()
    } else {
        let mut text = render_decimal(value / 10);
        text.append(digit_text(value % 10));
        text
    }
}

/// Writes an integer in decimal.
pub fn render_signed_decimal(value: i64) -> (text: String)
    ensures
        text@ == signed_decimal(value as int),
{
    if value < 0 {
        let magnitude: u64 = (-(value + 1)) as u64 + 1;
        let mut text = "-".to_owned();
        let digits = render_decimal(magnitude);
        text.append(digits.as_str());
        text
    } else {
        render_decimal(value as u64)
    }
}

impl Render for u16 {
    open spec fn text(value: u16) -> Seq<char> {
        decimal(value as nat)
    }

    fn render(&self) -> (text: String) {
        render_decimal(*self as u64)
    }
}

impl Render for u64 {
    open spec fn text(value: u64) -> Seq<char> {
        decimal(value as nat)
    }

    fn render(&self) -> (text: String) {
        render_decimal(*self)
    }
}

} // verus!
