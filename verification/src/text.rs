//! How a summary of named numbers is written out.

use vstd::prelude::*;
use vstd::string::StringExecFns;

verus! {

/// The decimal digit for a number below ten.
pub open spec fn digit(n: nat) -> char {
    ('0' as nat + n) as char
}

/// A number in decimal notation.
pub open spec fn decimal(n: nat) -> Seq<char>
    decreases n,
{
    if n < 10 {
        seq![digit(n)]
    } else {
        decimal(n / 10).push(digit(n % 10))
    }
}

/// Named numbers, separated by commas.
pub open spec fn listed(fields: Seq<(Seq<char>, nat)>) -> Seq<char>
    decreases fields.len(),
{
    if fields.len() == 0 {
        Seq::empty()
    } else {
        let (name, value) = fields.last();
        let separator = if fields.len() == 1 {
            Seq::empty()
        } else {
            ", "@
        };
        listed(fields.drop_last()) + separator + name + ": "@ + decimal(value)
    }
}

/// A structure of named numbers: its name, and the numbers in braces.
pub open spec fn structure(name: Seq<char>, fields: Seq<(Seq<char>, nat)>) -> Seq<char> {
    name + " { "@ + listed(fields) + " }"@
}

/// Writes the digit for a number below ten.
fn append_digit(text: &mut String, n: usize)
    requires
        n < 10,
    ensures
        final(text)@ == old(text)@.push(digit(n as nat)),
{
    let digits = if n == 0 {
        "0"
    } else if n == 1 {
        "1"
    } else if n == 2 {
        "2"
    } else if n == 3 {
        "3"
    } else if n == 4 {
        "4"
    } else if n == 5 {
        "5"
    } else if n == 6 {
        "6"
    } else if n == 7 {
        "7"
    } else if n == 8 {
        "8"
    } else {
        "9"
    };
    proof {
        reveal_strlit("0");
        reveal_strlit("1");
        reveal_strlit("2");
        reveal_strlit("3");
        reveal_strlit("4");
        reveal_strlit("5");
        reveal_strlit("6");
        reveal_strlit("7");
        reveal_strlit("8");
        reveal_strlit("9");
    }
    text.append(digits);
    assert(digits@ == seq![digit(n as nat)]);
}

/// Writes a number in decimal notation.
pub(crate) fn append_decimal(text: &mut String, n: usize)
    ensures
        final(text)@ == old(text)@ + decimal(n as nat),
    decreases n,
{
    if n >= 10 {
        append_decimal(text, n / 10);
    }
    append_digit(text, n % 10);
}

/// What the fields of a structure are.
pub open spec fn fields_view(fields: Seq<(&'static str, usize)>) -> Seq<(Seq<char>, nat)> {
    fields.map_values(|field: (&'static str, usize)| (field.0@, field.1 as nat))
}

/// Writes out a structure of named numbers.
pub(crate) fn structure_text(name: &str, fields: &Vec<(&'static str, usize)>) -> (text: String)
    ensures
        text@ == structure(name@, fields_view(fields@)),
{
    let mut text = String::new();
    text.append(name);
    text.append(" { ");
    let ghost all = fields_view(fields@);
    let mut i: usize = 0;
    assert(all.take(0) == Seq::<(Seq<char>, nat)>::empty());
    while i < fields.len()
        invariant
            i <= fields@.len(),
            all == fields_view(fields@),
            text@ == name@ + " { "@ + listed(all.take(i as int)),
        decreases fields@.len() - i,
    {
        let ghost before = text@;
        if i > 0 {
            text.append(", ");
        }
        text.append(fields[i].0);
        text.append(": ");
        append_decimal(&mut text, fields[i].1);
        proof {
            let next = all.take(i as int + 1);
            assert(next.drop_last() == all.take(i as int));
            assert(next.last() == (fields@[i as int].0@, fields@[i as int].1 as nat));
            assert(text@ == name@ + " { "@ + listed(next));
        }
        i = i + 1;
    }
    assert(all.take(i as int) == all);
    text.append(" }");
    text
}

} // verus!
