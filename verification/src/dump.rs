//! A machine as text.

use vstd::prelude::*;
use vstd::string::StringExecFns;
use crate::machine::{Action, Regex, SYMBOL_SPACE};

verus! {

/// The character of one decimal digit.
pub open spec fn digit(value: int) -> char {
    if value == 0 {
        '0'
    } else if value == 1 {
        '1'
    } else if value == 2 {
        '2'
    } else if value == 3 {
        '3'
    } else if value == 4 {
        '4'
    } else if value == 5 {
        '5'
    } else if value == 6 {
        '6'
    } else if value == 7 {
        '7'
    } else if value == 8 {
        '8'
    } else {
        '9'
    }
}

/// A number in decimal, without leading zeros.
pub open spec fn decimal(value: nat) -> Seq<char>
    decreases value,
{
    if value < 10 {
        seq![digit(value as int)]
    } else {
        decimal(value / 10).push(digit(value as int % 10))
    }
}

/// A number in decimal, with zeros in front of it up to a width of three.
pub open spec fn padded(value: nat) -> Seq<char> {
    if value < 10 {
        seq!['0', '0'] + decimal(value)
    } else if value < 100 {
        seq!['0'] + decimal(value)
    } else {
        decimal(value)
    }
}

/// One action as text: `(next, offset)`.
pub open spec fn cell_text(action: Action) -> Seq<char> {
    seq!['('] + decimal(action.next as nat) + seq![',', ' '] + decimal(action.offset as nat)
        + seq![')']
}

/// The cells of the first `count` columns for the symbol code `code`.
pub open spec fn cells_text(table: Seq<Seq<Action>>, code: int, count: int) -> Seq<char>
    decreases count,
{
    if count <= 0 {
        Seq::empty()
    } else {
        cells_text(table, code, count - 1) + cell_text(table[count - 1][code])
    }
}

/// The line of one symbol code: the code, ` => `, and one cell per column.
pub open spec fn row_text(table: Seq<Seq<Action>>, code: int) -> Seq<char> {
    padded(code as nat) + seq![' ', '=', '>', ' '] + cells_text(table, code, table.len() as int)
        + seq!['\n']
}

/// The lines of the first `count` symbol codes.
pub open spec fn rows_text(table: Seq<Seq<Action>>, count: int) -> Seq<char>
    decreases count,
{
    if count <= 0 {
        Seq::empty()
    } else {
        rows_text(table, count - 1) + row_text(table, count - 1)
    }
}

/// A table as text: one line per symbol code, in order.
pub open spec fn dump_text(table: Seq<Seq<Action>>) -> Seq<char> {
    rows_text(table, SYMBOL_SPACE as int)
}

/// One decimal digit as a string.
fn digit_text(value: usize) -> (text: &'static str)
    requires
        value < 10,
    ensures
        text@ == seq![digit(value as int)],
{
    proof {
        reveal_strlit("0");
        reveal_strlit("1");
        reveal_strlit("2");
        reveal_strlit("3");
        reveal_strlit("4");
        reveal_strlit("5");
        reveal_strlit("6");
        reveal_strlit("7");
        reveal_strlit("8");
        reveal_strlit("9");
    }
    let text = match value {
        0 => "0",
        1 => "1",
        2 => "2",
        3 => "3",
        4 => "4",
        5 => "5",
        6 => "6",
        7 => "7",
        8 => "8",
        _ => "9",
    };
    text
}

/// Appends a number in decimal.
fn push_decimal(text: &mut String, value: usize)
    ensures
        final(text)@ == old(text)@ + decimal(value as nat),
    decreases value,
{
    if value >= 10 {
        push_decimal(text, value / 10);
    }
    text.append(digit_text(value % 10));
}

/// Appends a number in decimal, at least three characters wide.
fn push_padded(text: &mut String, value: usize)
    ensures
        final(text)@ == old(text)@ + padded(value as nat),
{
    proof {
        reveal_strlit("0");
    }
    if value < 100 {
        text.append("0");
    }
    if value < 10 {
        text.append("0");
    }
    push_decimal(text, value);
}

impl Regex {
    /// The table as text, for reading: one line per symbol code, and in it
    /// one cell `(next, offset)` per column.
    pub fn dump(&self) -> (text: String)
        ensures
            text@ == dump_text(self@),
    {
        let mut text = String::new();
        for code in 0..SYMBOL_SPACE
            invariant
                text@ == rows_text(self@, code as int),
        {
            proof {
                reveal_strlit(" => ");
                reveal_strlit("\n");
            }
            push_padded(&mut text, code);
            text.append(" => ");
            let ghost start = text@;
            for state in 0..self.columns.len()
                invariant
                    code < SYMBOL_SPACE,
                    text@ == start + cells_text(self@, code as int, state as int),
            {
                let ghost cells = text@;
                proof {
                    reveal_strlit("(");
                    reveal_strlit(", ");
                    reveal_strlit(")");
                }
                let action = self.columns[state].transition[code];
                text.append("(");
                push_decimal(&mut text, action.next);
                text.append(", ");
                push_decimal(&mut text, action.offset);
                text.append(")");
                assert(text@ =~= cells + cell_text(action@));
            }
            text.append("\n");
        }
        text
    }
}

} // verus!
