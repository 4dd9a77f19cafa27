//! Walking a table over an input.

use vstd::prelude::*;
use crate::machine::{
    lemma_code_not_negative, symbol_code, well_formed_table, Action, Regex, RegexError, END_OF_INPUT, SYMBOL_SPACE,
};

verus! {

/// How far a walk in `state` is from the last column; 0 where the walk is
/// over.
pub open spec fn columns_ahead(table: Seq<Seq<Action>>, state: int) -> int {
    if 0 < state < table.len() {
        table.len() - state
    } else {
        0
    }
}

/// The state in which a walk comes to rest that is in `state` with
/// `input[head..]` still to read. The walk takes a step for as long as it is
/// in a column other than column 0 and a character is left: it looks up the
/// action of that character in that column, goes to the action's state and
/// moves on by the action's offset. A character without an entry ends the
/// walk with an error.
pub open spec fn walk(table: Seq<Seq<Action>>, state: int, input: Seq<char>, head: int) -> Result<
    int,
    RegexError,
>
    decreases input.len() - head, columns_ahead(table, state),
    when well_formed_table(table) && 0 <= head
{
    if 0 < state < table.len() && head < input.len() {
        let code = input[head] as int;
        proof {
            lemma_code_not_negative(input[head]);
        }
        if code >= SYMBOL_SPACE {
            Err(RegexError::SymbolOutOfRange)
        } else {
            let action = table[state][code];
            walk(table, action.next, input, head + action.offset)
        }
    } else {
        Ok(state)
    }
}

/// Whether a walk that came to rest in `state` has matched: it has if it
/// left the table at its far end, or if it stands in a column whose entry for
/// the end of the input leads there.
pub open spec fn accepts(table: Seq<Seq<Action>>, state: int) -> bool {
    &&& state > 0
    &&& state >= table.len() || table[state][END_OF_INPUT as int].next >= table.len()
}

/// The result of a walk that is in `state` with `input[head..]` still to
/// read.
pub open spec fn verdict_from(
    table: Seq<Seq<Action>>,
    state: int,
    input: Seq<char>,
    head: int,
) -> Result<bool, RegexError> {
    match walk(table, state, input, head) {
        Ok(rest) => Ok(accepts(table, rest)),
        Err(error) => Err(error),
    }
}

/// The result of matching `input` against a table: the walk starts in
/// column 1 at the first character.
pub open spec fn verdict(table: Seq<Seq<Action>>, input: Seq<char>) -> Result<bool, RegexError> {
    verdict_from(table, 1, input, 0)
}

/// The characters of a string.
fn characters(input: &str) -> (chars: Vec<char>)
    ensures
        chars@ == input@,
{
    let mut chars: Vec<char> = Vec::new();
    for ch in it: input.chars()
        invariant
            it.seq() == input@,
            chars@ == it.seq().take(it.index() as int),
    {
        chars.push(ch);
    }
    chars
}

impl Regex {
    /// Matches an input against the machine.
    ///
    /// The walk starts in column 1 and stops when it rejects, when it has
    /// left the table, or when the input is used up; what is left of the
    /// input once the walk has left the table is not looked at. A character
    /// that the walk comes to and that has no entry in a column is an error.
    pub fn match_str(&self, input: &str) -> (result: Result<bool, RegexError>)
        ensures
            result == verdict(self@, input@),
    {
        proof {
            use_type_invariant(self);
        }
        let chars = characters(input);
        let column_len: usize = self.columns.len();
        let mut state: usize = 1;
        let mut head: usize = 0;
        while 0 < state && state < column_len && head < chars.len()
            invariant
                well_formed_table(self@),
                column_len == self@.len(),
                chars@ == input@,
                head <= chars.len(),
                walk(self@, state as int, input@, head as int) == walk(self@, 1, input@, 0),
            decreases chars.len() - head, columns_ahead(self@, state as int),
        {
            let code: usize = symbol_code(chars[head]);
            if code >= SYMBOL_SPACE {
                return Err(RegexError::SymbolOutOfRange);
            }
            let action = self.columns[state].transition[code];
            state = action.next;
            head = head + action.offset;
        }
        if state == 0 {
            return Ok(false);
        }
        if state < column_len {
            let action = self.columns[state].transition[END_OF_INPUT];
            state = action.next;
        }
        Ok(state >= column_len)
    }
}

} // verus!
