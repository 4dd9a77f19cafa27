//! The transition table: actions, columns and the compiled machine.

use vstd::prelude::*;

verus! {

/// Number of symbol codes a column has an entry for.
pub const SYMBOL_SPACE: usize = 130;

/// The symbol code looked up once the input is exhausted.
pub const END_OF_INPUT: usize = 129;

/// The first symbol code that `.` matches.
pub const PRINTABLE_FIRST: usize = 32;

/// The last symbol code that `.` matches.
pub const PRINTABLE_LAST: usize = 126;

/// The symbol code of a character.
pub(crate) fn symbol_code(symbol: char) -> (code: usize)
    ensures
        code == symbol as int,
{
    symbol as usize
}

/// No character has a negative code.
pub proof fn lemma_code_not_negative(symbol: char)
    ensures
        symbol as int >= 0,
{
}

/// The two ways in which a pattern or an input is refused.
#[derive(Clone, Copy, PartialEq, Eq, Structural, Debug)]
pub enum RegexError {
    /// A `*` that has no atom to repeat.
    MalformedPattern,
    /// A character whose code has no entry in a column.
    SymbolOutOfRange,
}

/// What a machine does on one symbol, as a mathematical value: the state it
/// goes to (0 rejects) and the number of input characters it consumes.
pub struct Action {
    pub next: int,
    pub offset: int,
}

/// The action of an entry that was never populated.
pub open spec fn reject_action() -> Action {
    Action { next: 0, offset: 0 }
}

/// The column in which every symbol rejects.
pub open spec fn blank_column() -> Seq<Action> {
    Seq::new(SYMBOL_SPACE as nat, |code: int| reject_action())
}

/// The tables that a walk can be run on: there is a column 0, every column
/// has an entry for each symbol code, a step consumes at most one character,
/// and a step that consumes none either rejects or moves to a later state.
pub open spec fn well_formed_table(table: Seq<Seq<Action>>) -> bool {
    &&& table.len() >= 1
    &&& forall|state: int|
        0 <= state < table.len() ==> (#[trigger] table[state]).len() == SYMBOL_SPACE
    &&& forall|state: int, code: int|
        0 <= state < table.len() && 0 <= code < SYMBOL_SPACE ==> {
            let action = #[trigger] table[state][code];
            &&& action.next >= 0
            &&& 0 <= action.offset <= 1
            &&& action.offset == 0 ==> action.next == 0 || action.next > state
        }
}

/// One entry of a column.
#[derive(Clone, Copy, PartialEq, Eq, Structural, Debug)]
pub struct FsmAction {
    pub next: usize,
    pub offset: usize,
}

impl View for FsmAction {
    type V = Action;

    open spec fn view(&self) -> Action {
        Action { next: self.next as int, offset: self.offset as int }
    }
}

impl Default for FsmAction {
    /// The action of an entry that was never populated.
    fn default() -> (action: FsmAction)
        ensures
            action@ == reject_action(),
    {
        FsmAction { next: 0, offset: 0 }
    }
}

/// The transitions of one state: one action per symbol code.
pub struct FsmColumn {
    pub transition: [FsmAction; SYMBOL_SPACE],
}

impl View for FsmColumn {
    type V = Seq<Action>;

    open spec fn view(&self) -> Seq<Action> {
        Seq::new(SYMBOL_SPACE as nat, |code: int| self.transition@[code]@)
    }
}

impl FsmColumn {
    /// A column in which every symbol rejects.
    pub fn new() -> (column: FsmColumn)
        ensures
            column@ == blank_column(),
    {
        let column = FsmColumn { transition: [FsmAction::default(); SYMBOL_SPACE] };
        column
    }
}

/// The table that a vector of columns stands for.
pub open spec fn table_view(columns: Seq<FsmColumn>) -> Seq<Seq<Action>> {
    Seq::new(columns.len(), |state: int| columns[state]@)
}

/// A compiled machine. Column 0 is never entered, each later column is the
/// state of one atom, and every state past the last column accepts.
pub struct Regex {
    pub(crate) columns: Vec<FsmColumn>,
}

impl View for Regex {
    type V = Seq<Seq<Action>>;

    open(crate) spec fn view(&self) -> Seq<Seq<Action>> {
        table_view(self.columns@)
    }
}

impl Regex {
    #[verifier::type_invariant]
    pub open(crate) spec fn well_formed(&self) -> bool {
        well_formed_table(self@)
    }
}

} // verus!
