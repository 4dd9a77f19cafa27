//! The pattern language, and the table that a pattern denotes.

use vstd::prelude::*;
use crate::machine::{
    blank_column, well_formed_table, Action, RegexError, END_OF_INPUT, PRINTABLE_FIRST,
    PRINTABLE_LAST, SYMBOL_SPACE,
};

verus! {

/// What an atom matches.
pub enum AtomKind {
    /// The one symbol code of a literal character.
    Literal(int),
    /// Any printable character; written `.`.
    Printable,
    /// The end of the input; written `$`.
    EndOfInput,
}

/// One unit of a pattern: what it matches, and whether a `*` follows it.
pub struct Atom {
    pub kind: AtomKind,
    pub starred: bool,
}

/// The kind of atom that a pattern character other than `*` stands for.
pub open spec fn kind_of(symbol: char) -> AtomKind {
    if symbol == '.' {
        AtomKind::Printable
    } else if symbol == '$' {
        AtomKind::EndOfInput
    } else {
        AtomKind::Literal(symbol as int)
    }
}

/// What is wrong with the character at position `i` of a pattern, if
/// anything: a `*` needs an atom directly before it, and any other character
/// needs a code that a column has an entry for.
pub open spec fn fault_at(pattern: Seq<char>, i: int) -> Option<RegexError> {
    if pattern[i] == '*' {
        if i == 0 || pattern[i - 1] == '*' {
            Some(RegexError::MalformedPattern)
        } else {
            None
        }
    } else if pattern[i] as int >= SYMBOL_SPACE {
        Some(RegexError::SymbolOutOfRange)
    } else {
        None
    }
}

/// The patterns that compile.
pub open spec fn well_formed_pattern(pattern: Seq<char>) -> bool {
    forall|i: int| 0 <= i < pattern.len() ==> fault_at(pattern, i) is None
}

/// `i` is the first position of the pattern with a fault, and the fault is
/// `error`.
pub open spec fn first_fault(pattern: Seq<char>, i: int, error: RegexError) -> bool {
    &&& 0 <= i < pattern.len()
    &&& fault_at(pattern, i) == Some(error)
    &&& forall|j: int| 0 <= j < i ==> fault_at(pattern, j) is None
}

/// The atoms of a pattern, in order. Reading from the left, every character
/// but `*` starts an atom, and a `*` marks the atom before it as repeated.
pub open spec fn atoms(pattern: Seq<char>) -> Seq<Atom>
    decreases pattern.len(),
{
    if pattern.len() == 0 {
        Seq::empty()
    } else {
        let before = atoms(pattern.drop_last());
        if pattern.last() != '*' {
            before.push(Atom { kind: kind_of(pattern.last()), starred: false })
        } else if before.len() > 0 {
            before.update(before.len() - 1, Atom { kind: before.last().kind, starred: true })
        } else {
            before
        }
    }
}

/// Whether an atom of this kind matches the symbol code `code`.
pub open spec fn kind_matches(kind: AtomKind, code: int) -> bool {
    match kind {
        AtomKind::Literal(literal) => code == literal,
        AtomKind::Printable => PRINTABLE_FIRST <= code <= PRINTABLE_LAST,
        AtomKind::EndOfInput => code == END_OF_INPUT,
    }
}

/// The action of the atom in column `state` on the symbol code `code`. A
/// matching symbol is consumed, and leads to the next column, or back to this
/// one if the atom is repeated. Any other symbol rejects, or, if the atom is
/// repeated, leads to the next column with nothing consumed.
pub open spec fn atom_action(atom: Atom, state: int, code: int) -> Action {
    if kind_matches(atom.kind, code) {
        Action { next: if atom.starred { state } else { state + 1 }, offset: 1 }
    } else if atom.starred {
        Action { next: state + 1, offset: 0 }
    } else {
        Action { next: 0, offset: 0 }
    }
}

/// The column of the atom that stands at `state`.
pub open spec fn atom_column(atom: Atom, state: int) -> Seq<Action> {
    Seq::new(SYMBOL_SPACE as nat, |code: int| atom_action(atom, state, code))
}

/// The table of a sequence of atoms: a blank column 0, then one column per
/// atom.
pub open spec fn table_of(atoms: Seq<Atom>) -> Seq<Seq<Action>> {
    Seq::new(
        atoms.len() + 1,
        |state: int|
            if state == 0 {
                blank_column()
            } else {
                atom_column(atoms[state - 1], state)
            },
    )
}

/// The table of any sequence of atoms can be walked.
pub proof fn lemma_table_of_well_formed(atoms: Seq<Atom>)
    ensures
        well_formed_table(table_of(atoms)),
{
}

} // verus!
