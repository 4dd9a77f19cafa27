//! What it means for a pattern to match, told of its atoms alone, and the
//! proof that the table of the atoms decides just that.

use vstd::prelude::*;
use crate::machine::{lemma_code_not_negative, RegexError, END_OF_INPUT, SYMBOL_SPACE};
use crate::matcher::{verdict, verdict_from, walk};
use crate::pattern::{atoms, kind_matches, lemma_table_of_well_formed, table_of, Atom};

verus! {

/// Whether the atom at `index` is content with an input that ends there: it
/// has to be the last atom, and either a plain atom that matches the end of
/// the input, or a repeated one that does not.
pub open spec fn content_at_end(atoms: Seq<Atom>, index: int) -> bool {
    &&& index == atoms.len() - 1
    &&& kind_matches(atoms[index].kind, END_OF_INPUT as int) != atoms[index].starred
}

/// Whether the atoms from `index` on match `input[head..]`. The atoms are
/// taken from left to right, and nothing that was read is given back:
/// a plain atom reads one character that it matches, a repeated atom reads
/// every character that it matches and is left at the first that it does not.
/// Once no atom is left the rest of the input is not looked at.
pub open spec fn atoms_match(atoms: Seq<Atom>, index: int, input: Seq<char>, head: int) -> Result<
    bool,
    RegexError,
>
    decreases input.len() - head, atoms.len() - index,
{
    if index >= atoms.len() {
        Ok(true)
    } else if head >= input.len() {
        Ok(content_at_end(atoms, index))
    } else if input[head] as int >= SYMBOL_SPACE {
        Err(RegexError::SymbolOutOfRange)
    } else if kind_matches(atoms[index].kind, input[head] as int) {
        atoms_match(atoms, if atoms[index].starred { index } else { index + 1 }, input, head + 1)
    } else if atoms[index].starred {
        atoms_match(atoms, index + 1, input, head)
    } else {
        Ok(false)
    }
}

/// Whether a pattern matches an input.
pub open spec fn pattern_matches(pattern: Seq<char>, input: Seq<char>) -> Result<
    bool,
    RegexError,
> {
    atoms_match(atoms(pattern), 0, input, 0)
}

/// A walk that stands in the column of an atom ends as the atoms from that
/// one on match what is left of the input.
pub proof fn lemma_walk_decides_atoms(atoms: Seq<Atom>, index: int, input: Seq<char>, head: int)
    requires
        0 <= index <= atoms.len(),
        0 <= head <= input.len(),
    ensures
        verdict_from(table_of(atoms), index + 1, input, head) == atoms_match(
            atoms,
            index,
            input,
            head,
        ),
    decreases input.len() - head, atoms.len() - index,
{
    let table = table_of(atoms);
    lemma_table_of_well_formed(atoms);
    if index < atoms.len() {
        let atom = atoms[index];
        if head < input.len() {
            let code = input[head] as int;
            lemma_code_not_negative(input[head]);
            if code < SYMBOL_SPACE {
                if kind_matches(atom.kind, code) {
                    if atom.starred {
                        lemma_walk_decides_atoms(atoms, index, input, head + 1);
                    } else {
                        lemma_walk_decides_atoms(atoms, index + 1, input, head + 1);
                    }
                } else if atom.starred {
                    lemma_walk_decides_atoms(atoms, index + 1, input, head);
                } else {
                    assert(walk(table, 0, input, head) == Ok::<int, RegexError>(0));
                }
            }
        }
    }
}

/// The table of a pattern decides whether the pattern matches.
pub proof fn lemma_table_decides_pattern(pattern: Seq<char>, input: Seq<char>)
    ensures
        verdict(table_of(atoms(pattern)), input) == pattern_matches(pattern, input),
{
    lemma_walk_decides_atoms(atoms(pattern), 0, input, 0);
}

} // verus!
