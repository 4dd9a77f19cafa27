//! From a pattern to its machine.

use vstd::prelude::*;
use crate::machine::{
    blank_column, symbol_code, table_view, Action, FsmAction, FsmColumn, Regex, RegexError,
    END_OF_INPUT, PRINTABLE_FIRST, PRINTABLE_LAST, SYMBOL_SPACE,
};
use crate::pattern::{
    atom_column, atoms, fault_at, first_fault, kind_of, lemma_table_of_well_formed, table_of,
    well_formed_pattern, Atom,
};

verus! {

/// What a `*` makes of one action of the column before it, where
/// `column_len` is the number of columns so far: an action that led out of
/// the column now stays in it, and a rejecting one now leads out of the column
/// with nothing consumed.
pub open spec fn repeated_action(action: Action, column_len: int) -> Action {
    if action.next == column_len {
        Action { next: column_len - 1, offset: action.offset }
    } else {
        Action { next: column_len, offset: 0 }
    }
}

/// What a `*` makes of the column before it.
pub open spec fn repeated_column(column: Seq<Action>, column_len: int) -> Seq<Action> {
    Seq::new(SYMBOL_SPACE as nat, |code: int| repeated_action(column[code], column_len))
}

/// Stores one action in a column.
fn set_action(column: &mut FsmColumn, code: usize, action: FsmAction)
    requires
        code < SYMBOL_SPACE,
    ensures
        final(column)@ == old(column)@.update(code as int, action@),
{
    column.transition[code] = action;
}

/// Writes the transitions of the plain atom written `symbol` into a blank
/// column; `next` is the state after the atom.
fn populate(column: &mut FsmColumn, symbol: char, next: usize)
    requires
        old(column)@ == blank_column(),
        (symbol as int) < SYMBOL_SPACE,
        next >= 1,
    ensures
        final(column)@ == atom_column(Atom { kind: kind_of(symbol), starred: false }, next - 1),
{
    let advance = FsmAction { next, offset: 1 };
    match symbol {
        '$' => {
            set_action(column, END_OF_INPUT, advance);
        },
        '.' => {
            let mut code: usize = PRINTABLE_FIRST;
            while code <= PRINTABLE_LAST
                invariant
                    PRINTABLE_FIRST <= code <= PRINTABLE_LAST + 1,
                    column@.len() == SYMBOL_SPACE,
                    forall|k: int|
                        0 <= k < SYMBOL_SPACE ==> #[trigger] column@[k] == if PRINTABLE_FIRST <= k
                            < code {
                            advance@
                        } else {
                            Action { next: 0, offset: 0 }
                        },
                decreases PRINTABLE_LAST + 1 - code,
            {
                set_action(column, code, advance);
                code += 1;
            }
        },
        _ => {
            set_action(column, symbol_code(symbol), advance);
        },
    }
}

/// Applies a `*` to the last column of a table of `column_len` columns.
fn repeat(column: &mut FsmColumn, column_len: usize)
    requires
        column_len >= 1,
        forall|code: int|
            0 <= code < SYMBOL_SPACE ==> {
                let action = #[trigger] old(column)@[code];
                action.next == column_len || action.next == 0
            },
    ensures
        final(column)@ == repeated_column(old(column)@, column_len as int),
{
    let mut code: usize = 0;
    while code < SYMBOL_SPACE
        invariant
            code <= SYMBOL_SPACE,
            column_len >= 1,
            column@.len() == SYMBOL_SPACE,
            forall|k: int|
                0 <= k < SYMBOL_SPACE ==> #[trigger] column@[k] == if k < code {
                    repeated_action(old(column)@[k], column_len as int)
                } else {
                    old(column)@[k]
                },
        decreases SYMBOL_SPACE - code,
    {
        let action = column.transition[code];
        assert(action@ == column@[code as int]);
        if action.next == column_len {
            set_action(column, code, FsmAction { next: column_len - 1, offset: action.offset });
        } else {
            set_action(column, code, FsmAction { next: column_len, offset: 0 });
        }
        code += 1;
    }
}

/// A character other than `*` adds an atom to those read so far.
proof fn lemma_atoms_push(pattern: Seq<char>, i: int)
    requires
        0 <= i < pattern.len(),
        pattern[i] != '*',
    ensures
        atoms(pattern.take(i + 1)) == atoms(pattern.take(i)).push(
            Atom { kind: kind_of(pattern[i]), starred: false },
        ),
{
    assert(pattern.take(i + 1).drop_last() =~= pattern.take(i));
}

/// A `*` behind an atom marks that atom, the last one read, as repeated.
proof fn lemma_atoms_star(pattern: Seq<char>, i: int)
    requires
        0 < i < pattern.len(),
        pattern[i] == '*',
        pattern[i - 1] != '*',
    ensures
        atoms(pattern.take(i)).len() >= 1,
        !atoms(pattern.take(i)).last().starred,
        atoms(pattern.take(i + 1)) == atoms(pattern.take(i)).update(
            atoms(pattern.take(i)).len() - 1,
            Atom { kind: atoms(pattern.take(i)).last().kind, starred: true },
        ),
{
    lemma_atoms_push(pattern, i - 1);
    assert(pattern.take(i + 1).drop_last() =~= pattern.take(i));
}

/// One more atom is one more column.
proof fn lemma_table_push(atoms: Seq<Atom>, atom: Atom)
    ensures
        table_of(atoms.push(atom)) == table_of(atoms).push(
            atom_column(atom, atoms.len() as int + 1),
        ),
{
}

/// Marking the last atom as repeated rewrites the last column.
proof fn lemma_table_star(atoms: Seq<Atom>)
    requires
        atoms.len() >= 1,
        !atoms.last().starred,
    ensures
        table_of(atoms.update(atoms.len() - 1, Atom { kind: atoms.last().kind, starred: true }))
            == table_of(atoms).update(
            atoms.len() as int,
            repeated_column(table_of(atoms)[atoms.len() as int], atoms.len() as int + 1),
        ),
        forall|code: int|
            0 <= code < SYMBOL_SPACE ==> {
                let action = #[trigger] table_of(atoms)[atoms.len() as int][code];
                action.next == atoms.len() + 1 || action.next == 0
            },
{
    let last = atoms.len() as int;
    let starred = Atom { kind: atoms.last().kind, starred: true };
    assert(repeated_column(table_of(atoms)[last], last + 1) =~= atom_column(starred, last));
}

impl Regex {
    /// Compiles a pattern.
    ///
    /// A pattern compiles if and only if every `*` in it directly follows an
    /// atom and every other character has a code below `SYMBOL_SPACE`. The
    /// machine then has a blank column 0 and one column per atom. Otherwise
    /// the error names what is wrong with the first character at fault.
    pub fn compile(source: &str) -> (result: Result<Regex, RegexError>)
        ensures
            match result {
                Ok(regex) => well_formed_pattern(source@) && regex@ == table_of(atoms(source@)),
                Err(error) => exists|i: int| first_fault(source@, i, error),
            },
    {
        let mut columns: Vec<FsmColumn> = Vec::new();
        columns.push(FsmColumn::new());
        let mut repeatable = false;
        for ch in it: source.chars()
            invariant
                it.seq() == source@,
                forall|j: int| 0 <= j < it.index() ==> fault_at(source@, j) is None,
                table_view(columns@) == table_of(atoms(source@.take(it.index() as int))),
                repeatable <==> it.index() > 0 && source@[it.index() - 1] != '*',
        {
            let ghost i = it.index() as int;
            let ghost seen = atoms(source@.take(i));
            assert(table_view(columns@).len() == seen.len() + 1);
            if ch == '*' {
                if !repeatable {
                    assert(first_fault(source@, i, RegexError::MalformedPattern));
                    return Err(RegexError::MalformedPattern);
                }
                let column_len: usize = columns.len();
                proof {
                    lemma_atoms_star(source@, i);
                    lemma_table_star(seen);
                }
                repeat(&mut columns[column_len - 1], column_len);
                repeatable = false;
            } else {
                let code: usize = symbol_code(ch);
                if code >= SYMBOL_SPACE {
                    assert(first_fault(source@, i, RegexError::SymbolOutOfRange));
                    return Err(RegexError::SymbolOutOfRange);
                }
                let state: usize = columns.len();
                columns.push(FsmColumn::new());
                let next: usize = columns.len();
                populate(&mut columns[state], ch, next);
                proof {
                    lemma_atoms_push(source@, i);
                    lemma_table_push(seen, Atom { kind: kind_of(ch), starred: false });
                }
                repeatable = true;
            }
        }
        proof {
            assert(source@.take(source@.len() as int) =~= source@);
            lemma_table_of_well_formed(atoms(source@));
        }
        Ok(Regex { columns })
    }
}

} // verus!
