//! What holds of every pattern, every machine and every input.

use vstd::prelude::*;
use crate::machine::{
    blank_column, lemma_code_not_negative, Regex, RegexError, END_OF_INPUT, PRINTABLE_FIRST,
    PRINTABLE_LAST, SYMBOL_SPACE,
};
use crate::matcher::verdict;
use crate::pattern::{atoms, kind_of, table_of, Atom, AtomKind};
use crate::semantics::{atoms_match, lemma_table_decides_pattern};

verus! {

/// The literal characters: any character but `*`, `$` and `.` that has a
/// code a column has an entry for.
pub open spec fn literal_symbol(symbol: char) -> bool {
    &&& symbol != '*'
    &&& symbol != '$'
    &&& symbol != '.'
    &&& (symbol as int) < SYMBOL_SPACE
}

/// The patterns made of literal characters only.
pub open spec fn literal_pattern(pattern: Seq<char>) -> bool {
    forall|i: int| 0 <= i < pattern.len() ==> literal_symbol(#[trigger] pattern[i])
}

/// The atoms of a text without `*`: one plain atom per character.
pub open spec fn plain_atoms(text: Seq<char>) -> Seq<Atom> {
    Seq::new(text.len(), |i: int| Atom { kind: kind_of(text[i]), starred: false })
}

/// A `*` adds no atom: a pattern has as many atoms as it has characters
/// other than `*`, and its table has one column more than that.
pub proof fn lemma_column_count(pattern: Seq<char>)
    ensures
        atoms(pattern).len() == pattern.filter(|symbol: char| symbol != '*').len(),
        table_of(atoms(pattern)).len() == atoms(pattern).len() + 1,
    decreases pattern.len(),
{
    reveal(Seq::filter);
    if pattern.len() > 0 {
        lemma_column_count(pattern.drop_last());
    }
}

/// What follows in a pattern without a `*` in it adds one plain atom per
/// character to the atoms of what stands before it.
pub proof fn lemma_atoms_append(front: Seq<char>, back: Seq<char>)
    requires
        forall|i: int| 0 <= i < back.len() ==> back[i] != '*',
    ensures
        atoms(front + back) == atoms(front) + plain_atoms(back),
    decreases back.len(),
{
    if back.len() > 0 {
        lemma_atoms_append(front, back.drop_last());
        assert((front + back).drop_last() =~= front + back.drop_last());
    }
}

/// In a pattern without `*`, every character is a plain atom of its own:
/// the table of a pattern of `n` such characters has `n + 1` columns.
pub proof fn lemma_star_free_atoms(pattern: Seq<char>)
    requires
        forall|i: int| 0 <= i < pattern.len() ==> pattern[i] != '*',
    ensures
        atoms(pattern) == plain_atoms(pattern),
        table_of(atoms(pattern)).len() == pattern.len() + 1,
{
    lemma_atoms_append(Seq::empty(), pattern);
}

/// The `count` atoms from `index` on are plain literals, and they are the
/// `count` characters of the input from `head` on.
pub open spec fn literal_run(
    atoms: Seq<Atom>,
    index: int,
    input: Seq<char>,
    head: int,
    count: int,
) -> bool {
    &&& 0 <= index
    &&& 0 <= head
    &&& 0 <= count
    &&& index + count <= atoms.len()
    &&& head + count <= input.len()
    &&& forall|i: int|
        0 <= i < count ==> (input[head + i] as int) < SYMBOL_SPACE && #[trigger] atoms[index + i]
            == (Atom { kind: AtomKind::Literal(input[head + i] as int), starred: false })
}

/// A run of plain literal atoms reads the same run of characters.
pub proof fn lemma_literal_run(
    atoms: Seq<Atom>,
    index: int,
    input: Seq<char>,
    head: int,
    count: int,
)
    requires
        literal_run(atoms, index, input, head, count),
    ensures
        atoms_match(atoms, index, input, head) == atoms_match(
            atoms,
            index + count,
            input,
            head + count,
        ),
    decreases count,
{
    if count > 0 {
        assert(atoms[index + 0].kind == AtomKind::Literal(input[head + 0] as int));
        assert forall|i: int| 0 <= i < count - 1 implies (input[head + 1 + i] as int)
            < SYMBOL_SPACE && #[trigger] atoms[index + 1 + i] == (Atom {
            kind: AtomKind::Literal(input[head + 1 + i] as int),
            starred: false,
        }) by {
            assert(atoms[index + (i + 1)].kind == AtomKind::Literal(input[head + (i + 1)] as int));
        }
        lemma_literal_run(atoms, index + 1, input, head + 1, count - 1);
    }
}

/// The atom at `index` is a repeated literal, and the `count` characters of
/// the input from `head` on are all that literal.
pub open spec fn repeated_run(
    atoms: Seq<Atom>,
    index: int,
    input: Seq<char>,
    head: int,
    count: int,
) -> bool {
    &&& 0 <= index < atoms.len()
    &&& 0 <= head
    &&& 0 <= count
    &&& head + count <= input.len()
    &&& atoms[index].starred
    &&& forall|i: int|
        0 <= i < count ==> (#[trigger] input[head + i] as int) < SYMBOL_SPACE && atoms[index].kind
            == AtomKind::Literal(input[head + i] as int)
}

/// A repeated literal atom reads a run of its own character.
pub proof fn lemma_repeated_run(
    atoms: Seq<Atom>,
    index: int,
    input: Seq<char>,
    head: int,
    count: int,
)
    requires
        repeated_run(atoms, index, input, head, count),
    ensures
        atoms_match(atoms, index, input, head) == atoms_match(atoms, index, input, head + count),
    decreases count,
{
    if count > 0 {
        assert((input[head + 0] as int) < SYMBOL_SPACE);
        assert forall|i: int| 0 <= i < count - 1 implies (#[trigger] input[head + 1 + i] as int)
            < SYMBOL_SPACE && atoms[index].kind == AtomKind::Literal(
            input[head + 1 + i] as int,
        ) by {
            assert((input[head + (i + 1)] as int) < SYMBOL_SPACE);
        }
        lemma_repeated_run(atoms, index, input, head + 1, count - 1);
    }
}

/// A pattern of literal characters matches every input that starts with the
/// pattern: the walk leaves the table after the last character of the
/// pattern, and does not look at what follows.
pub proof fn lemma_literal_matches_extension(pattern: Seq<char>, rest: Seq<char>)
    requires
        literal_pattern(pattern),
    ensures
        verdict(table_of(atoms(pattern)), pattern + rest) == Ok::<bool, RegexError>(true),
{
    let input = pattern + rest;
    lemma_table_decides_pattern(pattern, input);
    lemma_star_free_atoms(pattern);
    lemma_literal_run(atoms(pattern), 0, input, 0, pattern.len() as int);
}

/// A pattern of literal characters matches itself.
pub proof fn lemma_literal_matches_itself(pattern: Seq<char>)
    requires
        literal_pattern(pattern),
    ensures
        verdict(table_of(atoms(pattern)), pattern) == Ok::<bool, RegexError>(true),
{
    lemma_literal_matches_extension(pattern, Seq::empty());
}

/// Between literal characters, `.` stands for one printable character and
/// for no other: with `symbol` in the place of the `.`, the input matches if
/// and only if `symbol` is printable.
pub proof fn lemma_wildcard_between_literals(before: Seq<char>, after: Seq<char>, symbol: char)
    requires
        literal_pattern(before),
        literal_pattern(after),
    ensures
        verdict(table_of(atoms(before + seq!['.'] + after)), before + seq![symbol] + after) == (if (
        symbol as int) >= SYMBOL_SPACE {
            Err::<bool, RegexError>(RegexError::SymbolOutOfRange)
        } else {
            Ok::<bool, RegexError>(PRINTABLE_FIRST <= symbol as int <= PRINTABLE_LAST)
        }),
{
    let pattern = before + seq!['.'] + after;
    let input = before + seq![symbol] + after;
    let middle = before.len() as int;
    lemma_table_decides_pattern(pattern, input);
    lemma_star_free_atoms(pattern);
    lemma_literal_run(atoms(pattern), 0, input, 0, middle);
    lemma_code_not_negative(symbol);
    lemma_literal_run(atoms(pattern), middle + 1, input, middle + 1, after.len() as int);
}

/// Behind literal characters, `$` stands for the end of the input: an input
/// that starts with the literal characters matches if nothing follows them,
/// and otherwise only if the character that follows has the code that is set
/// aside for the end of the input.
pub proof fn lemma_end_anchor_after_literals(pattern: Seq<char>, rest: Seq<char>)
    requires
        literal_pattern(pattern),
    ensures
        verdict(table_of(atoms(pattern + seq!['$'])), pattern + rest) == (if rest.len() == 0 {
            Ok::<bool, RegexError>(true)
        } else if (rest[0] as int) >= SYMBOL_SPACE {
            Err::<bool, RegexError>(RegexError::SymbolOutOfRange)
        } else {
            Ok::<bool, RegexError>(rest[0] as int == END_OF_INPUT)
        }),
{
    let anchored = pattern + seq!['$'];
    let input = pattern + rest;
    let end = pattern.len() as int;
    lemma_table_decides_pattern(anchored, input);
    lemma_star_free_atoms(anchored);
    lemma_literal_run(atoms(anchored), 0, input, 0, end);
    if rest.len() > 0 {
        lemma_code_not_negative(rest[0]);
        assert(atoms_match(atoms(anchored), end + 1, input, end + 1) == Ok::<bool, RegexError>(
            true,
        ));
    }
}

/// A repeated literal character in front of literal characters that do not
/// start with it: any number of the repeated character, none included,
/// followed by the other characters, matches.
pub proof fn lemma_star_before_literals(symbol: char, count: nat, after: Seq<char>)
    requires
        literal_symbol(symbol),
        symbol as int != END_OF_INPUT,
        literal_pattern(after),
        after.len() == 0 || after[0] != symbol,
    ensures
        verdict(
            table_of(atoms(seq![symbol, '*'] + after)),
            Seq::new(count, |i: int| symbol) + after,
        ) == Ok::<bool, RegexError>(true),
{
    let front = seq![symbol, '*'];
    let pattern = front + after;
    let input = Seq::new(count, |i: int| symbol) + after;
    lemma_table_decides_pattern(pattern, input);
    lemma_atoms_append(front, after);
    assert(atoms(front) == seq![Atom { kind: AtomKind::Literal(symbol as int), starred: true }])
        by {
        reveal_with_fuel(atoms, 3);
    }
    lemma_code_not_negative(symbol);
    lemma_repeated_run(atoms(pattern), 0, input, 0, count as int);
    if after.len() > 0 {
        lemma_code_not_negative(after[0]);
        lemma_literal_run(atoms(pattern), 1, input, count as int, after.len() as int);
    }
}

/// Two machines compiled from the same pattern have the same table, and
/// give the same result on every input.
pub proof fn lemma_compile_deterministic(
    first: Regex,
    second: Regex,
    pattern: Seq<char>,
    input: Seq<char>,
)
    requires
        first@ == table_of(atoms(pattern)),
        second@ == table_of(atoms(pattern)),
    ensures
        first@ == second@,
        verdict(first@, input) == verdict(second@, input),
{
}

/// The empty pattern has no atom. Its table is the blank column 0 alone,
/// and a walk over it is over before it has read anything: the empty input
/// matches, as does every other.
pub proof fn lemma_empty_pattern(input: Seq<char>)
    ensures
        table_of(atoms(Seq::<char>::empty())) == seq![blank_column()],
        verdict(table_of(atoms(Seq::<char>::empty())), Seq::<char>::empty()) == Ok::<
            bool,
            RegexError,
        >(true),
        verdict(table_of(atoms(Seq::<char>::empty())), input) == Ok::<bool, RegexError>(true),
{
    let pattern = Seq::<char>::empty();
    lemma_table_decides_pattern(pattern, input);
    lemma_table_decides_pattern(pattern, Seq::<char>::empty());
}

} // verus!
