//! Interned strings: every distinct string gets one small number.

use vstd::prelude::*;
use crate::backend::rows::RowKey;
use crate::text::{decimal, render_decimal};

verus! {

/// Identifier for an interned string. The first string interned gets 1.
#[derive(PartialEq, Eq, Structural, Hash, Clone, Copy, Debug)]
pub struct SymbolId(pub usize);

impl SymbolId {
    /// The symbol as a decimal numeral.
    pub fn to_string(&self) -> (s: String)
        ensures
            s@ == decimal(self.0 as nat),
    {
        render_decimal(self.0 as u64)
    }
}

impl RowKey for SymbolId {
    fn same(&self, other: &Self) -> (b: bool) {
        self.0 == other.0
    }
}

/// The strings of a table, each as a sequence of characters.
pub open spec fn texts(table: Seq<String>) -> Seq<Seq<char>> {
    table.map_values(|s: String| s@)
}

/// The symbol of `text` among `symbols`, where it has been interned.
pub open spec fn symbol_of(symbols: Seq<Seq<char>>, text: Seq<char>) -> Option<SymbolId> {
    if symbols.contains(text) {
        Some(SymbolId((symbols.index_of(text) + 1) as usize))
    } else {
        None
    }
}

/// The symbols after `text` has been interned: as before where it was
/// there, else with `text` at the end.
pub open spec fn interned(symbols: Seq<Seq<char>>, text: Seq<char>) -> Seq<Seq<char>> {
    if symbols.contains(text) {
        symbols
    } else {
        symbols.push(text)
    }
}

/// The symbol that interning `text` gives: the one it has, or else the next
/// one that is free.
pub open spec fn symbol_for(symbols: Seq<Seq<char>>, text: Seq<char>) -> SymbolId {
    match symbol_of(symbols, text) {
        Some(id) => id,
        None => SymbolId((symbols.len() + 1) as usize),
    }
}

/// Whether `id` stands for one of the first `count` strings interned.
pub open spec fn known_symbol(id: SymbolId, count: nat) -> bool {
    1 <= id.0 <= count
}

/// The string that `id` stands for.
pub open spec fn text_of(symbols: Seq<Seq<char>>, id: SymbolId) -> Seq<char> {
    symbols[id.0 - 1]
}

/// Interning twice gives the same symbol both times, and the second time
/// changes nothing: there is one entry for each distinct string.
pub proof fn lemma_intern_twice(symbols: Seq<Seq<char>>, text: Seq<char>)
    requires
        symbols.no_duplicates(),
        interned(symbols, text).len() <= usize::MAX,
    ensures
        interned(symbols, text).no_duplicates(),
        interned(interned(symbols, text), text) == interned(symbols, text),
        symbol_for(interned(symbols, text), text) == symbol_for(symbols, text),
        text_of(interned(symbols, text), symbol_for(symbols, text)) == text,
        known_symbol(symbol_for(symbols, text), interned(symbols, text).len()),
{
    let after = interned(symbols, text);
    if symbols.contains(text) {
        let i = symbols.index_of(text);
        assert(symbols[i] == text);
    } else {
        assert(after[symbols.len() as int] == text);
        assert(after.contains(text));
        let i = after.index_of(text);
        assert(after[i] == text);
        if i < symbols.len() {
            assert(symbols[i] == text);
            assert(symbols.contains(text));
        }
        assert forall|a: int, b: int| 0 <= a < after.len() && 0 <= b < after.len() && a != b implies after[a]
            != after[b] by {
            if a == symbols.len() {
                assert(symbols[b] == after[b]);
                assert(symbols.contains(after[b]) );
            } else if b == symbols.len() {
                assert(symbols[a] == after[a]);
                assert(symbols.contains(after[a]));
            }
        }
    }
}

/// Interning keeps every symbol that was there, with the string it stood
/// for.
pub proof fn lemma_intern_keeps(symbols: Seq<Seq<char>>, text: Seq<char>, id: SymbolId)
    requires
        known_symbol(id, symbols.len()),
    ensures
        known_symbol(id, interned(symbols, text).len()),
        text_of(interned(symbols, text), id) == text_of(symbols, id),
{
}

/// The symbol of `text` in `table`, or `None` where it has not been
/// interned.
pub fn find_symbol(table: &Vec<String>, text: &str) -> (found: Option<SymbolId>)
    requires
        texts(table@).no_duplicates(),
    ensures
        found == symbol_of(texts(table@), text@),
{
    let needle = text.to_owned();
    let ghost symbols = texts(table@);
    let mut i: usize = 0;
    while i < table.len()
        invariant
            i <= table.len(),
            symbols == texts(table@),
            symbols.no_duplicates(),
            needle@ == text@,
            forall|j: int| 0 <= j < i ==> symbols[j] != text@,
        decreases table.len() - i,
    {
        if table[i] == needle {
            proof {
                assert(symbols[i as int] == text@);
                assert(symbols.contains(text@));
                let at = symbols.index_of(text@);
                assert(symbols[at] == text@);
            }
            return Some(SymbolId(i + 1));
        }
        i = i + 1;
    }
    None
}

/// Interns `text` in `table`: gives the symbol it already has, or puts it at
/// the end of the table and gives it the next symbol.
pub fn intern(table: &mut Vec<String>, text: &str) -> (id: SymbolId)
    requires
        texts(old(table)@).no_duplicates(),
    ensures
        texts(final(table)@) == interned(texts(old(table)@), text@),
        texts(final(table)@).no_duplicates(),
        id == symbol_for(texts(old(table)@), text@),
        known_symbol(id, final(table)@.len()),
{
    let count = table.len();
    match find_symbol(table, text) {
        Some(id) => {
            proof {
                assert(texts(table@).len() == count);
                lemma_intern_twice(texts(table@), text@);
            }
            id
        },
        None => {
            table.push(text.to_owned());
            let id = SymbolId(table.len());
            proof {
                assert(texts(table@) == texts(old(table)@).push(text@));
                lemma_intern_twice(texts(old(table)@), text@);
            }
            id
        },
    }
}

} // verus!
