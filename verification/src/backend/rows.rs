//! Relations as rows of a key and a value, in which no key occurs twice.

use vstd::prelude::*;
use crate::elem::ElemId;

verus! {

/// A value by which the rows of a relation are told apart.
pub trait RowKey: Sized {
    /// Whether two keys are the same key.
    fn same(&self, other: &Self) -> (b: bool)
        ensures
            b == (*self == *other),
    ;
}

impl RowKey for ElemId {
    fn same(&self, other: &Self) -> (b: bool) {
        self.0 == other.0
    }
}

impl RowKey for usize {
    fn same(&self, other: &Self) -> (b: bool) {
        *self == *other
    }
}

impl<A: RowKey, B: RowKey> RowKey for (A, B) {
    fn same(&self, other: &Self) -> (b: bool) {
        self.0.same(&other.0) && self.1.same(&other.1)
    }
}

/// Whether some row of `rows` has the key `key`.
pub open spec fn has_key<K, V>(rows: Seq<(K, V)>, key: K) -> bool {
    exists|i: int| 0 <= i < rows.len() && (#[trigger] rows[i]).0 == key
}

/// Whether no two rows of `rows` have the same key.
pub open spec fn unique_keys<K, V>(rows: Seq<(K, V)>) -> bool {
    forall|i: int, j: int|
        0 <= i < j < rows.len() ==> (#[trigger] rows[i]).0 != (#[trigger] rows[j]).0
}

/// The position of the row with the key `key`, where there is one.
pub open spec fn key_position<K, V>(rows: Seq<(K, V)>, key: K) -> int {
    choose|i: int| 0 <= i < rows.len() && (#[trigger] rows[i]).0 == key
}

/// A row with a new key keeps the keys unique.
pub proof fn lemma_push_keeps_keys_unique<K, V>(rows: Seq<(K, V)>, row: (K, V))
    requires
        unique_keys(rows),
        !has_key(rows, row.0),
    ensures
        unique_keys(rows.push(row)),
        has_key(rows.push(row), row.0),
{
    let next = rows.push(row);
    assert forall|i: int, j: int| 0 <= i < j < next.len() implies (#[trigger] next[i]).0 != (
    #[trigger] next[j]).0 by {
        if j < rows.len() {
            assert(next[i] == rows[i] && next[j] == rows[j]);
        } else {
            assert(next[i] == rows[i]);
        }
    }
    assert(next[rows.len() as int].0 == row.0);
}

/// Taking a row out keeps the keys unique, and the key of that row is gone.
pub proof fn lemma_remove_keeps_keys_unique<K, V>(rows: Seq<(K, V)>, at: int)
    requires
        unique_keys(rows),
        0 <= at < rows.len(),
    ensures
        unique_keys(rows.remove(at)),
        !has_key(rows.remove(at), rows[at].0),
{
    let rest = rows.remove(at);
    assert forall|i: int| 0 <= i < rest.len() implies (#[trigger] rest[i]) == rows[if i < at {
        i
    } else {
        i + 1
    }] by {}
    assert forall|i: int, j: int| 0 <= i < j < rest.len() implies (#[trigger] rest[i]).0 != (
    #[trigger] rest[j]).0 by {
        let a = if i < at { i } else { i + 1 };
        let b = if j < at { j } else { j + 1 };
        assert(rest[i] == rows[a] && rest[j] == rows[b]);
    }
    if has_key(rest, rows[at].0) {
        let i = key_position(rest, rows[at].0);
        let a = if i < at { i } else { i + 1 };
        assert(rest[i] == rows[a]);
    }
}

/// The position of the first row with the key `key`, or `None` where no row
/// has it.
pub fn find_key<K: RowKey, V>(rows: &Vec<(K, V)>, key: &K) -> (found: Option<usize>)
    ensures
        match found {
            Some(i) => {
                &&& i < rows.len()
                &&& rows[i as int].0 == *key
                &&& forall|j: int| 0 <= j < i ==> (#[trigger] rows[j]).0 != *key
            },
            None => !has_key(rows@, *key),
        },
{
    let mut i: usize = 0;
    while i < rows.len()
        invariant
            i <= rows.len(),
            forall|j: int| 0 <= j < i ==> (#[trigger] rows[j]).0 != *key,
        decreases rows.len() - i,
    {
        if rows[i].0.same(key) {
            return Some(i);
        }
        i = i + 1;
    }
    None
}

/// A row of a relation, as the integers in its columns.
pub trait IntegerRow {
    /// The integers in the columns of the row.
    spec fn columns(&self) -> Seq<int>;

    /// The integers in the columns of the row.
    fn to_columns(&self) -> (columns: Vec<i128>)
        ensures
            columns@.len() == self.columns().len(),
            forall|i: int|
                0 <= i < columns@.len() ==> (#[trigger] columns@[i]) == self.columns()[i]
                    && i64::MIN <= columns@[i] <= u64::MAX,
    ;
}

impl IntegerRow for (ElemId, bool) {
    open spec fn columns(&self) -> Seq<int> {
        seq![self.0.0 as int, if self.1 { 1int } else { 0int }]
    }

    fn to_columns(&self) -> (columns: Vec<i128>) {
        let mut columns: Vec<i128> = Vec::new();
        columns.push(self.0.0 as i128);
        columns.push(if self.1 { 1 } else { 0 });
        columns
    }
}

impl IntegerRow for (ElemId, i64) {
    open spec fn columns(&self) -> Seq<int> {
        seq![self.0.0 as int, self.1 as int]
    }

    fn to_columns(&self) -> (columns: Vec<i128>) {
        let mut columns: Vec<i128> = Vec::new();
        columns.push(self.0.0 as i128);
        columns.push(self.1 as i128);
        columns
    }
}

impl IntegerRow for ((ElemId, usize), ElemId) {
    open spec fn columns(&self) -> Seq<int> {
        seq![self.0.0.0 as int, self.0.1 as int, self.1.0 as int]
    }

    fn to_columns(&self) -> (columns: Vec<i128>) {
        let mut columns: Vec<i128> = Vec::new();
        columns.push(self.0.0.0 as i128);
        columns.push(self.0.1 as i128);
        columns.push(self.1.0 as i128);
        columns
    }
}

} // verus!
