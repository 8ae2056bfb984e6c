//! A backend that stores facts in a SQLite database, in the layout that the
//! Souffle Datalog engine reads its input from.
//!
//! The backend gathers the facts in memory and turns them, on demand, into
//! the statements that create the database: a table `__SymbolTable` for the
//! interned strings, one private table for each relation, with the
//! relation's name after an underscore, and one view for each relation,
//! which shows strings in place of their symbols. The statements begin a
//! transaction, create the tables and views, insert every row, and commit.
//! Running them, in their order, against a database that holds none of these
//! tables is left to the caller.

use vstd::prelude::*;
use vstd::string::*;
use crate::backend::dump::dump_lines;
use crate::backend::rows::IntegerRow;
use crate::backend::symbols::{texts, SymbolId};
use crate::backend::vector;
use crate::backend::vector::{BackendData, DataModel, MapKey};
use crate::elem::{ElemId, ElemType};
use crate::error::{outcome, DatalogExtractionError, ErrorModel};
use crate::interface::{DatalogExtractorBackend, Fact};

verus! {

/// The statement that begins the transaction.
pub const BEGIN: &'static str = "BEGIN;";

/// The statement that commits the transaction.
pub const COMMIT: &'static str = "COMMIT;";

/// The tables and views of every relation but `map`.
pub const SCHEMA: &'static str = "CREATE TABLE __SymbolTable (
    id INTEGER NOT NULL,
    symbol TEXT NOT NULL,
    PRIMARY KEY (id)
);

CREATE TABLE _rootElem (
    file INTEGER NOT NULL,
    elem INTEGER NOT NULL,
    PRIMARY KEY (file)
);

CREATE VIEW rootElem AS
SELECT __SymbolTable.symbol AS file, _rootElem.elem as elem
FROM _rootElem INNER JOIN __SymbolTable
ON _rootElem.file = __SymbolTable.id;

CREATE TABLE _type (
    id INTEGER NOT NULL,
    type INTEGER NOT NULL,
    PRIMARY KEY (id)
);

CREATE VIEW type AS
SELECT _type.id AS id, __SymbolTable.symbol AS type
FROM _type INNER JOIN __SymbolTable
ON _type.type = __SymbolTable.id;

CREATE TABLE _bool (
    id INTEGER NOT NULL,
    value INTEGER NOT NULL,
    PRIMARY KEY (id),
    FOREIGN KEY(id) REFERENCES _type(id)
);

CREATE VIEW bool AS
SELECT id, value FROM _bool;

CREATE TABLE _number (
    id INTEGER NOT NULL,
    value INTEGER NOT NULL,
    PRIMARY KEY (id),
    FOREIGN KEY(id) REFERENCES _type(id)
);

CREATE VIEW number AS
SELECT id, value FROM _number;

CREATE TABLE _string (
    id INTEGER NOT NULL,
    value INTEGER NOT NULL,
    PRIMARY KEY (id),
    FOREIGN KEY(id) REFERENCES _type(id),
    FOREIGN KEY(value) REFERENCES __SymbolTable(id)
);

CREATE VIEW string AS
SELECT _string.id AS id, __SymbolTable.symbol AS value
FROM _string INNER JOIN __SymbolTable
ON _string.value = __SymbolTable.id;

CREATE TABLE _struct (
    id INTEGER NOT NULL,
    field INTEGER NOT NULL,
    value INTEGER NOT NULL,
    PRIMARY KEY (id, field),
    FOREIGN KEY(id) REFERENCES _type(id),
    FOREIGN KEY(field) REFERENCES __SymbolTable(id),
    FOREIGN KEY(value) REFERENCES _type(id)
);

CREATE VIEW struct AS
SELECT _struct.id AS id, __SymbolTable.symbol AS field, _struct.value AS value
FROM _struct INNER JOIN __SymbolTable
ON _struct.field = __SymbolTable.id;

CREATE TABLE _seq (
    id INTEGER NOT NULL,
    pos INTEGER NOT NULL,
    value INTEGER NOT NULL,
    PRIMARY KEY (id, pos),
    FOREIGN KEY(id) REFERENCES _type(id),
    FOREIGN KEY(value) REFERENCES _type(id)
);

CREATE VIEW seq AS
SELECT id, pos, value FROM _seq;

CREATE TABLE _tuple (
    id INTEGER NOT NULL,
    pos INTEGER NOT NULL,
    value INTEGER NOT NULL,
    PRIMARY KEY (id, pos),
    FOREIGN KEY(id) REFERENCES _type(id),
    FOREIGN KEY(value) REFERENCES _type(id)
);

CREATE VIEW tuple AS
SELECT id, pos, value FROM _tuple;

CREATE TABLE _structType (
    id INTEGER NOT NULL,
    type INTEGER NOT NULL,
    PRIMARY KEY (id),
    FOREIGN KEY(id) REFERENCES _type(id),
    FOREIGN KEY(type) REFERENCES __SymbolTable(id)
);

CREATE VIEW structType AS
SELECT _structType.id AS id, __SymbolTable.symbol AS type
FROM _structType INNER JOIN __SymbolTable
ON _structType.type = __SymbolTable.id;

CREATE TABLE _variantType (
    id INTEGER NOT NULL,
    type INTEGER NOT NULL,
    variant INTEGER NOT NULL,
    PRIMARY KEY (id),
    FOREIGN KEY(id) REFERENCES _type(id),
    FOREIGN KEY(type) REFERENCES __SymbolTable(id),
    FOREIGN KEY(variant) REFERENCES __SymbolTable(id)
);

CREATE VIEW variantType AS
SELECT _variantType.id AS id, s1.symbol AS type, s2.symbol AS variant
FROM _variantType
    INNER JOIN __SymbolTable AS s1 ON _variantType.type = s1.id
    INNER JOIN __SymbolTable AS s2 ON _variantType.variant = s2.id;
";

/// The table and view of the relation `map` where a key is an element.
pub const MAP_SCHEMA: &'static str = "CREATE TABLE _map (
    id INTEGER NOT NULL,
    key INTEGER NOT NULL,
    value INTEGER NOT NULL,
    PRIMARY KEY (id, key),
    FOREIGN KEY(id) REFERENCES _type(id),
    FOREIGN KEY(key) REFERENCES _type(id),
    FOREIGN KEY(value) REFERENCES _type(id)
);

CREATE VIEW map AS
SELECT id, key, value FROM _map;
";

/// The table and view of the relation `map` where a key is a string.
pub const STRING_KEY_MAP_SCHEMA: &'static str = "CREATE TABLE _map (
    id INTEGER NOT NULL,
    key INTEGER NOT NULL,
    value INTEGER NOT NULL,
    PRIMARY KEY (id, key),
    FOREIGN KEY(id) REFERENCES _type(id),
    FOREIGN KEY(key) REFERENCES __SymbolTable(id),
    FOREIGN KEY(value) REFERENCES _type(id)
);

CREATE VIEW map AS
SELECT _map.id AS id, __SymbolTable.symbol AS key, _map.value AS value
FROM _map INNER JOIN __SymbolTable
ON _map.key = __SymbolTable.id;
";

/// The statement that inserts an interned string with its symbol.
pub const INSERT_SYMBOL: &'static str = "INSERT INTO __SymbolTable (id, symbol) VALUES (?1, ?2);";

/// The statement that inserts a file with its root element.
pub const INSERT_ROOT_ELEM: &'static str = "INSERT INTO _rootElem (file, elem) VALUES (?1, ?2);";

/// The statement that inserts an element with its type.
pub const INSERT_TYPE: &'static str = "INSERT INTO _type (id, type) VALUES (?1, ?2);";

/// The statement that inserts a boolean element with its value.
pub const INSERT_BOOL: &'static str = "INSERT INTO _bool (id, value) VALUES (?1, ?2);";

/// The statement that inserts a number element with its value.
pub const INSERT_NUMBER: &'static str = "INSERT INTO _number (id, value) VALUES (?1, ?2);";

/// The statement that inserts a string element with its value.
pub const INSERT_STRING: &'static str = "INSERT INTO _string (id, value) VALUES (?1, ?2);";

/// The statement that inserts a field of a struct.
pub const INSERT_STRUCT: &'static str =
    "INSERT INTO _struct (id, field, value) VALUES (?1, ?2, ?3);";

/// The statement that inserts an entry of a sequence.
pub const INSERT_SEQ: &'static str = "INSERT INTO _seq (id, pos, value) VALUES (?1, ?2, ?3);";

/// The statement that inserts an entry of a tuple.
pub const INSERT_TUPLE: &'static str = "INSERT INTO _tuple (id, pos, value) VALUES (?1, ?2, ?3);";

/// The statement that inserts a struct with its type name.
pub const INSERT_STRUCT_TYPE: &'static str = "INSERT INTO _structType (id, type) VALUES (?1, ?2);";

/// The statement that inserts an enum variant with its names.
pub const INSERT_VARIANT_TYPE: &'static str =
    "INSERT INTO _variantType (id, type, variant) VALUES (?1, ?2, ?3);";

/// The statement that inserts an entry of a map.
pub const INSERT_MAP: &'static str = "INSERT INTO _map (id, key, value) VALUES (?1, ?2, ?3);";

/// A value bound to a parameter of a statement.
pub enum SqlValue {
    Integer(i64),
    Text(String),
}

/// A statement of the database's language, with the values of its
/// parameters, in their order.
pub struct Statement {
    pub sql: String,
    pub params: Vec<SqlValue>,
}

/// What a parameter is bound to: an integer or a text.
pub enum Cell {
    Integer(int),
    Text(Seq<char>),
}

/// What a statement says: its text and what its parameters are bound to.
pub struct StatementModel {
    pub sql: Seq<char>,
    pub params: Seq<Cell>,
}

impl View for SqlValue {
    type V = Cell;

    open spec fn view(&self) -> Cell {
        match *self {
            SqlValue::Integer(n) => Cell::Integer(n as int),
            SqlValue::Text(text) => Cell::Text(text@),
        }
    }
}

/// What a list of parameters is bound to.
pub open spec fn cells(params: Seq<SqlValue>) -> Seq<Cell> {
    params.map_values(|p: SqlValue| p@)
}

impl View for Statement {
    type V = StatementModel;

    open spec fn view(&self) -> StatementModel {
        StatementModel { sql: self.sql@, params: cells(self.params@) }
    }
}

/// The content of a list of statements.
pub open spec fn statements(list: Seq<Statement>) -> Seq<StatementModel> {
    list.map_values(|statement: Statement| statement@)
}

/// A statement without parameters.
pub open spec fn plain(sql: Seq<char>) -> StatementModel {
    StatementModel { sql, params: Seq::empty() }
}

/// The statement that inserts one row of integers.
pub open spec fn insert(sql: Seq<char>, columns: Seq<int>) -> StatementModel {
    StatementModel { sql, params: columns.map_values(|column: int| Cell::Integer(column)) }
}

/// The statements that insert `rows`, one for each row, in their order.
pub open spec fn inserts<R: IntegerRow>(sql: Seq<char>, rows: Seq<R>) -> Seq<StatementModel> {
    rows.map_values(|row: R| insert(sql, row.columns()))
}

/// The statements that insert the interned strings: the string at position
/// `i` with the symbol `i + 1`.
pub open spec fn symbol_inserts(symbols: Seq<Seq<char>>) -> Seq<StatementModel> {
    Seq::new(
        symbols.len(),
        |i: int|
            StatementModel {
                sql: INSERT_SYMBOL@,
                params: seq![Cell::Integer(i + 1), Cell::Text(symbols[i])],
            },
    )
}

/// The first of the first `n` of `params` that is an integer too large for
/// the database, if there is one. The database holds signed integers of 64
/// bits.
pub open spec fn param_overflow(params: Seq<Cell>, n: nat) -> Option<int>
    decreases n,
{
    if n == 0 || n > params.len() {
        None
    } else {
        match param_overflow(params, (n - 1) as nat) {
            Some(found) => Some(found),
            None => match params[n - 1] {
                Cell::Integer(value) => if value > i64::MAX {
                    Some(value)
                } else {
                    None
                },
                Cell::Text(_) => None,
            },
        }
    }
}

/// The first integer too large for the database among the parameters of the
/// first `n` of `list`, if there is one.
pub open spec fn overflow(list: Seq<StatementModel>, n: nat) -> Option<int>
    decreases n,
{
    if n == 0 || n > list.len() {
        None
    } else {
        match overflow(list, (n - 1) as nat) {
            Some(found) => Some(found),
            None => param_overflow(list[n - 1].params, list[n - 1].params.len()),
        }
    }
}

/// The first `n` of `parts`, one after the other.
pub open spec fn joined(parts: Seq<Seq<StatementModel>>, n: nat) -> Seq<StatementModel>
    decreases n,
{
    if n == 0 || n > parts.len() {
        Seq::empty()
    } else {
        joined(parts, (n - 1) as nat) + parts[n - 1]
    }
}

/// The statements that store the tables `m`, in parts: the beginning of the
/// transaction; the tables and views of all relations but `map`; the rows of
/// the symbol table and of each of these relations; the table and view of
/// `map`, which is `map_schema`; its rows; and the commit.
pub open spec fn script_parts<K: MapKey>(m: DataModel<K>, map_schema: Seq<char>) -> Seq<
    Seq<StatementModel>,
> {
    seq![
        seq![plain(BEGIN@), plain(SCHEMA@)],
        symbol_inserts(m.symbols),
        inserts(INSERT_ROOT_ELEM@, m.root_elems),
        inserts(INSERT_TYPE@, m.types),
        inserts(INSERT_BOOL@, m.bools),
        inserts(INSERT_NUMBER@, m.numbers),
        inserts(INSERT_STRING@, m.strings),
        inserts(INSERT_STRUCT@, m.structs),
        inserts(INSERT_SEQ@, m.seqs),
        inserts(INSERT_TUPLE@, m.tuples),
        inserts(INSERT_STRUCT_TYPE@, m.struct_types),
        inserts(INSERT_VARIANT_TYPE@, m.variant_types),
        seq![plain(map_schema)],
        inserts(INSERT_MAP@, m.maps),
        seq![plain(COMMIT@)],
    ]
}

/// The statements that store the tables `m` in a database.
pub open spec fn script<K: MapKey>(m: DataModel<K>, map_schema: Seq<char>) -> Seq<StatementModel> {
    joined(script_parts(m, map_schema), script_parts(m, map_schema).len())
}

/// What the conversion of tables into statements gives: the statements
/// where every integer fits the database, else the error that names the
/// first integer that does not.
pub open spec fn script_outcome(list: Seq<StatementModel>) -> Result<
    Seq<StatementModel>,
    ErrorModel,
> {
    match overflow(list, list.len()) {
        Some(found) => Err(ErrorModel::IntegerCastOverflow(found as u64)),
        None => Ok(list),
    }
}

/// The content of the result of a conversion into statements.
pub open spec fn script_result(r: Result<Vec<Statement>, DatalogExtractionError>) -> Result<
    Seq<StatementModel>,
    ErrorModel,
> {
    match r {
        Ok(list) => Ok(statements(list@)),
        Err(e) => Err(e@),
    }
}

/// The first overflow of a list is that of its first part, or else that of
/// the rest.
pub proof fn lemma_overflow_concat(a: Seq<StatementModel>, b: Seq<StatementModel>, n: nat)
    requires
        n <= b.len(),
    ensures
        overflow(a + b, a.len() + n) == match overflow(a, a.len()) {
            Some(found) => Some(found),
            None => overflow(b, n),
        },
    decreases n,
{
    if n == 0 {
        lemma_overflow_prefix(a, a + b, a.len());
    } else {
        lemma_overflow_concat(a, b, (n - 1) as nat);
        assert((a + b)[a.len() + n - 1] == b[n - 1]);
    }
}

/// The first overflow among the first statements of a list depends on these
/// statements only.
pub proof fn lemma_overflow_prefix(a: Seq<StatementModel>, b: Seq<StatementModel>, n: nat)
    requires
        n <= a.len() <= b.len(),
        forall|i: int| 0 <= i < n ==> a[i] == b[i],
    ensures
        overflow(a, n) == overflow(b, n),
    decreases n,
{
    if n > 0 {
        lemma_overflow_prefix(a, b, (n - 1) as nat);
    }
}

/// The parts before an overflow decide the outcome: an overflow among the
/// first parts is the first overflow of any longer run of parts.
pub proof fn lemma_overflow_joined(parts: Seq<Seq<StatementModel>>, n: nat, m: nat)
    requires
        n <= m <= parts.len(),
    ensures
        overflow(joined(parts, n), joined(parts, n).len()) is Some ==> overflow(
            joined(parts, m),
            joined(parts, m).len(),
        ) == overflow(joined(parts, n), joined(parts, n).len()),
    decreases m,
{
    if n < m {
        lemma_overflow_joined(parts, n, (m - 1) as nat);
        lemma_overflow_concat(joined(parts, (m - 1) as nat), parts[m - 1], parts[m - 1].len());
    }
}

/// The statements so far, while tables are turned into statements.
struct Script {
    list: Vec<Statement>,
}

impl Script {
    /// Appends a statement without parameters.
    fn push_plain(&mut self, sql: &'static str)
        ensures
            statements(final(self).list@) == statements(old(self).list@).push(plain(sql@)),
    {
        self.list.push(Statement { sql: String::from_str(sql), params: Vec::new() });
        assert(statements(self.list@) =~= statements(old(self).list@).push(plain(sql@))) by {
            assert(self.list@.last()@.params =~= Seq::<Cell>::empty());
        }
    }

    /// Appends the statements that insert `rows`, or stops at the first
    /// integer that does not fit the database.
    fn push_rows<R: IntegerRow>(&mut self, sql: &'static str, rows: &Vec<R>) -> (r: Result<
        (),
        DatalogExtractionError,
    >)
        ensures
            match overflow(inserts(sql@, rows@), rows@.len()) {
                None => r is Ok && statements(final(self).list@) == statements(old(self).list@)
                    + inserts(sql@, rows@),
                Some(found) => r matches Err(e) && e@ == ErrorModel::IntegerCastOverflow(
                    found as u64,
                ),
            },
    {
        let ghost all = inserts(sql@, rows@);
        let mut i: usize = 0;
        while i < rows.len()
            invariant
                i <= rows.len(),
                all == inserts(sql@, rows@),
                overflow(all, i as nat) is None,
                statements(self.list@) == statements(old(self).list@) + all.take(i as int),
            decreases rows.len() - i,
        {
            let columns = rows[i].to_columns();
            let ghost target = all[i as int].params;
            let mut params: Vec<SqlValue> = Vec::new();
            let mut j: usize = 0;
            while j < columns.len()
                invariant
                    j <= columns.len(),
                    i < rows.len(),
                    all == inserts(sql@, rows@),
                    target == all[i as int].params,
                    columns@.len() == rows@[i as int].columns().len(),
                    forall|k: int|
                        0 <= k < columns@.len() ==> (#[trigger] columns@[k]) == rows@[i as int].columns()[k]
                            && i64::MIN <= columns@[k] <= u64::MAX,
                    param_overflow(target, j as nat) is None,
                    overflow(all, i as nat) is None,
                    cells(params@) == target.take(j as int),
                decreases columns.len() - j,
            {
                let column = columns[j];
                assert(target.len() == columns@.len());
                assert(target[j as int] == Cell::Integer(column as int));
                if column > 0x7fff_ffff_ffff_ffffi128 {
                    proof {
                        assert(param_overflow(target, (j + 1) as nat) == Some(column as int));
                        Self::lemma_param_overflow_found(target, (j + 1) as nat, target.len());
                        assert(overflow(all, (i + 1) as nat) == Some(column as int));
                        lemma_overflow_found(all, (i + 1) as nat, all.len());
                    }
                    return Err(DatalogExtractionError::IntegerCastOverflow(column as u64));
                }
                let ghost bound = cells(params@);
                params.push(SqlValue::Integer(column as i64));
                assert(cells(params@) =~= bound.push(Cell::Integer(column as int)));
                assert(target.take(j + 1) =~= target.take(j as int).push(target[j as int]));
                j = j + 1;
            }
            assert(target.take(target.len() as int) =~= target);
            assert(param_overflow(target, target.len()) is None);
            let ghost before = self.list@;
            self.list.push(Statement { sql: String::from_str(sql), params });
            assert(statements(self.list@) =~= statements(old(self).list@) + all.take(i + 1)) by {
                assert(self.list@.last()@ == all[i as int]);
                assert(statements(self.list@) =~= statements(before).push(all[i as int]));
                assert(all.take(i + 1) =~= all.take(i as int).push(all[i as int]));
            }
            i = i + 1;
        }
        assert(all.take(rows@.len() as int) =~= all);
        Ok(())
    }

    /// Appends the statements that insert the interned strings, or stops at
    /// the first symbol that does not fit the database.
    fn push_symbols(&mut self, table: &Vec<String>) -> (r: Result<(), DatalogExtractionError>)
        ensures
            match overflow(
                symbol_inserts(texts(table@)),
                table@.len(),
            ) {
                None => r is Ok && statements(final(self).list@) == statements(old(self).list@)
                    + symbol_inserts(texts(table@)),
                Some(found) => r matches Err(e) && e@ == ErrorModel::IntegerCastOverflow(
                    found as u64,
                ),
            },
    {
        let ghost all = symbol_inserts(texts(table@));
        let mut i: usize = 0;
        while i < table.len()
            invariant
                i <= table.len(),
                all == symbol_inserts(texts(table@)),
                overflow(all, i as nat) is None,
                statements(self.list@) == statements(old(self).list@) + all.take(i as int),
            decreases table.len() - i,
        {
            let ghost target = all[i as int].params;
            assert(param_overflow(target, 0) is None);
            assert(param_overflow(target, 2) == param_overflow(target, 1));
            if i as u64 >= 0x7fff_ffff_ffff_ffffu64 {
                proof {
                    assert(param_overflow(target, 1) == Some(i + 1));
                    lemma_overflow_found(all, (i + 1) as nat, all.len());
                }
                return Err(DatalogExtractionError::IntegerCastOverflow((i as u64) + 1));
            }
            let mut params: Vec<SqlValue> = Vec::new();
            params.push(SqlValue::Integer((i + 1) as i64));
            params.push(SqlValue::Text(table[i].clone()));
            let ghost before = self.list@;
            self.list.push(Statement { sql: String::from_str(INSERT_SYMBOL), params });
            assert(statements(self.list@) =~= statements(old(self).list@) + all.take(i + 1)) by {
                assert(self.list@.last()@.params =~= target);
                assert(self.list@.last()@ == all[i as int]);
                assert(statements(self.list@) =~= statements(before).push(all[i as int]));
                assert(all.take(i + 1) =~= all.take(i as int).push(all[i as int]));
            }
            i = i + 1;
        }
        assert(all.take(table@.len() as int) =~= all);
        Ok(())
    }

    /// Once an integer among the first parameters does not fit, it is the
    /// first overflow of all the parameters.
    proof fn lemma_param_overflow_found(params: Seq<Cell>, n: nat, m: nat)
        requires
            n <= m <= params.len(),
            param_overflow(params, n) is Some,
        ensures
            param_overflow(params, m) == param_overflow(params, n),
        decreases m,
    {
        if n < m {
            Self::lemma_param_overflow_found(params, n, (m - 1) as nat);
        }
    }
}

/// Once an integer among the first statements does not fit, it is the first
/// overflow of the whole list.
pub proof fn lemma_overflow_found(list: Seq<StatementModel>, n: nat, m: nat)
    requires
        n <= m <= list.len(),
        overflow(list, n) is Some,
    ensures
        overflow(list, m) == overflow(list, n),
    decreases m,
{
    if n < m {
        lemma_overflow_found(list, n, (m - 1) as nat);
    }
}

/// A part without an overflow keeps the list so far without one.
pub proof fn lemma_part_fits(parts: Seq<Seq<StatementModel>>, k: nat)
    requires
        k < parts.len(),
        overflow(joined(parts, k), joined(parts, k).len()) is None,
        overflow(parts[k as int], parts[k as int].len()) is None,
    ensures
        overflow(joined(parts, k + 1), joined(parts, k + 1).len()) is None,
{
    lemma_overflow_concat(joined(parts, k), parts[k as int], parts[k as int].len());
}

/// The first overflow of the first part that has one is the first overflow
/// of the whole list.
pub proof fn lemma_part_overflows(parts: Seq<Seq<StatementModel>>, k: nat)
    requires
        k < parts.len(),
        overflow(joined(parts, k), joined(parts, k).len()) is None,
        overflow(parts[k as int], parts[k as int].len()) is Some,
    ensures
        overflow(joined(parts, parts.len()), joined(parts, parts.len()).len()) == overflow(
            parts[k as int],
            parts[k as int].len(),
        ),
{
    lemma_overflow_concat(joined(parts, k), parts[k as int], parts[k as int].len());
    lemma_overflow_joined(parts, k + 1, parts.len());
}

/// The statements that store the tables `data` in a database whose table
/// and view of the relation `map` are those of `map_schema`. An identifier
/// or a symbol that is too large for the database is an error.
pub fn dump_to_db<K: MapKey>(data: &BackendData<K>, map_schema: &'static str) -> (r: Result<
    Vec<Statement>,
    DatalogExtractionError,
>)
    ensures
        script_result(r) == script_outcome(script(data@, map_schema@)),
{
    let ghost parts = script_parts(data@, map_schema@);
    let mut script = Script { list: Vec::new() };
    script.push_plain(BEGIN);
    script.push_plain(SCHEMA);
    proof {
        assert(parts.len() == 15);
        assert(statements(script.list@) =~= joined(parts, 1)) by {
            assert(joined(parts, 0) =~= Seq::<StatementModel>::empty());
        }
        assert(param_overflow(parts[0][0].params, 0) is None);
        assert(param_overflow(parts[0][1].params, 0) is None);
        assert(overflow(parts[0], 0) is None);
        assert(overflow(parts[0], 1) is None);
        assert(overflow(parts[0], 2) is None);
        lemma_part_fits(parts, 0);
    }
        match script.push_symbols(&data.symbol_table) {
            Err(e) => {
                proof {
                    lemma_part_overflows(parts, 1);
                }
                return Err(e);
            },
            Ok(_) => {
                proof {
                    lemma_part_fits(parts, 1);
                    assert(statements(script.list@) =~= joined(parts, 2));
                }
            },
        }
        match script.push_rows(INSERT_ROOT_ELEM, &data.root_elem_table) {
            Err(e) => {
                proof {
                    lemma_part_overflows(parts, 2);
                }
                return Err(e);
            },
            Ok(_) => {
                proof {
                    lemma_part_fits(parts, 2);
                    assert(statements(script.list@) =~= joined(parts, 3));
                }
            },
        }
        match script.push_rows(INSERT_TYPE, &data.type_table) {
            Err(e) => {
                proof {
                    lemma_part_overflows(parts, 3);
                }
                return Err(e);
            },
            Ok(_) => {
                proof {
                    lemma_part_fits(parts, 3);
                    assert(statements(script.list@) =~= joined(parts, 4));
                }
            },
        }
        match script.push_rows(INSERT_BOOL, &data.bool_table) {
            Err(e) => {
                proof {
                    lemma_part_overflows(parts, 4);
                }
                return Err(e);
            },
            Ok(_) => {
                proof {
                    lemma_part_fits(parts, 4);
                    assert(statements(script.list@) =~= joined(parts, 5));
                }
            },
        }
        match script.push_rows(INSERT_NUMBER, &data.number_table) {
            Err(e) => {
                proof {
                    lemma_part_overflows(parts, 5);
                }
                return Err(e);
            },
            Ok(_) => {
                proof {
                    lemma_part_fits(parts, 5);
                    assert(statements(script.list@) =~= joined(parts, 6));
                }
            },
        }
        match script.push_rows(INSERT_STRING, &data.string_table) {
            Err(e) => {
                proof {
                    lemma_part_overflows(parts, 6);
                }
                return Err(e);
            },
            Ok(_) => {
                proof {
                    lemma_part_fits(parts, 6);
                    assert(statements(script.list@) =~= joined(parts, 7));
                }
            },
        }
        match script.push_rows(INSERT_STRUCT, &data.struct_table) {
            Err(e) => {
                proof {
                    lemma_part_overflows(parts, 7);
                }
                return Err(e);
            },
            Ok(_) => {
                proof {
                    lemma_part_fits(parts, 7);
                    assert(statements(script.list@) =~= joined(parts, 8));
                }
            },
        }
        match script.push_rows(INSERT_SEQ, &data.seq_table) {
            Err(e) => {
                proof {
                    lemma_part_overflows(parts, 8);
                }
                return Err(e);
            },
            Ok(_) => {
                proof {
                    lemma_part_fits(parts, 8);
                    assert(statements(script.list@) =~= joined(parts, 9));
                }
            },
        }
        match script.push_rows(INSERT_TUPLE, &data.tuple_table) {
            Err(e) => {
                proof {
                    lemma_part_overflows(parts, 9);
                }
                return Err(e);
            },
            Ok(_) => {
                proof {
                    lemma_part_fits(parts, 9);
                    assert(statements(script.list@) =~= joined(parts, 10));
                }
            },
        }
        match script.push_rows(INSERT_STRUCT_TYPE, &data.struct_type_table) {
            Err(e) => {
                proof {
                    lemma_part_overflows(parts, 10);
                }
                return Err(e);
            },
            Ok(_) => {
                proof {
                    lemma_part_fits(parts, 10);
                    assert(statements(script.list@) =~= joined(parts, 11));
                }
            },
        }
        match script.push_rows(INSERT_VARIANT_TYPE, &data.variant_type_table) {
            Err(e) => {
                proof {
                    lemma_part_overflows(parts, 11);
                }
                return Err(e);
            },
            Ok(_) => {
                proof {
                    lemma_part_fits(parts, 11);
                    assert(statements(script.list@) =~= joined(parts, 12));
                }
            },
        }
        script.push_plain(map_schema);
        proof {
            assert(parts[12].len() == 1);
            assert(param_overflow(parts[12][0].params, 0) is None);
            assert(overflow(parts[12], 0) is None);
            assert(overflow(parts[12], 1) is None);
            lemma_part_fits(parts, 12);
            assert(statements(script.list@) =~= joined(parts, 13));
        }
        match script.push_rows(INSERT_MAP, &data.map_table) {
            Err(e) => {
                proof {
                    lemma_part_overflows(parts, 13);
                }
                return Err(e);
            },
            Ok(_) => {
                proof {
                    lemma_part_fits(parts, 13);
                    assert(statements(script.list@) =~= joined(parts, 14));
                }
            },
        }
        script.push_plain(COMMIT);
        proof {
            assert(parts[14].len() == 1);
            assert(param_overflow(parts[14][0].params, 0) is None);
            assert(overflow(parts[14], 0) is None);
            assert(overflow(parts[14], 1) is None);
            lemma_part_fits(parts, 14);
            assert(statements(script.list@) =~= joined(parts, 15));
        }
    Ok(script.list)
}

/// A backend that can give its facts as text and as the statements of a
/// database.
pub trait AbstractBackend: DatalogExtractorBackend {
    /// The statements that store the facts of the backend.
    spec fn stored(&self) -> Seq<StatementModel>;

    /// The facts of the backend as lines of text.
    spec fn dumped(&self) -> Seq<Seq<char>>;

    /// The tables of facts as lines of text, for a reader.
    fn dump(self) -> (lines: Vec<String>)
        ensures
            texts(lines@) == self.dumped(),
    ;

    /// The statements that store the facts in a SQLite database, for a
    /// database that holds none of the tables yet. An identifier or a symbol
    /// that is too large for the database is an error.
    fn dump_to_db(self) -> (r: Result<Vec<Statement>, DatalogExtractionError>)
        requires
            self.inv(),
        ensures
            script_result(r) == script_outcome(self.stored()),
    ;
}

/// The backend for the Souffle layout in which a map entry is keyed by the
/// element that is its key.
///
/// The relations follow this schema:
///
/// ```text
/// .type ElemId <: number
/// .type ElemType <: symbol
/// .type Field <: symbol
/// .type TypeName <: symbol
/// .type VariantName <: symbol
///
/// .decl rootElem(file: symbol, elem: ElemId)
/// .decl type(id: ElemId, type: ElemType)
/// .decl bool(id: ElemId, value: number)
/// .decl number(id: ElemId, value: number)
/// .decl string(id: ElemId, value: symbol)
/// .decl map(id: ElemId, key: ElemId, value: ElemId)
/// .decl struct(id: ElemId, field: Field, value: ElemId)
/// .decl seq(id: ElemId, pos: number, value: ElemId)
/// .decl tuple(id: ElemId, pos: number, value: ElemId)
/// .decl structType(id: ElemId, type: TypeName)
/// .decl variantType(id: ElemId, type: TypeName, variant: VariantName)
/// ```
pub struct Backend {
    vector_backend: vector::Backend,
}

/// The backend for the Souffle layout in which a map entry is keyed by a
/// string: the relation `map` is `map(id: ElemId, key: symbol, value:
/// ElemId)`, and every key of a map must be a string.
pub struct StringKeyBackend {
    vector_backend: vector::StringKeyBackend,
}

impl Default for Backend {
    /// A backend without facts.
    fn default() -> (backend: Self)
        ensures
            backend.model() == DataModel::<ElemId>::initial(),
            backend.inv(),
    {
        Backend { vector_backend: vector::Backend::default() }
    }
}

impl Default for StringKeyBackend {
    /// A backend without facts.
    fn default() -> (backend: Self)
        ensures
            backend.model() == DataModel::<SymbolId>::initial(),
            backend.inv(),
    {
        StringKeyBackend { vector_backend: vector::StringKeyBackend::default() }
    }
}

impl Backend {
    /// The tables of facts that the backend has accumulated.
    pub fn get_data(self) -> (data: BackendData<ElemId>)
        ensures
            data@ == self.model(),
    {
        self.vector_backend.get_data()
    }
}

impl StringKeyBackend {
    /// The tables of facts that the backend has accumulated.
    pub fn get_data(self) -> (data: BackendData<SymbolId>)
        ensures
            data@ == self.model(),
    {
        self.vector_backend.get_data()
    }
}

impl AbstractBackend for Backend {
    open spec fn stored(&self) -> Seq<StatementModel> {
        script(self.model(), MAP_SCHEMA@)
    }

    open spec fn dumped(&self) -> Seq<Seq<char>> {
        dump_lines(self.model())
    }

    fn dump(self) -> (lines: Vec<String>) {
        self.vector_backend.dump()
    }

    fn dump_to_db(self) -> (r: Result<Vec<Statement>, DatalogExtractionError>) {
        let data = self.vector_backend.get_data();
        dump_to_db(&data, MAP_SCHEMA)
    }
}

impl AbstractBackend for StringKeyBackend {
    open spec fn stored(&self) -> Seq<StatementModel> {
        script(self.model(), STRING_KEY_MAP_SCHEMA@)
    }

    open spec fn dumped(&self) -> Seq<Seq<char>> {
        dump_lines(self.model())
    }

    fn dump(self) -> (lines: Vec<String>) {
        self.vector_backend.dump()
    }

    fn dump_to_db(self) -> (r: Result<Vec<Statement>, DatalogExtractionError>) {
        let data = self.vector_backend.get_data();
        dump_to_db(&data, STRING_KEY_MAP_SCHEMA)
    }
}

impl DatalogExtractorBackend for Backend {
    type Model = DataModel<ElemId>;

    closed spec fn model(&self) -> DataModel<ElemId> {
        self.vector_backend.model()
    }

    open spec fn inv(&self) -> bool {
        self.model().wf()
    }

    open spec fn apply(m: DataModel<ElemId>, fact: Fact) -> (
        DataModel<ElemId>,
        Result<(), ErrorModel>,
    ) {
        vector::Backend::apply(m, fact)
    }

    proof fn lemma_rejects_unextractable(m: DataModel<ElemId>, elem: ElemId, elem_type: ElemType) {
    }

    fn add_root_elem(&mut self, file: &str, elem: ElemId) -> (r: Result<
        (),
        DatalogExtractionError,
    >) {
        self.vector_backend.add_root_elem(file, elem)
    }

    fn add_elem(&mut self, elem: ElemId, elem_type: ElemType) -> (r: Result<
        (),
        DatalogExtractionError,
    >) {
        self.vector_backend.add_elem(elem, elem_type)
    }

    fn add_bool(&mut self, elem: ElemId, value: bool) -> (r: Result<(), DatalogExtractionError>) {
        self.vector_backend.add_bool(elem, value)
    }

    fn add_i64(&mut self, elem: ElemId, value: i64) -> (r: Result<(), DatalogExtractionError>) {
        self.vector_backend.add_i64(elem, value)
    }

    fn add_u64(&mut self, elem: ElemId, value: u64) -> (r: Result<(), DatalogExtractionError>) {
        self.vector_backend.add_u64(elem, value)
    }

    fn add_str(&mut self, elem: ElemId, value: &str) -> (r: Result<(), DatalogExtractionError>) {
        self.vector_backend.add_str(elem, value)
    }


    fn add_map_entry(&mut self, elem: ElemId, key: ElemId, value: ElemId) -> (r: Result<
        (),
        DatalogExtractionError,
    >) {
        self.vector_backend.add_map_entry(elem, key, value)
    }

    fn add_struct_type(&mut self, elem: ElemId, struct_name: &str) -> (r: Result<
        (),
        DatalogExtractionError,
    >) {
        self.vector_backend.add_struct_type(elem, struct_name)
    }

    fn add_struct_entry(&mut self, elem: ElemId, key: &str, value: ElemId) -> (r: Result<
        (),
        DatalogExtractionError,
    >) {
        self.vector_backend.add_struct_entry(elem, key, value)
    }

    fn add_seq_entry(&mut self, elem: ElemId, pos: usize, value: ElemId) -> (r: Result<
        (),
        DatalogExtractionError,
    >) {
        self.vector_backend.add_seq_entry(elem, pos, value)
    }

    fn add_variant_type(&mut self, elem: ElemId, enum_name: &str, variant_name: &str) -> (r:
        Result<(), DatalogExtractionError>) {
        self.vector_backend.add_variant_type(elem, enum_name, variant_name)
    }

    fn add_tuple_entry(&mut self, elem: ElemId, pos: usize, value: ElemId) -> (r: Result<
        (),
        DatalogExtractionError,
    >) {
        self.vector_backend.add_tuple_entry(elem, pos, value)
    }
}

impl DatalogExtractorBackend for StringKeyBackend {
    type Model = DataModel<SymbolId>;

    closed spec fn model(&self) -> DataModel<SymbolId> {
        self.vector_backend.model()
    }

    open spec fn inv(&self) -> bool {
        self.model().wf()
    }

    open spec fn apply(m: DataModel<SymbolId>, fact: Fact) -> (
        DataModel<SymbolId>,
        Result<(), ErrorModel>,
    ) {
        vector::StringKeyBackend::apply(m, fact)
    }

    proof fn lemma_rejects_unextractable(m: DataModel<SymbolId>, elem: ElemId, elem_type: ElemType) {
    }

    fn add_root_elem(&mut self, file: &str, elem: ElemId) -> (r: Result<
        (),
        DatalogExtractionError,
    >) {
        self.vector_backend.add_root_elem(file, elem)
    }

    fn add_elem(&mut self, elem: ElemId, elem_type: ElemType) -> (r: Result<
        (),
        DatalogExtractionError,
    >) {
        self.vector_backend.add_elem(elem, elem_type)
    }

    fn add_bool(&mut self, elem: ElemId, value: bool) -> (r: Result<(), DatalogExtractionError>) {
        self.vector_backend.add_bool(elem, value)
    }

    fn add_i64(&mut self, elem: ElemId, value: i64) -> (r: Result<(), DatalogExtractionError>) {
        self.vector_backend.add_i64(elem, value)
    }

    fn add_u64(&mut self, elem: ElemId, value: u64) -> (r: Result<(), DatalogExtractionError>) {
        self.vector_backend.add_u64(elem, value)
    }

    fn add_str(&mut self, elem: ElemId, value: &str) -> (r: Result<(), DatalogExtractionError>) {
        self.vector_backend.add_str(elem, value)
    }


    fn add_map_entry(&mut self, elem: ElemId, key: ElemId, value: ElemId) -> (r: Result<
        (),
        DatalogExtractionError,
    >) {
        self.vector_backend.add_map_entry(elem, key, value)
    }

    fn add_struct_type(&mut self, elem: ElemId, struct_name: &str) -> (r: Result<
        (),
        DatalogExtractionError,
    >) {
        self.vector_backend.add_struct_type(elem, struct_name)
    }

    fn add_struct_entry(&mut self, elem: ElemId, key: &str, value: ElemId) -> (r: Result<
        (),
        DatalogExtractionError,
    >) {
        self.vector_backend.add_struct_entry(elem, key, value)
    }

    fn add_seq_entry(&mut self, elem: ElemId, pos: usize, value: ElemId) -> (r: Result<
        (),
        DatalogExtractionError,
    >) {
        self.vector_backend.add_seq_entry(elem, pos, value)
    }

    fn add_variant_type(&mut self, elem: ElemId, enum_name: &str, variant_name: &str) -> (r:
        Result<(), DatalogExtractionError>) {
        self.vector_backend.add_variant_type(elem, enum_name, variant_name)
    }

    fn add_tuple_entry(&mut self, elem: ElemId, pos: usize, value: ElemId) -> (r: Result<
        (),
        DatalogExtractionError,
    >) {
        self.vector_backend.add_tuple_entry(elem, pos, value)
    }
}

} // verus!
