//! A backend that keeps facts in memory, one table of rows for each
//! relation. Strings are interned: the tables hold a string's `SymbolId`
//! instead of the string itself.

use vstd::prelude::*;
use crate::backend::dump::dump_lines;
use crate::backend::rows::{
    find_key, has_key, key_position, lemma_push_keeps_keys_unique,
    lemma_remove_keeps_keys_unique, unique_keys, IntegerRow, RowKey,
};
use crate::backend::symbols::{
    find_symbol, intern, interned, known_symbol, lemma_intern_twice, symbol_for, symbol_of, texts,
};
pub use crate::backend::symbols::SymbolId;
use crate::elem::{ElemId, ElemType};
use crate::error::{outcome, DatalogExtractionError, ErrorModel};
use crate::interface::{declined, DatalogExtractorBackend, Fact};

verus! {

/// The number of names in the vocabulary of element types.
pub const VOCABULARY_SIZE: usize = 13;

/// The names of the element types, in the order in which a new backend
/// interns them: the name at position `i` has the symbol `i + 1`.
pub open spec fn vocabulary() -> Seq<Seq<char>> {
    seq![
        "Bool"@,
        "Number"@,
        "Str"@,
        "Map"@,
        "Seq"@,
        "Struct"@,
        "StructVariant"@,
        "Tuple"@,
        "TupleStruct"@,
        "TupleVariant"@,
        "Unit"@,
        "UnitStruct"@,
        "UnitVariant"@,
    ]
}

/// The symbol under which the `type` relation files an element of the given
/// shape. All integer widths are numbers, a character is a string, and a
/// newtype is a tuple of one.
pub open spec fn type_symbol(elem_type: ElemType) -> SymbolId {
    match elem_type {
        ElemType::Bool => SymbolId(1),
        ElemType::I8
        | ElemType::I16
        | ElemType::I32
        | ElemType::I64
        | ElemType::U8
        | ElemType::U16
        | ElemType::U32
        | ElemType::U64 => SymbolId(2),
        ElemType::Char | ElemType::Str => SymbolId(3),
        ElemType::Mapping => SymbolId(4),
        ElemType::Sequence => SymbolId(5),
        ElemType::Struct => SymbolId(6),
        ElemType::StructVariant => SymbolId(7),
        ElemType::Tuple => SymbolId(8),
        ElemType::TupleStruct | ElemType::NewtypeStruct => SymbolId(9),
        ElemType::TupleVariant | ElemType::NewtypeVariant => SymbolId(10),
        ElemType::Unit => SymbolId(11),
        ElemType::UnitStruct => SymbolId(12),
        ElemType::UnitVariant => SymbolId(13),
        ElemType::F32 | ElemType::F64 | ElemType::Bytes => SymbolId(0),
    }
}

/// Whether `symbols` begins with the vocabulary of element types.
pub open spec fn has_vocabulary(symbols: Seq<Seq<char>>) -> bool {
    &&& symbols.len() >= vocabulary().len()
    &&& forall|i: int| 0 <= i < vocabulary().len() ==> #[trigger] symbols[i] == vocabulary()[i]
}

/// The names of the vocabulary are thirteen different strings.
pub proof fn lemma_vocabulary_distinct()
    ensures
        vocabulary().len() == VOCABULARY_SIZE,
        vocabulary().no_duplicates(),
{
    reveal_strlit("Bool");
    reveal_strlit("Number");
    reveal_strlit("Str");
    reveal_strlit("Map");
    reveal_strlit("Seq");
    reveal_strlit("Struct");
    reveal_strlit("StructVariant");
    reveal_strlit("Tuple");
    reveal_strlit("TupleStruct");
    reveal_strlit("TupleVariant");
    reveal_strlit("Unit");
    reveal_strlit("UnitStruct");
    reveal_strlit("UnitVariant");
    let v = vocabulary();
    assert(v[0].len() == 4 && v[0][0] == 'B');
    assert(v[1].len() == 6 && v[1][0] == 'N');
    assert(v[2].len() == 3 && v[2][1] == 't');
    assert(v[3].len() == 3 && v[3][0] == 'M');
    assert(v[4].len() == 3 && v[4][1] == 'e');
    assert(v[5].len() == 6 && v[5][0] == 'S');
    assert(v[6].len() == 13 && v[6][0] == 'S');
    assert(v[7].len() == 5 && v[7][0] == 'T');
    assert(v[8].len() == 11 && v[8][0] == 'T');
    assert(v[9].len() == 12 && v[9][0] == 'T');
    assert(v[10].len() == 4 && v[10][0] == 'U');
    assert(v[11].len() == 10 && v[11][0] == 'U');
    assert(v[12].len() == 11 && v[12][0] == 'U');
}

/// The name of the relation-level type of an element shape, or `None` for a
/// shape that facts cannot represent.
fn vocabulary_name(elem_type: ElemType) -> (name: Option<&'static str>)
    ensures
        match name {
            Some(n) => elem_type.extractable() && n@ == vocabulary()[type_symbol(elem_type).0 - 1],
            None => !elem_type.extractable(),
        },
{
    match elem_type {
        ElemType::Bool => Some("Bool"),
        ElemType::I8
        | ElemType::I16
        | ElemType::I32
        | ElemType::I64
        | ElemType::U8
        | ElemType::U16
        | ElemType::U32
        | ElemType::U64 => Some("Number"),
        ElemType::Char | ElemType::Str => Some("Str"),
        ElemType::F32 | ElemType::F64 | ElemType::Bytes => None,
        ElemType::Mapping => Some("Map"),
        ElemType::Sequence => Some("Seq"),
        ElemType::Struct => Some("Struct"),
        ElemType::StructVariant => Some("StructVariant"),
        ElemType::Tuple => Some("Tuple"),
        ElemType::TupleStruct | ElemType::NewtypeStruct => Some("TupleStruct"),
        ElemType::TupleVariant | ElemType::NewtypeVariant => Some("TupleVariant"),
        ElemType::Unit => Some("Unit"),
        ElemType::UnitStruct => Some("UnitStruct"),
        ElemType::UnitVariant => Some("UnitVariant"),
    }
}

/// The name under which a shape that facts cannot represent is reported.
fn rejected_name(elem_type: ElemType) -> (name: &'static str)
    requires
        !elem_type.extractable(),
    ensures
        name@ == elem_type.rejected_name(),
{
    match elem_type {
        ElemType::F32 => "f32",
        ElemType::F64 => "f64",
        _ => "bytes",
    }
}

/// The key of a map entry: the element that is the key, or the symbol of the
/// string that is the key.
pub trait MapKey: RowKey + Copy {
    /// The number behind the key.
    spec fn raw(self) -> usize;

    /// Whether the key refers to something that exists among `symbols`
    /// interned strings.
    spec fn known_key(self, symbols: nat) -> bool;

    /// A key that refers to something that exists keeps doing so when more
    /// strings are interned.
    proof fn lemma_known_key_grows(key: Self, symbols: nat, more: nat)
        requires
            key.known_key(symbols),
            symbols <= more,
        ensures
            key.known_key(more),
    ;

    /// The number behind the key.
    fn index(&self) -> (n: usize)
        ensures
            n == self.raw(),
    ;
}

impl MapKey for ElemId {
    open spec fn raw(self) -> usize {
        self.0
    }

    open spec fn known_key(self, symbols: nat) -> bool {
        true
    }

    proof fn lemma_known_key_grows(key: Self, symbols: nat, more: nat) {
    }

    fn index(&self) -> (n: usize) {
        self.0
    }
}

impl MapKey for SymbolId {
    open spec fn raw(self) -> usize {
        self.0
    }

    open spec fn known_key(self, symbols: nat) -> bool {
        known_symbol(self, symbols)
    }

    proof fn lemma_known_key_grows(key: Self, symbols: nat, more: nat) {
    }

    fn index(&self) -> (n: usize) {
        self.0
    }
}

/// The tables of facts that a backend has accumulated. Every table but the
/// symbol table holds rows of a key and a value; the symbol of the string at
/// position `i` of the symbol table is `i + 1`.
pub struct BackendData<K: MapKey> {
    /// The interned strings, in the order of their symbols.
    pub symbol_table: Vec<String>,
    /// Columns: (file, root elem)
    pub root_elem_table: Vec<(SymbolId, ElemId)>,
    /// Columns: (elem, elem type)
    pub type_table: Vec<(ElemId, SymbolId)>,
    /// Columns: (elem, value)
    pub bool_table: Vec<(ElemId, bool)>,
    /// Columns: (elem, value)
    pub number_table: Vec<(ElemId, i64)>,
    /// Columns: (elem, symbol)
    pub string_table: Vec<(ElemId, SymbolId)>,
    /// Columns: ((elem, key), value)
    pub map_table: Vec<((ElemId, K), ElemId)>,
    /// Columns: (elem, struct name)
    pub struct_type_table: Vec<(ElemId, SymbolId)>,
    /// Columns: ((elem, field name), value elem)
    pub struct_table: Vec<((ElemId, SymbolId), ElemId)>,
    /// Columns: ((elem, index), value)
    pub seq_table: Vec<((ElemId, usize), ElemId)>,
    /// Columns: (elem, (enum name, variant name))
    pub variant_type_table: Vec<(ElemId, (SymbolId, SymbolId))>,
    /// Columns: ((elem, index), value)
    pub tuple_table: Vec<((ElemId, usize), ElemId)>,
}

/// The content of a `BackendData`: the interned strings and the rows of each
/// relation, in the order in which they came.
#[verifier::ext_equal]
pub struct DataModel<K> {
    pub symbols: Seq<Seq<char>>,
    pub root_elems: Seq<(SymbolId, ElemId)>,
    pub types: Seq<(ElemId, SymbolId)>,
    pub bools: Seq<(ElemId, bool)>,
    pub numbers: Seq<(ElemId, i64)>,
    pub strings: Seq<(ElemId, SymbolId)>,
    pub maps: Seq<((ElemId, K), ElemId)>,
    pub struct_types: Seq<(ElemId, SymbolId)>,
    pub structs: Seq<((ElemId, SymbolId), ElemId)>,
    pub seqs: Seq<((ElemId, usize), ElemId)>,
    pub variant_types: Seq<(ElemId, (SymbolId, SymbolId))>,
    pub tuples: Seq<((ElemId, usize), ElemId)>,
}

impl<K: MapKey> View for BackendData<K> {
    type V = DataModel<K>;

    open spec fn view(&self) -> DataModel<K> {
        DataModel {
            symbols: texts(self.symbol_table@),
            root_elems: self.root_elem_table@,
            types: self.type_table@,
            bools: self.bool_table@,
            numbers: self.number_table@,
            strings: self.string_table@,
            maps: self.map_table@,
            struct_types: self.struct_type_table@,
            structs: self.struct_table@,
            seqs: self.seq_table@,
            variant_types: self.variant_type_table@,
            tuples: self.tuple_table@,
        }
    }
}

impl<K: MapKey> DataModel<K> {
    /// The content of a new backend: the vocabulary of element types is
    /// interned and every relation is empty.
    pub open spec fn initial() -> Self {
        DataModel {
            symbols: vocabulary(),
            root_elems: Seq::empty(),
            types: Seq::empty(),
            bools: Seq::empty(),
            numbers: Seq::empty(),
            strings: Seq::empty(),
            maps: Seq::empty(),
            struct_types: Seq::empty(),
            structs: Seq::empty(),
            seqs: Seq::empty(),
            variant_types: Seq::empty(),
            tuples: Seq::empty(),
        }
    }

    /// Whether `id` stands for an interned string.
    pub open spec fn known(self, id: SymbolId) -> bool {
        known_symbol(id, self.symbols.len())
    }

    /// Whether every symbol in a row stands for an interned string.
    pub open spec fn symbols_known(self) -> bool {
        &&& forall|i: int|
            0 <= i < self.root_elems.len() ==> self.known((#[trigger] self.root_elems[i]).0)
        &&& forall|i: int|
            0 <= i < self.types.len() ==> 1 <= (#[trigger] self.types[i]).1.0 <= VOCABULARY_SIZE
        &&& forall|i: int| 0 <= i < self.strings.len() ==> self.known((#[trigger] self.strings[i]).1)
        &&& forall|i: int|
            0 <= i < self.maps.len() ==> (#[trigger] self.maps[i]).0.1.known_key(
                self.symbols.len(),
            )
        &&& forall|i: int|
            0 <= i < self.struct_types.len() ==> self.known((#[trigger] self.struct_types[i]).1)
        &&& forall|i: int|
            0 <= i < self.structs.len() ==> self.known((#[trigger] self.structs[i]).0.1)
        &&& forall|i: int|
            0 <= i < self.variant_types.len() ==> self.known(
                (#[trigger] self.variant_types[i]).1.0,
            ) && self.known(self.variant_types[i].1.1)
    }

    /// Whether no relation holds two rows with the same key.
    pub open spec fn keys_unique(self) -> bool {
        &&& unique_keys(self.root_elems)
        &&& unique_keys(self.types)
        &&& unique_keys(self.bools)
        &&& unique_keys(self.numbers)
        &&& unique_keys(self.strings)
        &&& unique_keys(self.maps)
        &&& unique_keys(self.struct_types)
        &&& unique_keys(self.structs)
        &&& unique_keys(self.seqs)
        &&& unique_keys(self.variant_types)
        &&& unique_keys(self.tuples)
    }

    /// The invariant of the tables: each string is interned once, the
    /// vocabulary of element types comes first, keys are unique, and every
    /// symbol in a row stands for an interned string.
    pub open spec fn wf(self) -> bool {
        &&& self.symbols.len() <= usize::MAX
        &&& self.symbols.no_duplicates()
        &&& has_vocabulary(self.symbols)
        &&& self.keys_unique()
        &&& self.symbols_known()
    }

    /// The fact that `elem` has the shape `elem_type`.
    pub open spec fn with_elem(self, elem: ElemId, elem_type: ElemType) -> (
        Self,
        Result<(), ErrorModel>,
    ) {
        if !elem_type.extractable() {
            declined(self, elem_type.rejected_name())
        } else if has_key(self.types, elem) {
            (self, Err(ErrorModel::NonuniqueIdentifier(elem)))
        } else {
            (DataModel { types: self.types.push((elem, type_symbol(elem_type))), ..self }, Ok(()))
        }
    }

    /// The fact that `elem` is the root element of `file`.
    pub open spec fn with_root_elem(self, file: Seq<char>, elem: ElemId) -> (
        Self,
        Result<(), ErrorModel>,
    ) {
        let sym = symbol_for(self.symbols, file);
        if has_key(self.root_elems, sym) {
            (self, Err(ErrorModel::NonuniqueRootElement(file)))
        } else {
            (
                DataModel {
                    symbols: interned(self.symbols, file),
                    root_elems: self.root_elems.push((sym, elem)),
                    ..self
                },
                Ok(()),
            )
        }
    }

    /// The fact that `elem` is a boolean.
    pub open spec fn with_bool(self, elem: ElemId, value: bool) -> (Self, Result<(), ErrorModel>) {
        if has_key(self.bools, elem) {
            (self, Err(ErrorModel::NonuniqueIdentifier(elem)))
        } else {
            (DataModel { bools: self.bools.push((elem, value)), ..self }, Ok(()))
        }
    }

    /// The fact that `elem` is a signed number.
    pub open spec fn with_i64(self, elem: ElemId, value: i64) -> (Self, Result<(), ErrorModel>) {
        if has_key(self.numbers, elem) {
            (self, Err(ErrorModel::NonuniqueIdentifier(elem)))
        } else {
            (DataModel { numbers: self.numbers.push((elem, value)), ..self }, Ok(()))
        }
    }

    /// The fact that `elem` is an unsigned number. The relation holds signed
    /// numbers: a value above the largest of them is refused.
    pub open spec fn with_u64(self, elem: ElemId, value: u64) -> (Self, Result<(), ErrorModel>) {
        if value > i64::MAX {
            (self, Err(ErrorModel::IntegerCastOverflow(value)))
        } else {
            self.with_i64(elem, value as i64)
        }
    }

    /// The fact that `elem` is a string.
    pub open spec fn with_str(self, elem: ElemId, value: Seq<char>) -> (
        Self,
        Result<(), ErrorModel>,
    ) {
        if has_key(self.strings, elem) {
            (self, Err(ErrorModel::NonuniqueIdentifier(elem)))
        } else {
            (
                DataModel {
                    symbols: interned(self.symbols, value),
                    strings: self.strings.push((elem, symbol_for(self.symbols, value))),
                    ..self
                },
                Ok(()),
            )
        }
    }

    /// The fact that the struct `elem` has the type name `struct_name`.
    pub open spec fn with_struct_type(self, elem: ElemId, struct_name: Seq<char>) -> (
        Self,
        Result<(), ErrorModel>,
    ) {
        if has_key(self.struct_types, elem) {
            (self, Err(ErrorModel::NonuniqueIdentifier(elem)))
        } else {
            (
                DataModel {
                    symbols: interned(self.symbols, struct_name),
                    struct_types: self.struct_types.push(
                        (elem, symbol_for(self.symbols, struct_name)),
                    ),
                    ..self
                },
                Ok(()),
            )
        }
    }

    /// The fact that the struct `elem` holds `value` in its field `key`.
    pub open spec fn with_struct_entry(self, elem: ElemId, key: Seq<char>, value: ElemId) -> (
        Self,
        Result<(), ErrorModel>,
    ) {
        let sym = symbol_for(self.symbols, key);
        if has_key(self.structs, (elem, sym)) {
            (self, Err(ErrorModel::NonuniqueIdentifier(elem)))
        } else {
            (
                DataModel {
                    symbols: interned(self.symbols, key),
                    structs: self.structs.push(((elem, sym), value)),
                    ..self
                },
                Ok(()),
            )
        }
    }

    /// The fact that the sequence `elem` holds `value` at position `pos`.
    pub open spec fn with_seq_entry(self, elem: ElemId, pos: usize, value: ElemId) -> (
        Self,
        Result<(), ErrorModel>,
    ) {
        if has_key(self.seqs, (elem, pos)) {
            (self, Err(ErrorModel::NonuniqueIdentifier(elem)))
        } else {
            (DataModel { seqs: self.seqs.push(((elem, pos), value)), ..self }, Ok(()))
        }
    }

    /// The fact that the enum variant `elem` has these two names.
    pub open spec fn with_variant_type(
        self,
        elem: ElemId,
        enum_name: Seq<char>,
        variant_name: Seq<char>,
    ) -> (Self, Result<(), ErrorModel>) {
        if has_key(self.variant_types, elem) {
            (self, Err(ErrorModel::NonuniqueIdentifier(elem)))
        } else {
            let named = interned(self.symbols, enum_name);
            (
                DataModel {
                    symbols: interned(named, variant_name),
                    variant_types: self.variant_types.push(
                        (
                            elem,
                            (symbol_for(self.symbols, enum_name), symbol_for(named, variant_name)),
                        ),
                    ),
                    ..self
                },
                Ok(()),
            )
        }
    }

    /// The fact that the tuple `elem` holds `value` at position `pos`.
    pub open spec fn with_tuple_entry(self, elem: ElemId, pos: usize, value: ElemId) -> (
        Self,
        Result<(), ErrorModel>,
    ) {
        if has_key(self.tuples, (elem, pos)) {
            (self, Err(ErrorModel::NonuniqueIdentifier(elem)))
        } else {
            (DataModel { tuples: self.tuples.push(((elem, pos), value)), ..self }, Ok(()))
        }
    }

    /// What the tables make of a fact that is not a map entry.
    pub open spec fn with_fact(self, fact: Fact) -> (Self, Result<(), ErrorModel>) {
        match fact {
            Fact::RootElem { file, elem } => self.with_root_elem(file, elem),
            Fact::Elem { elem, elem_type } => self.with_elem(elem, elem_type),
            Fact::Bool { elem, value } => self.with_bool(elem, value),
            Fact::I64 { elem, value } => self.with_i64(elem, value),
            Fact::U64 { elem, value } => self.with_u64(elem, value),
            Fact::Str { elem, value } => self.with_str(elem, value),
            Fact::MapEntry { elem, key, value } => declined(self, "map entry"@),
            Fact::StructType { elem, struct_name } => self.with_struct_type(elem, struct_name),
            Fact::StructEntry { elem, key, value } => self.with_struct_entry(elem, key, value),
            Fact::SeqEntry { elem, pos, value } => self.with_seq_entry(elem, pos, value),
            Fact::VariantType { elem, enum_name, variant_name } => self.with_variant_type(
                elem,
                enum_name,
                variant_name,
            ),
            Fact::TupleEntry { elem, pos, value } => self.with_tuple_entry(elem, pos, value),
        }
    }
}

impl DataModel<ElemId> {
    /// The fact that the map `elem` takes the element `key` to `value`.
    pub open spec fn with_map_entry(self, elem: ElemId, key: ElemId, value: ElemId) -> (
        Self,
        Result<(), ErrorModel>,
    ) {
        if has_key(self.maps, (elem, key)) {
            (self, Err(ErrorModel::NonuniqueIdentifier(elem)))
        } else {
            (DataModel { maps: self.maps.push(((elem, key), value)), ..self }, Ok(()))
        }
    }
}

impl DataModel<SymbolId> {
    /// The fact that the map `elem` takes the element `key` to `value`,
    /// where keys are strings: the key must be a string element. Its row
    /// leaves the `string` relation, and its symbol becomes the key of the
    /// entry.
    pub open spec fn with_string_key_entry(self, elem: ElemId, key: ElemId, value: ElemId) -> (
        Self,
        Result<(), ErrorModel>,
    ) {
        if !has_key(self.strings, key) {
            declined(self, "map key"@)
        } else {
            let at = key_position(self.strings, key);
            let sym = self.strings[at].1;
            if has_key(self.maps, (elem, sym)) {
                (self, Err(ErrorModel::NonuniqueIdentifier(elem)))
            } else {
                (
                    DataModel {
                        strings: self.strings.remove(at),
                        maps: self.maps.push(((elem, sym), value)),
                        ..self
                    },
                    Ok(()),
                )
            }
        }
    }
}

/// Interning keeps the invariant of the tables, and the symbol it gives
/// stands for an interned string afterwards.
pub proof fn lemma_intern_keeps_wf<K: MapKey>(m: DataModel<K>, text: Seq<char>)
    requires
        m.wf(),
        interned(m.symbols, text).len() <= usize::MAX,
    ensures
        (DataModel { symbols: interned(m.symbols, text), ..m }).wf(),
        known_symbol(symbol_for(m.symbols, text), interned(m.symbols, text).len()),
        symbol_of(m.symbols, text) is None ==> symbol_for(m.symbols, text).0 == m.symbols.len() + 1,
{
    lemma_intern_twice(m.symbols, text);
    let after = DataModel { symbols: interned(m.symbols, text), ..m };
    assert(has_vocabulary(after.symbols)) by {
        assert forall|i: int| 0 <= i < vocabulary().len() implies #[trigger] after.symbols[i]
            == vocabulary()[i] by {
            assert(after.symbols[i] == m.symbols[i]);
        }
    }
    assert(after.symbols_known()) by {
        assert forall|i: int| 0 <= i < after.maps.len() implies (#[trigger] after.maps[i]).0.1.known_key(
            after.symbols.len(),
        ) by {
            K::lemma_known_key_grows(m.maps[i].0.1, m.symbols.len(), after.symbols.len());
        }
    }
}

/// Interning the name of an element type changes nothing, and gives the
/// symbol that the vocabulary fixes for it.
pub proof fn lemma_vocabulary_symbol(symbols: Seq<Seq<char>>, elem_type: ElemType)
    requires
        symbols.no_duplicates(),
        has_vocabulary(symbols),
        elem_type.extractable(),
    ensures
        interned(symbols, vocabulary()[type_symbol(elem_type).0 - 1]) == symbols,
        symbol_for(symbols, vocabulary()[type_symbol(elem_type).0 - 1]) == type_symbol(elem_type),
        1 <= type_symbol(elem_type).0 <= VOCABULARY_SIZE,
{
    let at = type_symbol(elem_type).0 - 1;
    let name = vocabulary()[at];
    assert(symbols[at] == name);
    assert(symbols.contains(name));
    let found = symbols.index_of(name);
    assert(symbols[found] == name);
}

/// A backend that keeps its facts in tables of rows. `K` is what a map entry
/// is keyed by.
pub struct AbstractBackend<K: MapKey> {
    pub(crate) data: BackendData<K>,
}

impl<K: MapKey> View for AbstractBackend<K> {
    type V = DataModel<K>;

    closed spec fn view(&self) -> DataModel<K> {
        self.data@
    }
}

impl<K: MapKey> Default for BackendData<K> {
    /// Tables without any row or string.
    fn default() -> (data: Self)
        ensures
            data@ == (DataModel::<K> { symbols: Seq::empty(), ..DataModel::initial() }),
    {
        let data = BackendData {
            symbol_table: Vec::new(),
            root_elem_table: Vec::new(),
            type_table: Vec::new(),
            bool_table: Vec::new(),
            number_table: Vec::new(),
            string_table: Vec::new(),
            map_table: Vec::new(),
            struct_type_table: Vec::new(),
            struct_table: Vec::new(),
            seq_table: Vec::new(),
            variant_type_table: Vec::new(),
            tuple_table: Vec::new(),
        };
        assert(data@ =~= (DataModel::<K> { symbols: Seq::empty(), ..DataModel::initial() }));
        data
    }
}

impl<K: MapKey> Default for AbstractBackend<K> {
    /// A backend without facts, in which the names of the element types are
    /// interned, in the order of the vocabulary.
    fn default() -> (backend: Self)
        ensures
            backend@ == DataModel::<K>::initial(),
            backend@.wf(),
    {
        let mut backend = AbstractBackend { data: BackendData::default() };
        proof {
            lemma_vocabulary_distinct();
        }
        assert(texts(backend.data.symbol_table@) =~= vocabulary().take(0));
        backend.intern_name("Bool", 0);
        backend.intern_name("Number", 1);
        backend.intern_name("Str", 2);
        backend.intern_name("Map", 3);
        backend.intern_name("Seq", 4);
        backend.intern_name("Struct", 5);
        backend.intern_name("StructVariant", 6);
        backend.intern_name("Tuple", 7);
        backend.intern_name("TupleStruct", 8);
        backend.intern_name("TupleVariant", 9);
        backend.intern_name("Unit", 10);
        backend.intern_name("UnitStruct", 11);
        backend.intern_name("UnitVariant", 12);
        assert(vocabulary().take(13) =~= vocabulary());
        assert(backend.data@ =~= DataModel::<K>::initial());
        backend
    }
}

impl<K: MapKey> AbstractBackend<K> {
    /// Interns the name at position `at` of the vocabulary, when the names
    /// before it have been interned and nothing else.
    fn intern_name(&mut self, name: &'static str, at: usize)
        requires
            at < vocabulary().len(),
            name@ == vocabulary()[at as int],
            vocabulary().no_duplicates(),
            old(self).data@ == (DataModel::<K> {
                symbols: vocabulary().take(at as int),
                ..DataModel::initial()
            }),
        ensures
            final(self).data@ == (DataModel::<K> {
                symbols: vocabulary().take(at + 1),
                ..DataModel::initial()
            }),
    {
        let ghost before = texts(self.data.symbol_table@);
        assert(!before.contains(name@)) by {
            if before.contains(name@) {
                let i = before.index_of(name@);
                assert(before[i] == name@);
                assert(vocabulary()[i] == vocabulary()[at as int]);
            }
        }
        self.intern_string(name);
        assert(vocabulary().take(at + 1) =~= vocabulary().take(at as int).push(name@));
        assert(self.data@ =~= (DataModel::<K> {
            symbols: vocabulary().take(at + 1),
            ..DataModel::initial()
        }));
    }

    /// Interns `text`: gives the symbol it already has, or else the next
    /// free one, under which it is then recorded.
    pub(crate) fn intern_string(&mut self, text: &str) -> (id: SymbolId)
        requires
            texts(old(self).data.symbol_table@).no_duplicates(),
        ensures
            final(self).data@ == (DataModel {
                symbols: interned(old(self).data@.symbols, text@),
                ..old(self).data@
            }),
            final(self).data@.symbols.no_duplicates(),
            final(self).data@.symbols.len() <= usize::MAX,
            id == symbol_for(old(self).data@.symbols, text@),
    {
        let id = intern(&mut self.data.symbol_table, text);
        let count = self.data.symbol_table.len();
        assert(self.data@ =~= (DataModel {
            symbols: interned(old(self).data@.symbols, text@),
            ..old(self).data@
        }));
        id
    }

    /// Records the shape of `elem`. Floating point numbers and byte arrays
    /// are declined; an element that already has a shape is refused.
    pub(crate) fn add_elem(&mut self, elem: ElemId, elem_type: ElemType) -> (r: Result<
        (),
        DatalogExtractionError,
    >)
        requires
            old(self)@.wf(),
        ensures
            final(self)@.wf(),
            (final(self)@, outcome(r)) == old(self)@.with_elem(elem, elem_type),
    {
        let name = match vocabulary_name(elem_type) {
            Some(name) => name,
            None => {
                return Err(DatalogExtractionError::unextractable(rejected_name(elem_type)));
            },
        };
        if find_key(&self.data.type_table, &elem).is_some() {
            return Err(DatalogExtractionError::NonuniqueIdentifier(elem));
        }
        proof {
            lemma_vocabulary_symbol(self.data@.symbols, elem_type);
            lemma_push_keeps_keys_unique(self.data@.types, (elem, type_symbol(elem_type)));
        }
        let elem_type_sym = self.intern_string(name);
        self.data.type_table.push((elem, elem_type_sym));
        assert(self.data@ =~= old(self)@.with_elem(elem, elem_type).0);
        Ok(())
    }

    /// Records `elem` as the root element of `file`. A file that already has
    /// a root element is refused.
    pub(crate) fn add_root_elem(&mut self, file: &str, elem: ElemId) -> (r: Result<
        (),
        DatalogExtractionError,
    >)
        requires
            old(self)@.wf(),
        ensures
            final(self)@.wf(),
            (final(self)@, outcome(r)) == old(self)@.with_root_elem(file@, elem),
    {
        if let Some(sym) = find_symbol(&self.data.symbol_table, file) {
            if find_key(&self.data.root_elem_table, &sym).is_some() {
                return Err(DatalogExtractionError::NonuniqueRootElement(file.to_owned()));
            }
        }
        let file_sym = self.intern_string(file);
        proof {
            lemma_intern_keeps_wf(old(self)@, file@);
            if has_key(old(self)@.root_elems, file_sym) {
                let at = key_position(old(self)@.root_elems, file_sym);
                assert(old(self)@.known(old(self)@.root_elems[at].0));
            }
            lemma_push_keeps_keys_unique(old(self)@.root_elems, (file_sym, elem));
        }
        self.data.root_elem_table.push((file_sym, elem));
        assert(self.data@ =~= old(self)@.with_root_elem(file@, elem).0);
        Ok(())
    }

    /// Records the value of the boolean `elem`.
    pub(crate) fn add_bool(&mut self, elem: ElemId, value: bool) -> (r: Result<
        (),
        DatalogExtractionError,
    >)
        requires
            old(self)@.wf(),
        ensures
            final(self)@.wf(),
            (final(self)@, outcome(r)) == old(self)@.with_bool(elem, value),
    {
        if find_key(&self.data.bool_table, &elem).is_some() {
            return Err(DatalogExtractionError::NonuniqueIdentifier(elem));
        }
        proof {
            lemma_push_keeps_keys_unique(self.data@.bools, (elem, value));
        }
        self.data.bool_table.push((elem, value));
        assert(self.data@ =~= old(self)@.with_bool(elem, value).0);
        Ok(())
    }

    /// Records the value of the signed number `elem`.
    pub(crate) fn add_i64(&mut self, elem: ElemId, value: i64) -> (r: Result<
        (),
        DatalogExtractionError,
    >)
        requires
            old(self)@.wf(),
        ensures
            final(self)@.wf(),
            (final(self)@, outcome(r)) == old(self)@.with_i64(elem, value),
    {
        if find_key(&self.data.number_table, &elem).is_some() {
            return Err(DatalogExtractionError::NonuniqueIdentifier(elem));
        }
        proof {
            lemma_push_keeps_keys_unique(self.data@.numbers, (elem, value));
        }
        self.data.number_table.push((elem, value));
        assert(self.data@ =~= old(self)@.with_i64(elem, value).0);
        Ok(())
    }

    /// Records the value of the unsigned number `elem`, where it fits a
    /// signed number.
    pub(crate) fn add_u64(&mut self, elem: ElemId, value: u64) -> (r: Result<
        (),
        DatalogExtractionError,
    >)
        requires
            old(self)@.wf(),
        ensures
            final(self)@.wf(),
            (final(self)@, outcome(r)) == old(self)@.with_u64(elem, value),
    {
        if value > 0x7fff_ffff_ffff_ffffu64 {
            return Err(DatalogExtractionError::IntegerCastOverflow(value));
        }
        self.add_i64(elem, value as i64)
    }

    /// Records the value of the string `elem`.
    pub(crate) fn add_str(&mut self, elem: ElemId, value: &str) -> (r: Result<
        (),
        DatalogExtractionError,
    >)
        requires
            old(self)@.wf(),
        ensures
            final(self)@.wf(),
            (final(self)@, outcome(r)) == old(self)@.with_str(elem, value@),
    {
        if find_key(&self.data.string_table, &elem).is_some() {
            return Err(DatalogExtractionError::NonuniqueIdentifier(elem));
        }
        let value_sym = self.intern_string(value);
        proof {
            lemma_intern_keeps_wf(old(self)@, value@);
            lemma_push_keeps_keys_unique(old(self)@.strings, (elem, value_sym));
        }
        self.data.string_table.push((elem, value_sym));
        assert(self.data@ =~= old(self)@.with_str(elem, value@).0);
        Ok(())
    }

    /// Records the type name of the struct `elem`.
    pub(crate) fn add_struct_type(&mut self, elem: ElemId, struct_name: &str) -> (r: Result<
        (),
        DatalogExtractionError,
    >)
        requires
            old(self)@.wf(),
        ensures
            final(self)@.wf(),
            (final(self)@, outcome(r)) == old(self)@.with_struct_type(elem, struct_name@),
    {
        if find_key(&self.data.struct_type_table, &elem).is_some() {
            return Err(DatalogExtractionError::NonuniqueIdentifier(elem));
        }
        let struct_name_sym = self.intern_string(struct_name);
        proof {
            lemma_intern_keeps_wf(old(self)@, struct_name@);
            lemma_push_keeps_keys_unique(old(self)@.struct_types, (elem, struct_name_sym));
        }
        self.data.struct_type_table.push((elem, struct_name_sym));
        assert(self.data@ =~= old(self)@.with_struct_type(elem, struct_name@).0);
        Ok(())
    }

    /// Records the value of the field `key` of the struct `elem`.
    pub(crate) fn add_struct_entry(&mut self, elem: ElemId, key: &str, value: ElemId) -> (r:
        Result<(), DatalogExtractionError>)
        requires
            old(self)@.wf(),
        ensures
            final(self)@.wf(),
            (final(self)@, outcome(r)) == old(self)@.with_struct_entry(elem, key@, value),
    {
        if let Some(sym) = find_symbol(&self.data.symbol_table, key) {
            if find_key(&self.data.struct_table, &(elem, sym)).is_some() {
                return Err(DatalogExtractionError::NonuniqueIdentifier(elem));
            }
        }
        let key_sym = self.intern_string(key);
        proof {
            lemma_intern_keeps_wf(old(self)@, key@);
            if has_key(old(self)@.structs, (elem, key_sym)) {
                let at = key_position(old(self)@.structs, (elem, key_sym));
                assert(old(self)@.known(old(self)@.structs[at].0.1));
            }
            lemma_push_keeps_keys_unique(old(self)@.structs, ((elem, key_sym), value));
        }
        self.data.struct_table.push(((elem, key_sym), value));
        assert(self.data@ =~= old(self)@.with_struct_entry(elem, key@, value).0);
        Ok(())
    }

    /// Records the element at position `pos` of the sequence `elem`.
    pub(crate) fn add_seq_entry(&mut self, elem: ElemId, pos: usize, value: ElemId) -> (r: Result<
        (),
        DatalogExtractionError,
    >)
        requires
            old(self)@.wf(),
        ensures
            final(self)@.wf(),
            (final(self)@, outcome(r)) == old(self)@.with_seq_entry(elem, pos, value),
    {
        if find_key(&self.data.seq_table, &(elem, pos)).is_some() {
            return Err(DatalogExtractionError::NonuniqueIdentifier(elem));
        }
        proof {
            lemma_push_keeps_keys_unique(self.data@.seqs, ((elem, pos), value));
        }
        self.data.seq_table.push(((elem, pos), value));
        assert(self.data@ =~= old(self)@.with_seq_entry(elem, pos, value).0);
        Ok(())
    }

    /// Records the type and variant names of the enum variant `elem`.
    pub(crate) fn add_variant_type(
        &mut self,
        elem: ElemId,
        enum_name: &str,
        variant_name: &str,
    ) -> (r: Result<(), DatalogExtractionError>)
        requires
            old(self)@.wf(),
        ensures
            final(self)@.wf(),
            (final(self)@, outcome(r)) == old(self)@.with_variant_type(
                elem,
                enum_name@,
                variant_name@,
            ),
    {
        if find_key(&self.data.variant_type_table, &elem).is_some() {
            return Err(DatalogExtractionError::NonuniqueIdentifier(elem));
        }
        let enum_name_sym = self.intern_string(enum_name);
        let ghost named = self.data@;
        proof {
            lemma_intern_keeps_wf(old(self)@, enum_name@);
        }
        let variant_name_sym = self.intern_string(variant_name);
        proof {
            lemma_intern_keeps_wf(named, variant_name@);
            lemma_push_keeps_keys_unique(
                old(self)@.variant_types,
                (elem, (enum_name_sym, variant_name_sym)),
            );
        }
        self.data.variant_type_table.push((elem, (enum_name_sym, variant_name_sym)));
        assert(self.data@ =~= old(self)@.with_variant_type(elem, enum_name@, variant_name@).0);
        Ok(())
    }

    /// Records the element at position `pos` of the tuple `elem`.
    pub(crate) fn add_tuple_entry(&mut self, elem: ElemId, pos: usize, value: ElemId) -> (r: Result<
        (),
        DatalogExtractionError,
    >)
        requires
            old(self)@.wf(),
        ensures
            final(self)@.wf(),
            (final(self)@, outcome(r)) == old(self)@.with_tuple_entry(elem, pos, value),
    {
        if find_key(&self.data.tuple_table, &(elem, pos)).is_some() {
            return Err(DatalogExtractionError::NonuniqueIdentifier(elem));
        }
        proof {
            lemma_push_keeps_keys_unique(self.data@.tuples, ((elem, pos), value));
        }
        self.data.tuple_table.push(((elem, pos), value));
        assert(self.data@ =~= old(self)@.with_tuple_entry(elem, pos, value).0);
        Ok(())
    }

    /// The tables of facts that the backend has accumulated.
    pub fn get_data(self) -> (data: BackendData<K>)
        ensures
            data@ == self@,
    {
        self.data
    }
}

/// The in-memory backend in which a map entry is keyed by the element that
/// is its key.
pub struct Backend {
    pub(crate) parent: AbstractBackend<ElemId>,
}

impl Default for Backend {
    /// A backend without facts; the names of the element types are interned.
    fn default() -> (backend: Self)
        ensures
            backend.model() == DataModel::<ElemId>::initial(),
            backend.inv(),
    {
        Backend { parent: AbstractBackend::default() }
    }
}

impl Backend {
    /// The tables of facts that the backend has accumulated.
    pub fn get_data(self) -> (data: BackendData<ElemId>)
        ensures
            data@ == self.model(),
    {
        self.parent.get_data()
    }

    /// The tables of the backend as lines of text, for a reader.
    pub fn dump(&self) -> (lines: Vec<String>)
        ensures
            texts(lines@) == dump_lines(self.model()),
    {
        self.parent.data.dump()
    }
}

impl DatalogExtractorBackend for Backend {
    type Model = DataModel<ElemId>;

    closed spec fn model(&self) -> DataModel<ElemId> {
        self.parent@
    }

    open spec fn inv(&self) -> bool {
        self.model().wf()
    }

    open spec fn apply(m: DataModel<ElemId>, fact: Fact) -> (
        DataModel<ElemId>,
        Result<(), ErrorModel>,
    ) {
        match fact {
            Fact::MapEntry { elem, key, value } => m.with_map_entry(elem, key, value),
            _ => m.with_fact(fact),
        }
    }

    proof fn lemma_rejects_unextractable(m: DataModel<ElemId>, elem: ElemId, elem_type: ElemType) {
    }

    fn add_root_elem(&mut self, file: &str, elem: ElemId) -> (r: Result<
        (),
        DatalogExtractionError,
    >) {
        self.parent.add_root_elem(file, elem)
    }

    fn add_elem(&mut self, elem: ElemId, elem_type: ElemType) -> (r: Result<
        (),
        DatalogExtractionError,
    >) {
        self.parent.add_elem(elem, elem_type)
    }

    fn add_bool(&mut self, elem: ElemId, value: bool) -> (r: Result<(), DatalogExtractionError>) {
        self.parent.add_bool(elem, value)
    }

    fn add_i64(&mut self, elem: ElemId, value: i64) -> (r: Result<(), DatalogExtractionError>) {
        self.parent.add_i64(elem, value)
    }

    fn add_u64(&mut self, elem: ElemId, value: u64) -> (r: Result<(), DatalogExtractionError>) {
        self.parent.add_u64(elem, value)
    }

    fn add_str(&mut self, elem: ElemId, value: &str) -> (r: Result<(), DatalogExtractionError>) {
        self.parent.add_str(elem, value)
    }


    fn add_struct_type(&mut self, elem: ElemId, struct_name: &str) -> (r: Result<
        (),
        DatalogExtractionError,
    >) {
        self.parent.add_struct_type(elem, struct_name)
    }

    fn add_struct_entry(&mut self, elem: ElemId, key: &str, value: ElemId) -> (r: Result<
        (),
        DatalogExtractionError,
    >) {
        self.parent.add_struct_entry(elem, key, value)
    }

    fn add_seq_entry(&mut self, elem: ElemId, pos: usize, value: ElemId) -> (r: Result<
        (),
        DatalogExtractionError,
    >) {
        self.parent.add_seq_entry(elem, pos, value)
    }

    fn add_variant_type(&mut self, elem: ElemId, enum_name: &str, variant_name: &str) -> (r:
        Result<(), DatalogExtractionError>) {
        self.parent.add_variant_type(elem, enum_name, variant_name)
    }

    fn add_tuple_entry(&mut self, elem: ElemId, pos: usize, value: ElemId) -> (r: Result<
        (),
        DatalogExtractionError,
    >) {
        self.parent.add_tuple_entry(elem, pos, value)
    }

    fn add_map_entry(&mut self, elem: ElemId, key: ElemId, value: ElemId) -> (r: Result<
        (),
        DatalogExtractionError,
    >) {
        if find_key(&self.parent.data.map_table, &(elem, key)).is_some() {
            return Err(DatalogExtractionError::NonuniqueIdentifier(elem));
        }
        proof {
            lemma_push_keeps_keys_unique(self.parent.data@.maps, ((elem, key), value));
        }
        self.parent.data.map_table.push(((elem, key), value));
        assert(self.parent.data@ =~= old(self).parent.data@.with_map_entry(elem, key, value).0);
        Ok(())
    }
}

/// The in-memory backend in which a map entry is keyed by a string: every
/// key of a map must be a string element.
pub struct StringKeyBackend {
    pub(crate) parent: AbstractBackend<SymbolId>,
}

impl Default for StringKeyBackend {
    /// A backend without facts; the names of the element types are interned.
    fn default() -> (backend: Self)
        ensures
            backend.model() == DataModel::<SymbolId>::initial(),
            backend.inv(),
    {
        StringKeyBackend { parent: AbstractBackend::default() }
    }
}

impl StringKeyBackend {
    /// The tables of facts that the backend has accumulated.
    pub fn get_data(self) -> (data: BackendData<SymbolId>)
        ensures
            data@ == self.model(),
    {
        self.parent.get_data()
    }

    /// The tables of the backend as lines of text, for a reader.
    pub fn dump(&self) -> (lines: Vec<String>)
        ensures
            texts(lines@) == dump_lines(self.model()),
    {
        self.parent.data.dump()
    }
}

impl DatalogExtractorBackend for StringKeyBackend {
    type Model = DataModel<SymbolId>;

    closed spec fn model(&self) -> DataModel<SymbolId> {
        self.parent@
    }

    open spec fn inv(&self) -> bool {
        self.model().wf()
    }

    open spec fn apply(m: DataModel<SymbolId>, fact: Fact) -> (
        DataModel<SymbolId>,
        Result<(), ErrorModel>,
    ) {
        match fact {
            Fact::MapEntry { elem, key, value } => m.with_string_key_entry(elem, key, value),
            _ => m.with_fact(fact),
        }
    }

    proof fn lemma_rejects_unextractable(
        m: DataModel<SymbolId>,
        elem: ElemId,
        elem_type: ElemType,
    ) {
    }

    fn add_root_elem(&mut self, file: &str, elem: ElemId) -> (r: Result<
        (),
        DatalogExtractionError,
    >) {
        self.parent.add_root_elem(file, elem)
    }

    fn add_elem(&mut self, elem: ElemId, elem_type: ElemType) -> (r: Result<
        (),
        DatalogExtractionError,
    >) {
        self.parent.add_elem(elem, elem_type)
    }

    fn add_bool(&mut self, elem: ElemId, value: bool) -> (r: Result<(), DatalogExtractionError>) {
        self.parent.add_bool(elem, value)
    }

    fn add_i64(&mut self, elem: ElemId, value: i64) -> (r: Result<(), DatalogExtractionError>) {
        self.parent.add_i64(elem, value)
    }

    fn add_u64(&mut self, elem: ElemId, value: u64) -> (r: Result<(), DatalogExtractionError>) {
        self.parent.add_u64(elem, value)
    }

    fn add_str(&mut self, elem: ElemId, value: &str) -> (r: Result<(), DatalogExtractionError>) {
        self.parent.add_str(elem, value)
    }


    fn add_struct_type(&mut self, elem: ElemId, struct_name: &str) -> (r: Result<
        (),
        DatalogExtractionError,
    >) {
        self.parent.add_struct_type(elem, struct_name)
    }

    fn add_struct_entry(&mut self, elem: ElemId, key: &str, value: ElemId) -> (r: Result<
        (),
        DatalogExtractionError,
    >) {
        self.parent.add_struct_entry(elem, key, value)
    }

    fn add_seq_entry(&mut self, elem: ElemId, pos: usize, value: ElemId) -> (r: Result<
        (),
        DatalogExtractionError,
    >) {
        self.parent.add_seq_entry(elem, pos, value)
    }

    fn add_variant_type(&mut self, elem: ElemId, enum_name: &str, variant_name: &str) -> (r:
        Result<(), DatalogExtractionError>) {
        self.parent.add_variant_type(elem, enum_name, variant_name)
    }

    fn add_tuple_entry(&mut self, elem: ElemId, pos: usize, value: ElemId) -> (r: Result<
        (),
        DatalogExtractionError,
    >) {
        self.parent.add_tuple_entry(elem, pos, value)
    }

    fn add_map_entry(&mut self, elem: ElemId, key: ElemId, value: ElemId) -> (r: Result<
        (),
        DatalogExtractionError,
    >) {
        let ghost before = self.parent.data@;
        let at = match find_key(&self.parent.data.string_table, &key) {
            Some(at) => at,
            None => {
                return Err(DatalogExtractionError::unextractable("map key"));
            },
        };
        let sym = self.parent.data.string_table[at].1;
        proof {
            let chosen = key_position(before.strings, key);
            assert(before.strings[at as int].0 == before.strings[chosen].0);
            assert(chosen == at);
        }
        if find_key(&self.parent.data.map_table, &(elem, sym)).is_some() {
            return Err(DatalogExtractionError::NonuniqueIdentifier(elem));
        }
        proof {
            lemma_remove_keeps_keys_unique(before.strings, at as int);
            lemma_push_keeps_keys_unique(before.maps, ((elem, sym), value));
            assert(before.known(before.strings[at as int].1));
        }
        self.parent.data.string_table.remove(at);
        self.parent.data.map_table.push(((elem, sym), value));
        proof {
            let after = self.parent.data@;
            assert(after =~= before.with_string_key_entry(elem, key, value).0);
            assert forall|i: int| 0 <= i < after.strings.len() implies after.known(
                (#[trigger] after.strings[i]).1,
            ) by {
                let j = if i < at { i } else { i + 1 };
                assert(after.strings[i] == before.strings[j]);
            }
        }
        Ok(())
    }
}

impl IntegerRow for (SymbolId, ElemId) {
    open spec fn columns(&self) -> Seq<int> {
        seq![self.0.0 as int, self.1.0 as int]
    }

    fn to_columns(&self) -> (columns: Vec<i128>) {
        let mut columns: Vec<i128> = Vec::new();
        columns.push(self.0.0 as i128);
        columns.push(self.1.0 as i128);
        columns
    }
}

impl IntegerRow for (ElemId, SymbolId) {
    open spec fn columns(&self) -> Seq<int> {
        seq![self.0.0 as int, self.1.0 as int]
    }

    fn to_columns(&self) -> (columns: Vec<i128>) {
        let mut columns: Vec<i128> = Vec::new();
        columns.push(self.0.0 as i128);
        columns.push(self.1.0 as i128);
        columns
    }
}

impl<K: MapKey> IntegerRow for ((ElemId, K), ElemId) {
    open spec fn columns(&self) -> Seq<int> {
        seq![self.0.0.0 as int, self.0.1.raw() as int, self.1.0 as int]
    }

    fn to_columns(&self) -> (columns: Vec<i128>) {
        let mut columns: Vec<i128> = Vec::new();
        columns.push(self.0.0.0 as i128);
        columns.push(self.0.1.index() as i128);
        columns.push(self.1.0 as i128);
        columns
    }
}

impl IntegerRow for (ElemId, (SymbolId, SymbolId)) {
    open spec fn columns(&self) -> Seq<int> {
        seq![self.0.0 as int, self.1.0.0 as int, self.1.1.0 as int]
    }

    fn to_columns(&self) -> (columns: Vec<i128>) {
        let mut columns: Vec<i128> = Vec::new();
        columns.push(self.0.0 as i128);
        columns.push(self.1.0.0 as i128);
        columns.push(self.1.1.0 as i128);
        columns
    }
}

} // verus!
