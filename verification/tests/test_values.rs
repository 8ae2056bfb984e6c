use std::ops::ControlFlow;

use arbitrary::{Arbitrary, Unstructured};
use arbitrary_json::ArbitraryValue;
use rand::Rng;
use serde::ser;
use serde::Serialize;
use serde_datalog::backend::vector::{Backend, BackendData, StringKeyBackend, SymbolId};
use serde_datalog::{
    DatalogExtractionError, DatalogExtractor, DatalogExtractorBackend, ElemId, ElemType,
};
use serde_json::Value;

/// The error of a walk that serde drives.
#[derive(Debug)]
struct WalkError(DatalogExtractionError);

impl std::fmt::Display for WalkError {
    fn fmt(&self, f: &mut std::fmt::Formatter<'_>) -> std::fmt::Result {
        f.write_str(&self.0.to_string())
    }
}

impl std::error::Error for WalkError {}

impl ser::Error for WalkError {
    fn custom<T: std::fmt::Display>(msg: T) -> Self {
        WalkError(DatalogExtractionError::Custom(msg.to_string()))
    }
}

/// Drives an extractor from serde's serialization of a value.
struct Walker<B: DatalogExtractorBackend> {
    extractor: DatalogExtractor<B>,
}

impl<B: DatalogExtractorBackend> Walker<B> {
    fn new(backend: B) -> Self {
        Walker { extractor: DatalogExtractor::new(backend) }
    }

    fn fresh(&mut self) -> &mut DatalogExtractor<B> {
        assert!(self.extractor.can_allocate());
        &mut self.extractor
    }

    fn wrapper(&mut self) -> &mut DatalogExtractor<B> {
        assert!(self.extractor.can_allocate());
        assert!(self.extractor.has_child());
        &mut self.extractor
    }

    fn parent(&mut self) -> &mut DatalogExtractor<B> {
        assert!(self.extractor.in_container());
        assert!(self.extractor.has_child());
        &mut self.extractor
    }

    fn end(&mut self) -> Result<(), WalkError> {
        assert!(self.extractor.in_container());
        self.extractor.end_parent().map(|_| ()).map_err(WalkError)
    }
}

impl<'a, B: DatalogExtractorBackend> ser::Serializer for &'a mut Walker<B> {
    type Ok = ();
    type Error = WalkError;
    type SerializeSeq = Self;
    type SerializeTuple = Self;
    type SerializeTupleStruct = Self;
    type SerializeTupleVariant = Self;
    type SerializeMap = Self;
    type SerializeStruct = Self;
    type SerializeStructVariant = Self;

    fn serialize_bool(self, value: bool) -> Result<(), WalkError> {
        self.fresh().serialize_bool(value).map_err(WalkError)
    }

    fn serialize_i8(self, value: i8) -> Result<(), WalkError> {
        self.fresh().serialize_i8(value).map_err(WalkError)
    }

    fn serialize_i16(self, value: i16) -> Result<(), WalkError> {
        self.fresh().serialize_i16(value).map_err(WalkError)
    }

    fn serialize_i32(self, value: i32) -> Result<(), WalkError> {
        self.fresh().serialize_i32(value).map_err(WalkError)
    }

    fn serialize_i64(self, value: i64) -> Result<(), WalkError> {
        self.fresh().serialize_i64(value).map_err(WalkError)
    }

    fn serialize_u8(self, value: u8) -> Result<(), WalkError> {
        self.fresh().serialize_u8(value).map_err(WalkError)
    }

    fn serialize_u16(self, value: u16) -> Result<(), WalkError> {
        self.fresh().serialize_u16(value).map_err(WalkError)
    }

    fn serialize_u32(self, value: u32) -> Result<(), WalkError> {
        self.fresh().serialize_u32(value).map_err(WalkError)
    }

    fn serialize_u64(self, value: u64) -> Result<(), WalkError> {
        self.fresh().serialize_u64(value).map_err(WalkError)
    }

    fn serialize_f32(self, _value: f32) -> Result<(), WalkError> {
        self.fresh().serialize_f32().map_err(WalkError)
    }

    fn serialize_f64(self, _value: f64) -> Result<(), WalkError> {
        self.fresh().serialize_f64().map_err(WalkError)
    }

    fn serialize_char(self, value: char) -> Result<(), WalkError> {
        self.fresh().serialize_char(value).map_err(WalkError)
    }

    fn serialize_str(self, value: &str) -> Result<(), WalkError> {
        self.fresh().serialize_str(value).map_err(WalkError)
    }

    fn serialize_bytes(self, value: &[u8]) -> Result<(), WalkError> {
        self.fresh().serialize_bytes(value).map_err(WalkError)
    }

    fn serialize_none(self) -> Result<(), WalkError> {
        self.fresh().serialize_none().map_err(WalkError)
    }

    fn serialize_some<T: ?Sized + Serialize>(self, value: &T) -> Result<(), WalkError> {
        value.serialize(&mut *self)?;
        self.wrapper().serialize_some().map_err(WalkError)
    }

    fn serialize_unit(self) -> Result<(), WalkError> {
        self.fresh().serialize_unit().map_err(WalkError)
    }

    fn serialize_unit_struct(self, name: &'static str) -> Result<(), WalkError> {
        self.fresh().serialize_unit_struct(name).map_err(WalkError)
    }

    fn serialize_unit_variant(
        self,
        name: &'static str,
        _variant_index: u32,
        variant: &'static str,
    ) -> Result<(), WalkError> {
        self.fresh().serialize_unit_variant(name, variant).map_err(WalkError)
    }

    fn serialize_newtype_struct<T: ?Sized + Serialize>(
        self,
        name: &'static str,
        value: &T,
    ) -> Result<(), WalkError> {
        value.serialize(&mut *self)?;
        self.wrapper().serialize_newtype_struct(name).map_err(WalkError)
    }

    fn serialize_newtype_variant<T: ?Sized + Serialize>(
        self,
        name: &'static str,
        _variant_index: u32,
        variant: &'static str,
        value: &T,
    ) -> Result<(), WalkError> {
        value.serialize(&mut *self)?;
        self.wrapper().serialize_newtype_variant(name, variant).map_err(WalkError)
    }

    fn serialize_seq(self, _len: Option<usize>) -> Result<Self, WalkError> {
        self.fresh().serialize_seq().map_err(WalkError)?;
        Ok(self)
    }

    fn serialize_tuple(self, _len: usize) -> Result<Self, WalkError> {
        self.fresh().serialize_tuple().map_err(WalkError)?;
        Ok(self)
    }

    fn serialize_tuple_struct(self, name: &'static str, _len: usize) -> Result<Self, WalkError> {
        self.fresh().serialize_tuple_struct(name).map_err(WalkError)?;
        Ok(self)
    }

    fn serialize_tuple_variant(
        self,
        name: &'static str,
        _variant_index: u32,
        variant: &'static str,
        _len: usize,
    ) -> Result<Self, WalkError> {
        self.fresh().serialize_tuple_variant(name, variant).map_err(WalkError)?;
        Ok(self)
    }

    fn serialize_map(self, _len: Option<usize>) -> Result<Self, WalkError> {
        self.fresh().serialize_map().map_err(WalkError)?;
        Ok(self)
    }

    fn serialize_struct(self, name: &'static str, _len: usize) -> Result<Self, WalkError> {
        self.fresh().serialize_struct(name).map_err(WalkError)?;
        Ok(self)
    }

    fn serialize_struct_variant(
        self,
        name: &'static str,
        _variant_index: u32,
        variant: &'static str,
        _len: usize,
    ) -> Result<Self, WalkError> {
        self.fresh().serialize_struct_variant(name, variant).map_err(WalkError)?;
        Ok(self)
    }
}

impl<'a, B: DatalogExtractorBackend> ser::SerializeSeq for &'a mut Walker<B> {
    type Ok = ();
    type Error = WalkError;

    fn serialize_element<T: ?Sized + Serialize>(&mut self, value: &T) -> Result<(), WalkError> {
        value.serialize(&mut **self)?;
        self.parent().serialize_tuple_or_seq_element(ElemType::Sequence).map_err(WalkError)
    }

    fn end(self) -> Result<(), WalkError> {
        Walker::end(self)
    }
}

impl<'a, B: DatalogExtractorBackend> ser::SerializeTuple for &'a mut Walker<B> {
    type Ok = ();
    type Error = WalkError;

    fn serialize_element<T: ?Sized + Serialize>(&mut self, value: &T) -> Result<(), WalkError> {
        value.serialize(&mut **self)?;
        self.parent().serialize_tuple_or_seq_element(ElemType::Tuple).map_err(WalkError)
    }

    fn end(self) -> Result<(), WalkError> {
        Walker::end(self)
    }
}

impl<'a, B: DatalogExtractorBackend> ser::SerializeTupleStruct for &'a mut Walker<B> {
    type Ok = ();
    type Error = WalkError;

    fn serialize_field<T: ?Sized + Serialize>(&mut self, value: &T) -> Result<(), WalkError> {
        value.serialize(&mut **self)?;
        self.parent().serialize_tuple_or_seq_element(ElemType::TupleStruct).map_err(WalkError)
    }

    fn end(self) -> Result<(), WalkError> {
        Walker::end(self)
    }
}

impl<'a, B: DatalogExtractorBackend> ser::SerializeTupleVariant for &'a mut Walker<B> {
    type Ok = ();
    type Error = WalkError;

    fn serialize_field<T: ?Sized + Serialize>(&mut self, value: &T) -> Result<(), WalkError> {
        value.serialize(&mut **self)?;
        self.parent().serialize_tuple_or_seq_element(ElemType::TupleVariant).map_err(WalkError)
    }

    fn end(self) -> Result<(), WalkError> {
        Walker::end(self)
    }
}

impl<'a, B: DatalogExtractorBackend> ser::SerializeMap for &'a mut Walker<B> {
    type Ok = ();
    type Error = WalkError;

    fn serialize_key<T: ?Sized + Serialize>(&mut self, key: &T) -> Result<(), WalkError> {
        key.serialize(&mut **self)
    }

    fn serialize_value<T: ?Sized + Serialize>(&mut self, value: &T) -> Result<(), WalkError> {
        value.serialize(&mut **self)?;
        assert!(self.extractor.has_entry());
        self.extractor.serialize_value().map_err(WalkError)
    }

    fn end(self) -> Result<(), WalkError> {
        Walker::end(self)
    }
}

impl<'a, B: DatalogExtractorBackend> ser::SerializeStruct for &'a mut Walker<B> {
    type Ok = ();
    type Error = WalkError;

    fn serialize_field<T: ?Sized + Serialize>(
        &mut self,
        key: &'static str,
        value: &T,
    ) -> Result<(), WalkError> {
        value.serialize(&mut **self)?;
        self.parent().serialize_struct_element(key).map_err(WalkError)
    }

    fn end(self) -> Result<(), WalkError> {
        Walker::end(self)
    }
}

impl<'a, B: DatalogExtractorBackend> ser::SerializeStructVariant for &'a mut Walker<B> {
    type Ok = ();
    type Error = WalkError;

    fn serialize_field<T: ?Sized + Serialize>(
        &mut self,
        key: &'static str,
        value: &T,
    ) -> Result<(), WalkError> {
        value.serialize(&mut **self)?;
        self.parent().serialize_struct_element(key).map_err(WalkError)
    }

    fn end(self) -> Result<(), WalkError> {
        Walker::end(self)
    }
}

struct ValueCount {
    null: usize,
    bool: usize,
    number: usize,
    string: usize,
    array: usize,
    object: usize,
    array_elements: usize,
    object_fields: usize,
}

impl std::ops::Add<ValueCount> for ValueCount {
    type Output = ValueCount;

    fn add(self, rhs: ValueCount) -> Self::Output {
        ValueCount {
            null: self.null + rhs.null,
            bool: self.bool + rhs.bool,
            number: self.number + rhs.number,
            string: self.string + rhs.string,
            array: self.array + rhs.array,
            object: self.object + rhs.object,
            array_elements: self.array_elements + rhs.array_elements,
            object_fields: self.object_fields + rhs.object_fields,
        }
    }
}

impl ValueCount {
    fn new(
        null: usize,
        bool: usize,
        number: usize,
        string: usize,
        array: usize,
        array_elements: usize,
        object: usize,
        object_fields: usize,
    ) -> Self {
        Self { null, bool, number, string, array, array_elements, object, object_fields }
    }

    fn get(value: &Value) -> Self {
        match value {
            Value::Null => ValueCount::new(1, 0, 0, 0, 0, 0, 0, 0),

            Value::Bool(_) => ValueCount::new(0, 1, 0, 0, 0, 0, 0, 0),

            Value::Number(_) => ValueCount::new(0, 0, 1, 0, 0, 0, 0, 0),

            Value::String(_) => ValueCount::new(0, 0, 0, 1, 0, 0, 0, 0),

            Value::Array(arr) => {
                arr.iter().fold(ValueCount::new(0, 0, 0, 0, 1, 0, 0, 0), |acc, v| {
                    let c = ValueCount::get(v);
                    let mut res = acc + c;
                    res.array_elements += 1;
                    res
                })
            }

            Value::Object(map) => {
                map.iter().fold(ValueCount::new(0, 0, 0, 0, 0, 0, 1, 0), |acc, (_, v)| {
                    let c = ValueCount::get(v);

                    // add 1 string for the key
                    let mut res = acc + c;
                    res.string += 1;
                    res.object_fields += 1;
                    res
                })
            }
        }
    }

    fn total(&self) -> usize {
        self.null + self.bool + self.number + self.string + self.array + self.object
    }
}

fn symbol(data: &BackendData<ElemId>, text: &str) -> Option<SymbolId> {
    data.symbol_table.iter().position(|s| s == text).map(|at| SymbolId(at + 1))
}

fn extract(value: &Value) -> Option<BackendData<ElemId>> {
    let mut walker = Walker::new(Backend::default());
    let res = value.serialize(&mut walker);
    let data = walker.extractor.get_backend().get_data();

    return match res {
        Ok(_) => {
            let map_sym = symbol(&data, "Map").unwrap();
            let seq_sym = symbol(&data, "Seq").unwrap();

            let (map_count, seq_count) = data.type_table.iter().fold((0, 0), |acc, row| {
                let map_inc = if row.1 == map_sym { 1 } else { 0 };
                let seq_inc = if row.1 == seq_sym { 1 } else { 0 };
                (acc.0 + map_inc, acc.1 + seq_inc)
            });

            let c = ValueCount::get(value);
            assert!(map_count == c.object);
            assert!(seq_count == c.array);
            assert!(data.map_table.len() == c.object_fields);
            assert!(data.seq_table.len() == c.array_elements);
            assert!(data.bool_table.len() == c.bool);
            assert!(data.number_table.len() == c.number);
            assert!(data.string_table.len() == c.string);
            assert!(data.type_table.len() == c.total());
            Some(data)
        }

        Err(WalkError(DatalogExtractionError::UnextractableData(_)))
        | Err(WalkError(DatalogExtractionError::NonuniqueRootElement(_)))
        | Err(WalkError(DatalogExtractionError::NonuniqueIdentifier(_)))
        | Err(WalkError(DatalogExtractionError::IntegerCastOverflow(_))) => None,

        Err(WalkError(DatalogExtractionError::Custom(msg))) => {
            assert!(false, "{}", msg);
            None
        }
    };
}

#[test]
fn run_value1() {
    let value: Value = serde_json::Map::from_iter(vec![(
        "test".to_string(),
        Value::Number(serde_json::Number::from(10)),
    )])
    .into();

    let data = extract(&value).unwrap();
    let map_kv = data.map_table.iter().next().unwrap();

    assert!(data.string_table.iter().next().unwrap().0 == map_kv.0 .1);
    assert!(data.number_table.iter().next().unwrap().0 == map_kv.1);
}

#[test]
fn run_value2() {
    let value: Value =
        Value::Array(vec![Value::String("a".to_string()), Value::String("b".to_string())]);

    let data = extract(&value).unwrap();

    let a_sym = symbol(&data, "a").unwrap();

    let b_sym = symbol(&data, "b").unwrap();

    let a_id = data
        .string_table
        .iter()
        .find_map(|(id, sym)| if *sym == a_sym { Some(*id) } else { None })
        .unwrap();

    let b_id = data
        .string_table
        .iter()
        .find_map(|(id, sym)| if *sym == b_sym { Some(*id) } else { None })
        .unwrap();

    let seq_first_elem = data
        .seq_table
        .iter()
        .find_map(|((_, index), val)| if *index == 0 { Some(*val) } else { None })
        .unwrap();

    let seq_second_elem = data
        .seq_table
        .iter()
        .find_map(|((_, index), val)| if *index == 1 { Some(*val) } else { None })
        .unwrap();

    assert!(seq_first_elem == a_id);
    assert!(seq_second_elem == b_id);
}

#[test]
fn run_fuzzer() {
    let mut data = [0u8; 16384];
    rand::rng().fill_bytes(&mut data);
    let mut u = Unstructured::new(&data);
    let mut total = 0;
    let mut extracted = 0;

    u.arbitrary_loop(Some(10000), Some(10000), |u| {
        match ArbitraryValue::arbitrary(u) {
            Ok(value) => {
                if extract(&value).is_some() {
                    extracted += 1;
                }
                total += 1;
            }

            Err(_) => {}
        };
        Ok(ControlFlow::Continue(()))
    })
    .unwrap();

    println!("generated {} arbitrary JSON values in total, tested {}", total, extracted);
}

fn run_example<T: Serialize>(value: T) {
    let mut walker = Walker::new(StringKeyBackend::default());
    let res = value.serialize(&mut walker);
    assert!(res.is_ok());
}

#[test]
fn run_json_examples() {
    let examples = [
        r#"{"name": "flatten", "tags": ["a", "b", "a"], "nested": {"depth": 2, "ok": true}}"#,
        r#"[1, -2, "three", null, [], {}]"#,
        r#"{"users": [{"id": 1, "groups": ["admin"]}, {"id": 2, "groups": []}]}"#,
    ];
    for input in examples {
        let value: Value = serde_json::from_str(input).unwrap();
        run_example(value);
    }
}

#[test]
fn run_yaml_examples() {
    let examples = [
        "name: flatten\ntags:\n  - a\n  - b\nnested:\n  depth: 2\n  ok: true\n",
        "- 1\n- -2\n- three\n- ~\n",
    ];
    for input in examples {
        let value: serde_yaml::Value = serde_yaml::from_str(input).unwrap();
        run_example(value);
    }
}

#[test]
fn serde_drives_wrappers_after_their_content() {
    let value: Option<Vec<(u8, char)>> = Some(vec![(7, 'x')]);
    let mut walker = Walker::new(Backend::default());
    value.serialize(&mut walker).unwrap();
    let data = walker.extractor.get_backend().get_data();
    // The sequence comes first, then its tuple, the tuple's two scalars, and
    // the wrapper last of all.
    assert_eq!(
        data.type_table,
        vec![
            (ElemId(1), SymbolId(5)),
            (ElemId(2), SymbolId(8)),
            (ElemId(3), SymbolId(2)),
            (ElemId(4), SymbolId(3)),
            (ElemId(5), SymbolId(10)),
        ]
    );
    assert_eq!(data.seq_table, vec![((ElemId(1), 0), ElemId(2))]);
    assert_eq!(
        data.tuple_table,
        vec![
            ((ElemId(2), 0), ElemId(3)),
            ((ElemId(2), 1), ElemId(4)),
            ((ElemId(5), 0), ElemId(1)),
        ]
    );
    assert_eq!(data.variant_type_table.len(), 1);
    assert_eq!(data.variant_type_table[0].0, ElemId(5));
}

enum Foo {
    A(Box<Foo>),
    B(i64),
}

impl Serialize for Foo {
    fn serialize<S: ser::Serializer>(&self, serializer: S) -> Result<S::Ok, S::Error> {
        match self {
            Foo::A(inner) => serializer.serialize_newtype_variant("Foo", 0, "A", inner),
            Foo::B(n) => serializer.serialize_newtype_variant("Foo", 1, "B", n),
        }
    }
}

#[test]
fn nested_variants_are_numbered_from_the_inside_out() {
    let input = Foo::A(Box::new(Foo::B(10)));
    let mut walker = Walker::new(Backend::default());
    input.serialize(&mut walker).unwrap();
    let data = walker.extractor.get_backend().get_data();

    // there are 3 total elements
    assert!(data.type_table.len() == 3);
    // there are 2 enum variant elements
    assert!(data.variant_type_table.len() == 2);
    // there is 1 number element
    assert!(data.number_table.len() == 1);

    assert_eq!(data.number_table, vec![(ElemId(1), 10)]);
    assert_eq!(&data.symbol_table[13..], ["Foo", "B", "A"]);
    assert_eq!(
        data.variant_type_table,
        vec![
            (ElemId(2), (SymbolId(14), SymbolId(15))),
            (ElemId(3), (SymbolId(14), SymbolId(16))),
        ]
    );
    assert_eq!(
        data.tuple_table,
        vec![((ElemId(2), 0), ElemId(1)), ((ElemId(3), 0), ElemId(2))]
    );
}

struct Broken;

impl Serialize for Broken {
    fn serialize<S: ser::Serializer>(&self, _serializer: S) -> Result<S::Ok, S::Error> {
        Err(<S::Error as ser::Error>::custom("boom"))
    }
}

#[test]
fn failure_of_a_value_to_serialize_stops_the_walk() {
    let input = (true, Broken, false);
    let mut walker = Walker::new(Backend::default());
    let e = input.serialize(&mut walker).unwrap_err();
    assert!(matches!(&e.0, DatalogExtractionError::Custom(msg) if msg == "boom"));
    assert_eq!(e.to_string(), "boom");
    let data = walker.extractor.get_backend().get_data();
    assert_eq!(data.type_table, vec![(ElemId(1), SymbolId(8)), (ElemId(2), SymbolId(1))]);
    assert_eq!(data.tuple_table, vec![((ElemId(1), 0), ElemId(2))]);
    assert_eq!(data.bool_table, vec![(ElemId(2), true)]);
}

#[test]
fn maps_with_keys_that_are_no_strings_need_element_keys() {
    let input: std::collections::BTreeMap<u8, bool> = [(1, true), (2, false)].into_iter().collect();
    let mut walker = Walker::new(Backend::default());
    input.serialize(&mut walker).unwrap();
    let data = walker.extractor.get_backend().get_data();
    assert_eq!(
        data.map_table,
        vec![((ElemId(1), ElemId(2)), ElemId(3)), ((ElemId(1), ElemId(4)), ElemId(5))]
    );

    let mut walker = Walker::new(StringKeyBackend::default());
    let e = input.serialize(&mut walker).unwrap_err();
    assert!(matches!(&e.0, DatalogExtractionError::UnextractableData(kind) if kind == "map key"));
}
