use serde_datalog::backend::vector::{Backend, StringKeyBackend};
use serde_datalog::text::{
    append_blanks, append_centered, append_decimal, append_integer, append_left_aligned,
    render_decimal,
};
use serde_datalog::{DatalogExtractor, ElemType};

#[test]
fn numerals_are_decimal() {
    assert_eq!(render_decimal(0), "0");
    assert_eq!(render_decimal(7), "7");
    assert_eq!(render_decimal(10), "10");
    assert_eq!(render_decimal(1234567890), "1234567890");
    assert_eq!(render_decimal(u64::MAX), "18446744073709551615");
    let mut s = String::from("n=");
    append_decimal(&mut s, 405);
    assert_eq!(s, "n=405");
}

#[test]
fn integers_carry_their_sign() {
    for (n, numeral) in [
        (0i128, "0"),
        (-1, "-1"),
        (42, "42"),
        (i64::MIN as i128, "-9223372036854775808"),
        (i64::MAX as i128, "9223372036854775807"),
        (u64::MAX as i128, "18446744073709551615"),
    ] {
        let mut s = String::new();
        append_integer(&mut s, n);
        assert_eq!(s, numeral);
    }
}

#[test]
fn cells_are_padded_as_the_formatter_pads_them() {
    for cell in ["", "ab", "Elem Id", "exactly 15 wide", "longer than fifteen", "é"] {
        let mut s = String::new();
        append_left_aligned(&mut s, cell, 15);
        assert_eq!(s, format!("{:<15}", cell));
        for width in [0, 1, 8, 33, 51] {
            let mut s = String::new();
            append_centered(&mut s, cell, width);
            assert_eq!(s, format!("{:^width$}", cell, width = width));
        }
    }
    let mut s = String::from("|");
    append_blanks(&mut s, 3);
    assert_eq!(s, "|   ");
    let mut s = String::new();
    append_centered(&mut s, "abc", 8);
    assert_eq!(s, "  abc   ");
}

#[test]
fn empty_tables_are_not_dumped() {
    let mut extractor = DatalogExtractor::new(Backend::default());
    extractor.serialize_seq().unwrap();
    extractor.serialize_bool(true).unwrap();
    extractor.serialize_tuple_or_seq_element(ElemType::Sequence).unwrap();
    extractor.serialize_i64(-5).unwrap();
    extractor.serialize_tuple_or_seq_element(ElemType::Sequence).unwrap();
    extractor.end_parent().unwrap();
    let lines = extractor.get_backend().get_data().dump();

    let rule2 = "-".repeat(33);
    let rule3 = "-".repeat(51);
    let mut expected = vec![
        format!("{:^33}", "Symbol Table"),
        rule2.clone(),
        format!("{:<15} | {:<15}", "String", "Symbol Id"),
        rule2.clone(),
    ];
    for (at, name) in [
        "Bool",
        "Number",
        "Str",
        "Map",
        "Seq",
        "Struct",
        "StructVariant",
        "Tuple",
        "TupleStruct",
        "TupleVariant",
        "Unit",
        "UnitStruct",
        "UnitVariant",
    ]
    .iter()
    .enumerate()
    {
        expected.push(format!("{:<15} | {:<15}", name, at + 1));
    }
    expected.push(String::new());
    expected.extend([
        format!("{:^33}", "Type Table"),
        rule2.clone(),
        format!("{:<15} | {:<15}", "Elem Id", "Elem Type"),
        rule2.clone(),
        format!("{:<15} | {:<15}", 1, 5),
        format!("{:<15} | {:<15}", 2, 1),
        format!("{:<15} | {:<15}", 3, 2),
        String::new(),
        format!("{:^33}", "Bool Table"),
        rule2.clone(),
        format!("{:<15} | {:<15}", "Elem Id", "Value"),
        rule2.clone(),
        format!("{:<15} | {:<15?}", 2, true),
        String::new(),
        format!("{:^33}", "Number Table"),
        rule2.clone(),
        format!("{:<15} | {:<15}", "Elem Id", "Value"),
        rule2.clone(),
        format!("{:<15} | {:<15?}", 3, -5),
        String::new(),
        format!("{:^51}", "Seq Table"),
        rule3.clone(),
        format!("{:<15} | {:<15} | {:<15}", "Elem Id", "Index", "Value"),
        rule3.clone(),
        format!("{:<15} | {:<15?} | {:<15?}", 1, 0, 2),
        format!("{:<15} | {:<15?} | {:<15?}", 1, 1, 3),
        String::new(),
    ]);
    assert_eq!(lines, expected);
}

#[test]
fn every_table_with_a_row_is_dumped_under_its_title() {
    let mut extractor = DatalogExtractor::new(StringKeyBackend::default());
    extractor.set_file("f").unwrap();
    extractor.serialize_struct("S").unwrap();
    extractor.serialize_map().unwrap();
    extractor.serialize_str("k").unwrap();
    extractor.serialize_str("v").unwrap();
    extractor.serialize_value().unwrap();
    extractor.end_parent().unwrap();
    extractor.serialize_struct_element("m").unwrap();
    extractor.serialize_unit_variant("E", "V").unwrap();
    extractor.serialize_newtype_struct("N").unwrap();
    extractor.serialize_struct_element("n").unwrap();
    extractor.end_parent().unwrap();
    let lines = extractor.get_backend().get_data().dump();
    let titles: Vec<&str> = lines
        .iter()
        .map(|line| line.trim())
        .filter(|line| line.ends_with("Table"))
        .collect();
    assert_eq!(
        titles,
        vec![
            "Symbol Table",
            "Root Element Table",
            "Type Table",
            "String Table",
            "Map Table",
            "Struct Type Table",
            "Struct Field Table",
            "Variant Type Table",
            "Tuple Table",
        ]
    );
    let map_title = lines.iter().position(|line| line.trim() == "Map Table").unwrap();
    // The map 2 takes the string with the symbol 16 to the element 4.
    assert_eq!(lines[map_title + 4], format!("{:<15} | {:<15} | {:<15}", 2, 16, 4));
}

#[test]
fn identifiers_and_symbols_show_as_numerals() {
    assert_eq!(serde_datalog::ElemId(42).to_string(), "42");
    assert_eq!(serde_datalog::backend::vector::SymbolId(1).to_string(), "1");
}
