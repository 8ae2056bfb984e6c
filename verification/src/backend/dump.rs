//! The tables of a backend as text, for a reader: one block of lines for
//! each table that holds a row.

use vstd::prelude::*;
use vstd::string::*;
use crate::backend::rows::IntegerRow;
use crate::backend::symbols::texts;
use crate::backend::vector::{BackendData, DataModel, MapKey};
use crate::elem::ElemId;
use crate::text::{
    append_centered, append_decimal, append_integer, append_left_aligned, centered, decimal,
    left_aligned, push_char, signed_decimal,
};

verus! {

/// The width of a column of a table.
pub const COLUMN_WIDTH: usize = 15;

/// A line of `width` dashes.
pub open spec fn rule(width: nat) -> Seq<char> {
    Seq::new(width, |i: int| '-')
}

/// The width of a table of `columns` columns: the columns and a bar between
/// blanks from each to the next.
pub open spec fn table_width(columns: nat) -> nat {
    if columns == 0 {
        0
    } else {
        (columns * COLUMN_WIDTH + (columns - 1) * 3) as nat
    }
}

/// The first `n` cells of a row as one line: each cell is padded to the
/// width of a column, and a bar between blanks stands between two cells.
pub open spec fn row_line(cells: Seq<Seq<char>>, n: nat) -> Seq<char>
    decreases n,
{
    if n == 0 || n > cells.len() {
        Seq::empty()
    } else if n == 1 {
        left_aligned(cells[0], COLUMN_WIDTH as nat)
    } else {
        row_line(cells, (n - 1) as nat) + " | "@ + left_aligned(cells[n - 1], COLUMN_WIDTH as nat)
    }
}

/// The lines of all of `rows`.
pub open spec fn row_lines(rows: Seq<Seq<Seq<char>>>) -> Seq<Seq<char>> {
    rows.map_values(|cells: Seq<Seq<char>>| row_line(cells, cells.len()))
}

/// The block of lines for one table: nothing for a table without rows, else
/// the title in the middle of the table's width, a rule, the headers of the
/// columns, a rule, the rows, and an empty line.
pub open spec fn table_lines(
    title: Seq<char>,
    headers: Seq<Seq<char>>,
    rows: Seq<Seq<Seq<char>>>,
) -> Seq<Seq<char>> {
    if rows.len() == 0 {
        Seq::empty()
    } else {
        let width = table_width(headers.len());
        seq![centered(title, width), rule(width), row_line(headers, headers.len()), rule(width)]
            + row_lines(rows) + seq![Seq::empty()]
    }
}

/// The cells of the rows of a relation of integers: the decimal numeral of
/// each column.
pub open spec fn integer_cells<R: IntegerRow>(rows: Seq<R>) -> Seq<Seq<Seq<char>>> {
    rows.map_values(|row: R| row.columns().map_values(|column: int| signed_decimal(column)))
}

/// The cells of the rows of the `bool` relation: the element and the word
/// for the value.
pub open spec fn bool_cells(rows: Seq<(ElemId, bool)>) -> Seq<Seq<Seq<char>>> {
    rows.map_values(
        |row: (ElemId, bool)|
            seq![decimal(row.0.0 as nat), if row.1 {
                "true"@
            } else {
                "false"@
            }],
    )
}

/// The cells of the rows of the symbol table: the string and its symbol.
pub open spec fn symbol_cells(symbols: Seq<Seq<char>>) -> Seq<Seq<Seq<char>>> {
    Seq::new(symbols.len(), |i: int| seq![symbols[i], decimal((i + 1) as nat)])
}

/// The text of each cell of each row.
pub open spec fn cell_texts(rows: Seq<Vec<String>>) -> Seq<Seq<Seq<char>>> {
    rows.map_values(|cells: Vec<String>| texts(cells@))
}

/// The text of each of a list of string slices.
pub open spec fn header_texts(headers: Seq<&'static str>) -> Seq<Seq<char>> {
    headers.map_values(|header: &'static str| header@)
}

/// The tables `m` as lines of text: a block for each table that holds a
/// row, in a fixed order.
pub open spec fn dump_lines<K: MapKey>(m: DataModel<K>) -> Seq<Seq<char>> {
    table_lines("Symbol Table"@, seq!["String"@, "Symbol Id"@], symbol_cells(m.symbols))
        + table_lines("Root Element Table"@, seq!["File"@, "Elem Id"@], integer_cells(m.root_elems))
        + table_lines("Type Table"@, seq!["Elem Id"@, "Elem Type"@], integer_cells(m.types))
        + table_lines("Bool Table"@, seq!["Elem Id"@, "Value"@], bool_cells(m.bools))
        + table_lines("Number Table"@, seq!["Elem Id"@, "Value"@], integer_cells(m.numbers))
        + table_lines("String Table"@, seq!["Elem Id"@, "Value"@], integer_cells(m.strings))
        + table_lines("Map Table"@, seq!["Elem Id"@, "Key"@, "Value"@], integer_cells(m.maps))
        + table_lines(
        "Struct Type Table"@,
        seq!["Elem Id"@, "Struct Type"@],
        integer_cells(m.struct_types),
    ) + table_lines(
        "Struct Field Table"@,
        seq!["Elem Id"@, "Field"@, "Value"@],
        integer_cells(m.structs),
    ) + table_lines("Seq Table"@, seq!["Elem Id"@, "Index"@, "Value"@], integer_cells(m.seqs))
        + table_lines(
        "Variant Type Table"@,
        seq!["Elem Id"@, "Enum Type"@, "Variant Name"@],
        integer_cells(m.variant_types),
    ) + table_lines("Tuple Table"@, seq!["Elem Id"@, "Index"@, "Value"@], integer_cells(m.tuples))
}

/// Appends a rule of `width` dashes to `line`.
fn append_rule(line: &mut String, width: usize)
    ensures
        final(line)@ == old(line)@ + rule(width as nat),
{
    let mut i: usize = 0;
    while i < width
        invariant
            i <= width,
            line@ == old(line)@ + rule(i as nat),
        decreases width - i,
    {
        push_char(line, '-');
        assert(line@ =~= old(line)@ + rule((i + 1) as nat));
        i = i + 1;
    }
}

/// The line of a row of headers.
fn header_line(headers: &Vec<&'static str>) -> (line: String)
    ensures
        line@ == row_line(header_texts(headers@), headers@.len()),
{
    let ghost cells = header_texts(headers@);
    let mut line = String::new();
    let mut i: usize = 0;
    while i < headers.len()
        invariant
            i <= headers.len(),
            cells == header_texts(headers@),
            line@ == row_line(cells, i as nat),
        decreases headers.len() - i,
    {
        if i > 0 {
            line.append(" | ");
        }
        append_left_aligned(&mut line, headers[i], COLUMN_WIDTH);
        assert(cells[i as int] == headers@[i as int]@);
        assert(line@ =~= row_line(cells, (i + 1) as nat));
        i = i + 1;
    }
    line
}

/// The line of a row of cells.
fn cells_line(row: &Vec<String>) -> (line: String)
    ensures
        line@ == row_line(texts(row@), row@.len()),
{
    let ghost cells = texts(row@);
    let mut line = String::new();
    let mut i: usize = 0;
    while i < row.len()
        invariant
            i <= row.len(),
            cells == texts(row@),
            line@ == row_line(cells, i as nat),
        decreases row.len() - i,
    {
        if i > 0 {
            line.append(" | ");
        }
        append_left_aligned(&mut line, row[i].as_str(), COLUMN_WIDTH);
        assert(cells[i as int] == row@[i as int]@);
        assert(line@ =~= row_line(cells, (i + 1) as nat));
        i = i + 1;
    }
    line
}

/// Appends the block of lines for one table to `out`.
fn append_table(
    out: &mut Vec<String>,
    title: &'static str,
    headers: &Vec<&'static str>,
    rows: &Vec<Vec<String>>,
)
    requires
        1 <= headers@.len() <= 3,
    ensures
        texts(final(out)@) == texts(old(out)@) + table_lines(
            title@,
            header_texts(headers@),
            cell_texts(rows@),
        ),
{
    if rows.len() == 0 {
        assert(texts(out@) =~= texts(old(out)@) + Seq::<Seq<char>>::empty());
        return ;
    }
    let ghost cells = cell_texts(rows@);
    let width = headers.len() * COLUMN_WIDTH + (headers.len() - 1) * 3;
    let mut heading = String::new();
    append_centered(&mut heading, title, width);
    let mut line = String::new();
    append_rule(&mut line, width);
    out.push(heading);
    out.push(line.clone());
    out.push(header_line(headers));
    out.push(line);
    let ghost head = seq![
        centered(title@, width as nat),
        rule(width as nat),
        row_line(header_texts(headers@), headers@.len()),
        rule(width as nat),
    ];
    assert(texts(out@) =~= texts(old(out)@) + head);
    let mut i: usize = 0;
    while i < rows.len()
        invariant
            i <= rows.len(),
            cells == cell_texts(rows@),
            texts(out@) == texts(old(out)@) + head + row_lines(cells).take(i as int),
        decreases rows.len() - i,
    {
        let ghost done = texts(out@);
        let line = cells_line(&rows[i]);
        assert(cells[i as int] == texts(rows@[i as int]@));
        assert(cells[i as int].len() == rows@[i as int]@.len());
        assert(line@ == row_lines(cells)[i as int]);
        out.push(line);
        assert(texts(out@) =~= done.push(row_lines(cells)[i as int]));
        assert(row_lines(cells).take(i + 1) =~= row_lines(cells).take(i as int).push(
            row_lines(cells)[i as int],
        ));
        assert(texts(out@) =~= texts(old(out)@) + head + row_lines(cells).take(i + 1));
        i = i + 1;
    }
    let ghost done = texts(out@);
    out.push(String::new());
    assert(texts(out@) =~= done.push(Seq::<char>::empty()));
    assert(row_lines(cells).take(rows@.len() as int) =~= row_lines(cells));
    assert(texts(out@) =~= texts(old(out)@) + (head + row_lines(cells) + seq![
        Seq::<char>::empty(),
    ]));
}

/// The cells of the rows of a relation of integers.
fn render_integer_rows<R: IntegerRow>(rows: &Vec<R>) -> (cells: Vec<Vec<String>>)
    ensures
        cell_texts(cells@) == integer_cells(rows@),
{
    let ghost all = integer_cells(rows@);
    let mut cells: Vec<Vec<String>> = Vec::new();
    let mut i: usize = 0;
    while i < rows.len()
        invariant
            i <= rows.len(),
            all == integer_cells(rows@),
            cell_texts(cells@) == all.take(i as int),
        decreases rows.len() - i,
    {
        let columns = rows[i].to_columns();
        let ghost target = all[i as int];
        let mut row: Vec<String> = Vec::new();
        let mut j: usize = 0;
        while j < columns.len()
            invariant
                j <= columns.len(),
                i < rows.len(),
                target == rows@[i as int].columns().map_values(
                    |column: int| signed_decimal(column),
                ),
                columns@.len() == rows@[i as int].columns().len(),
                forall|k: int|
                    0 <= k < columns@.len() ==> (#[trigger] columns@[k]) == rows@[i as int].columns()[k]
                        && i64::MIN <= columns@[k] <= u64::MAX,
                texts(row@) == target.take(j as int),
            decreases columns.len() - j,
        {
            let mut cell = String::new();
            append_integer(&mut cell, columns[j]);
            let ghost done = texts(row@);
            row.push(cell);
            assert(texts(row@) =~= done.push(signed_decimal(columns@[j as int] as int)));
            assert(target.take(j + 1) =~= target.take(j as int).push(target[j as int]));
            j = j + 1;
        }
        assert(target.take(target.len() as int) =~= target);
        let ghost done = cell_texts(cells@);
        cells.push(row);
        assert(cell_texts(cells@) =~= done.push(target));
        assert(all.take(i + 1) =~= all.take(i as int).push(target));
        i = i + 1;
    }
    assert(all.take(rows@.len() as int) =~= all);
    cells
}

/// The cells of the rows of the `bool` relation.
fn render_bool_rows(rows: &Vec<(ElemId, bool)>) -> (cells: Vec<Vec<String>>)
    ensures
        cell_texts(cells@) == bool_cells(rows@),
{
    let ghost all = bool_cells(rows@);
    let mut cells: Vec<Vec<String>> = Vec::new();
    let mut i: usize = 0;
    while i < rows.len()
        invariant
            i <= rows.len(),
            all == bool_cells(rows@),
            cell_texts(cells@) == all.take(i as int),
        decreases rows.len() - i,
    {
        let mut elem = String::new();
        append_decimal(&mut elem, rows[i].0.0 as u64);
        let value = if rows[i].1 {
            String::from_str("true")
        } else {
            String::from_str("false")
        };
        let mut row: Vec<String> = Vec::new();
        row.push(elem);
        row.push(value);
        assert(texts(row@) =~= all[i as int]);
        let ghost done = cell_texts(cells@);
        cells.push(row);
        assert(cell_texts(cells@) =~= done.push(all[i as int]));
        assert(all.take(i + 1) =~= all.take(i as int).push(all[i as int]));
        i = i + 1;
    }
    assert(all.take(rows@.len() as int) =~= all);
    cells
}

/// The cells of the rows of the symbol table.
fn render_symbol_rows(table: &Vec<String>) -> (cells: Vec<Vec<String>>)
    ensures
        cell_texts(cells@) == symbol_cells(texts(table@)),
{
    let ghost all = symbol_cells(texts(table@));
    let mut cells: Vec<Vec<String>> = Vec::new();
    let mut i: usize = 0;
    while i < table.len()
        invariant
            i <= table.len(),
            all == symbol_cells(texts(table@)),
            cell_texts(cells@) == all.take(i as int),
        decreases table.len() - i,
    {
        let mut id = String::new();
        append_decimal(&mut id, i as u64 + 1);
        let mut row: Vec<String> = Vec::new();
        row.push(table[i].clone());
        row.push(id);
        assert(texts(row@) =~= all[i as int]);
        let ghost done = cell_texts(cells@);
        cells.push(row);
        assert(cell_texts(cells@) =~= done.push(all[i as int]));
        assert(all.take(i + 1) =~= all.take(i as int).push(all[i as int]));
        i = i + 1;
    }
    assert(all.take(table@.len() as int) =~= all);
    cells
}

/// A list of two headers.
fn two_headers(first: &'static str, second: &'static str) -> (headers: Vec<&'static str>)
    ensures
        headers@.len() == 2,
        header_texts(headers@) == seq![first@, second@],
{
    let mut headers: Vec<&'static str> = Vec::new();
    headers.push(first);
    headers.push(second);
    assert(header_texts(headers@) =~= seq![first@, second@]);
    headers
}

/// A list of three headers.
fn three_headers(first: &'static str, second: &'static str, third: &'static str) -> (headers: Vec<
    &'static str,
>)
    ensures
        headers@.len() == 3,
        header_texts(headers@) == seq![first@, second@, third@],
{
    let mut headers: Vec<&'static str> = Vec::new();
    headers.push(first);
    headers.push(second);
    headers.push(third);
    assert(header_texts(headers@) =~= seq![first@, second@, third@]);
    headers
}

impl<K: MapKey> BackendData<K> {
    /// The tables as lines of text, for a reader: a block of lines for each
    /// table that holds a row.
    pub fn dump(&self) -> (lines: Vec<String>)
        ensures
            texts(lines@) == dump_lines(self@),
    {
        let mut lines: Vec<String> = Vec::new();
        assert(texts(lines@) =~= Seq::<Seq<char>>::empty());
        append_table(
            &mut lines,
            "Symbol Table",
            &two_headers("String", "Symbol Id"),
            &render_symbol_rows(&self.symbol_table),
        );
        assert(texts(lines@) =~= table_lines(
            "Symbol Table"@,
            seq!["String"@, "Symbol Id"@],
            symbol_cells(self@.symbols),
        ));
        append_table(
            &mut lines,
            "Root Element Table",
            &two_headers("File", "Elem Id"),
            &render_integer_rows(&self.root_elem_table),
        );
        append_table(
            &mut lines,
            "Type Table",
            &two_headers("Elem Id", "Elem Type"),
            &render_integer_rows(&self.type_table),
        );
        append_table(
            &mut lines,
            "Bool Table",
            &two_headers("Elem Id", "Value"),
            &render_bool_rows(&self.bool_table),
        );
        append_table(
            &mut lines,
            "Number Table",
            &two_headers("Elem Id", "Value"),
            &render_integer_rows(&self.number_table),
        );
        append_table(
            &mut lines,
            "String Table",
            &two_headers("Elem Id", "Value"),
            &render_integer_rows(&self.string_table),
        );
        append_table(
            &mut lines,
            "Map Table",
            &three_headers("Elem Id", "Key", "Value"),
            &render_integer_rows(&self.map_table),
        );
        append_table(
            &mut lines,
            "Struct Type Table",
            &two_headers("Elem Id", "Struct Type"),
            &render_integer_rows(&self.struct_type_table),
        );
        append_table(
            &mut lines,
            "Struct Field Table",
            &three_headers("Elem Id", "Field", "Value"),
            &render_integer_rows(&self.struct_table),
        );
        append_table(
            &mut lines,
            "Seq Table",
            &three_headers("Elem Id", "Index", "Value"),
            &render_integer_rows(&self.seq_table),
        );
        append_table(
            &mut lines,
            "Variant Type Table",
            &three_headers("Elem Id", "Enum Type", "Variant Name"),
            &render_integer_rows(&self.variant_type_table),
        );
        append_table(
            &mut lines,
            "Tuple Table",
            &three_headers("Elem Id", "Index", "Value"),
            &render_integer_rows(&self.tuple_table),
        );
        lines
    }
}

} // verus!
