//! What a table shows: one value in one row of the column of some name.
use vstd::prelude::*;
use crate::columns::{encoded, with_bytes, with_values};
use crate::frame::{Column, Values};
use crate::reading::{bytes_value, law_hex_reads_back, spells_bytes, spells_number};
use crate::schema::{ColumnType, Table};
use crate::text::opt_hex;

verus! {

/// The column shows the 32-bit number in the row, or that it is missing.
pub open spec fn column_shows_u32(column: Column, row: int, value: Option<nat>) -> bool {
    column.values matches Values::UInt32(v) && 0 <= row < v.len() && match value {
        Some(n) => v[row] is Some && v[row]->0 == n,
        None => v[row] is None,
    }
}

/// The column shows the 64-bit number in the row, or that it is missing.
pub open spec fn column_shows_u64(column: Column, row: int, value: Option<nat>) -> bool {
    column.values matches Values::UInt64(v) && 0 <= row < v.len() && match value {
        Some(n) => v[row] is Some && v[row]->0 == n,
        None => v[row] is None,
    }
}

/// The column shows the text in the row, or that it is missing.
pub open spec fn column_shows_text(column: Column, row: int, value: Option<Seq<char>>) -> bool {
    column.values matches Values::Text(v) && 0 <= row < v.len() && v[row] == value
}

/// The column shows the bytes in the row as they are, or that they are missing.
pub open spec fn column_shows_raw(column: Column, row: int, value: Option<Seq<u8>>) -> bool {
    column.values matches Values::Bytes(v) && 0 <= row < v.len() && v[row] == value
}

/// The column shows the bytes in the row in hexadecimal, or that they are missing.
pub open spec fn column_shows_hex(column: Column, row: int, value: Option<Seq<u8>>) -> bool {
    column.values matches Values::Text(v) && 0 <= row < v.len() && match value {
        Some(bytes) => v[row] is Some && spells_bytes(v[row]->0, bytes),
        None => v[row] is None,
    }
}

/// Some column of this name shows the 32-bit number in the row.
#[verifier::opaque]
pub open spec fn shows_u32(
    columns: Seq<Column>,
    name: Seq<char>,
    row: int,
    value: Option<nat>,
) -> bool {
    exists|c: int|
        0 <= c < columns.len() && (#[trigger] columns[c]).name == name && column_shows_u32(
            columns[c],
            row,
            value,
        )
}

/// Some column of this name shows the 64-bit number in the row.
#[verifier::opaque]
pub open spec fn shows_u64(
    columns: Seq<Column>,
    name: Seq<char>,
    row: int,
    value: Option<nat>,
) -> bool {
    exists|c: int|
        0 <= c < columns.len() && (#[trigger] columns[c]).name == name && column_shows_u64(
            columns[c],
            row,
            value,
        )
}

/// Some column of this name shows the text in the row.
#[verifier::opaque]
pub open spec fn shows_text(
    columns: Seq<Column>,
    name: Seq<char>,
    row: int,
    value: Option<Seq<char>>,
) -> bool {
    exists|c: int|
        0 <= c < columns.len() && (#[trigger] columns[c]).name == name && column_shows_text(
            columns[c],
            row,
            value,
        )
}

/// Some column of this name shows the number in the row, in decimal digits.
pub open spec fn shows_decimal(
    columns: Seq<Column>,
    name: Seq<char>,
    row: int,
    value: nat,
) -> bool {
    exists|text: Seq<char>|
        spells_number(text, value) && #[trigger] shows_text(columns, name, row, Some(text))
}

/// Some column of this name shows the bytes in the row: in hexadecimal where the schema has the
/// column so, and as they are otherwise.
#[verifier::opaque]
pub open spec fn shows_bytes(
    columns: Seq<Column>,
    schema: Table,
    name: Seq<char>,
    row: int,
    value: Option<Seq<u8>>,
) -> bool {
    exists|c: int|
        0 <= c < columns.len() && (#[trigger] columns[c]).name == name && if schema.type_of(name)
            == Some(ColumnType::Hex) {
            column_shows_hex(columns[c], row, value)
        } else {
            column_shows_raw(columns[c], row, value)
        }
}

/// Some column of this name shows the number in the row, as its 32 bytes.
pub open spec fn shows_number_bytes(
    columns: Seq<Column>,
    schema: Table,
    name: Seq<char>,
    row: int,
    value: nat,
) -> bool {
    exists|bytes: Seq<u8>|
        {
            &&& bytes.len() == 32
            &&& bytes_value(bytes) == value
            &&& #[trigger] shows_bytes(columns, schema, name, row, Some(bytes))
        }
}

/// The columns hold one of this name, with these values.
#[verifier::opaque]
pub open spec fn holds(columns: Seq<Column>, name: Seq<char>, values: Values) -> bool {
    exists|c: int|
        0 <= c < columns.len() && #[trigger] columns[c] == (Column { name, values })
}

/// One more column leaves those that were there, and is held where it is wanted.
pub(crate) proof fn lemma_holds_more(
    columns: Seq<Column>,
    schema: Table,
    name: Seq<char>,
    values: Values,
)
    ensures
        schema.has(name) ==> holds(with_values(columns, schema, name, values), name, values),
        forall|other: Seq<char>, v: Values| #[trigger]
            holds(columns, other, v) ==> holds(
                with_values(columns, schema, name, values),
                other,
                v,
            ),
{
    reveal(with_values);
    reveal(holds);
    let more = with_values(columns, schema, name, values);
    if schema.has(name) {
        assert(more[columns.len() as int] == (Column { name, values }));
    }
    assert forall|other: Seq<char>, v: Values| #[trigger] holds(columns, other, v) implies holds(
        more,
        other,
        v,
    ) by {
        let c = choose|c: int|
            0 <= c < columns.len() && #[trigger] columns[c] == (Column { name: other, values: v });
        assert(more[c] == columns[c]);
    }
}

/// One more column of bytes leaves those that were there, and is held where it is wanted.
pub(crate) proof fn lemma_holds_more_bytes(
    columns: Seq<Column>,
    schema: Table,
    name: Seq<char>,
    bytes: Seq<Option<Seq<u8>>>,
)
    ensures
        schema.has(name) ==> holds(
            with_bytes(columns, schema, name, bytes),
            name,
            encoded(schema.type_of(name), bytes),
        ),
        forall|other: Seq<char>, v: Values| #[trigger]
            holds(columns, other, v) ==> holds(with_bytes(columns, schema, name, bytes), other, v),
{
    reveal(with_bytes);
    lemma_holds_more(columns, schema, name, encoded(schema.type_of(name), bytes));
}

/// A column that is held shows its 32-bit numbers.
pub(crate) proof fn lemma_shows_u32(
    columns: Seq<Column>,
    name: Seq<char>,
    values: Seq<Option<u32>>,
    row: int,
    value: Option<nat>,
)
    requires
        holds(columns, name, Values::UInt32(values)),
        0 <= row < values.len(),
        match value {
            Some(n) => values[row] is Some && values[row]->0 == n,
            None => values[row] is None,
        },
    ensures
        shows_u32(columns, name, row, value),
{
    reveal(shows_u32);
    reveal(holds);
}

/// A column that is held shows its 64-bit numbers.
pub(crate) proof fn lemma_shows_u64(
    columns: Seq<Column>,
    name: Seq<char>,
    values: Seq<Option<u64>>,
    row: int,
    value: Option<nat>,
)
    requires
        holds(columns, name, Values::UInt64(values)),
        0 <= row < values.len(),
        match value {
            Some(n) => values[row] is Some && values[row]->0 == n,
            None => values[row] is None,
        },
    ensures
        shows_u64(columns, name, row, value),
{
    reveal(shows_u64);
    reveal(holds);
}

/// A column that is held shows its texts.
pub(crate) proof fn lemma_shows_text(
    columns: Seq<Column>,
    name: Seq<char>,
    values: Seq<Option<Seq<char>>>,
    row: int,
)
    requires
        holds(columns, name, Values::Text(values)),
        0 <= row < values.len(),
    ensures
        shows_text(columns, name, row, values[row]),
{
    reveal(shows_text);
    reveal(holds);
}

/// A column that is held shows its bytes.
pub(crate) proof fn lemma_shows_bytes(
    columns: Seq<Column>,
    schema: Table,
    name: Seq<char>,
    bytes: Seq<Option<Seq<u8>>>,
    row: int,
)
    requires
        holds(columns, name, encoded(schema.type_of(name), bytes)),
        0 <= row < bytes.len(),
    ensures
        shows_bytes(columns, schema, name, row, bytes[row]),
{
    reveal(shows_bytes);
    reveal(holds);
    let values = encoded(schema.type_of(name), bytes);
    let c = choose|c: int|
        0 <= c < columns.len() && #[trigger] columns[c] == (Column { name, values });
    if let Some(b) = bytes[row] {
        law_hex_reads_back(b);
    }
    assert(columns[c].name == name);
}

} // verus!
