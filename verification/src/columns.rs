//! Filling columns row by row and handing the finished ones to a table.
use vstd::prelude::*;
use crate::frame::{
    columns_of, fits, height, named, plain, present, series_bytes, series_column, series_opt_bytes,
    series_opt_text, series_opt_u32, series_opt_u64, series_text, series_u32, series_u64, Column,
    Values,
};
use crate::numbers::{opt_big_endian, u64_as_u32, U256};
use crate::schema::{ColumnType, Table};
use crate::text::{
    all_opt_to_hex, all_to_hex, byte_strings, opt_byte_strings, opt_bytes, opt_hex, texts,
};

verus! {

/// A column after a row: with the row's value where the column is wanted, and as it was
/// otherwise.
pub open spec fn grown<T>(column: Seq<T>, wanted: bool, value: T) -> Seq<T> {
    if wanted {
        column.push(value)
    } else {
        column
    }
}

/// The column has `n` entries where it is wanted, and none otherwise.
pub open spec fn as_long<T>(column: Seq<T>, wanted: bool, n: nat) -> bool {
    column.len() == if wanted {
        n
    } else {
        0
    }
}

/// The same value `n` times.
pub open spec fn repeated<T>(value: T, n: nat) -> Seq<T> {
    Seq::new(n, |i: int| value)
}

/// The columns, followed by one of this name where the schema has it.
#[verifier::opaque]
pub open spec fn with_values(
    columns: Seq<Column>,
    schema: Table,
    name: Seq<char>,
    values: Values,
) -> Seq<Column> {
    if schema.has(name) {
        columns.push(Column { name, values })
    } else {
        columns
    }
}

/// Byte strings in the form that a column of the given type holds them in.
pub open spec fn encoded(column_type: Option<ColumnType>, bytes: Seq<Option<Seq<u8>>>) -> Values {
    if column_type == Some(ColumnType::Hex) {
        Values::Text(bytes.map_values(|b: Option<Seq<u8>>| opt_hex(b)))
    } else {
        Values::Bytes(bytes)
    }
}

/// The columns, followed by one of byte strings where the schema has it.
#[verifier::opaque]
pub open spec fn with_bytes(
    columns: Seq<Column>,
    schema: Table,
    name: Seq<char>,
    bytes: Seq<Option<Seq<u8>>>,
) -> Seq<Column> {
    with_values(columns, schema, name, encoded(schema.type_of(name), bytes))
}

/// The contents of an optional array.
pub open spec fn opt_array<const N: usize>(array: Option<[u8; N]>) -> Option<Seq<u8>> {
    match array {
        Some(bytes) => Some(bytes@),
        None => None,
    }
}

/// An optional number in 32 bits.
pub open spec fn opt_u32(number: Option<U256>) -> Option<u32> {
    match number {
        Some(n) => Some(n.value() as u32),
        None => None,
    }
}

/// An optional number in 64 bits.
pub open spec fn opt_u64(number: Option<U256>) -> Option<u64> {
    match number {
        Some(n) => Some(n.value() as u64),
        None => None,
    }
}

/// An optional word in 32 bits.
pub open spec fn opt_word_u32(word: Option<u64>) -> Option<u32> {
    match word {
        Some(n) => Some(n as u32),
        None => None,
    }
}

/// Copies bytes into a vector.
pub(crate) fn to_vec(bytes: &[u8]) -> (r: Vec<u8>)
    ensures
        r@ == bytes@,
{
    let mut copy: Vec<u8> = Vec::new();
    copy.extend_from_slice(bytes);
    assert(copy@ =~= bytes@);
    copy
}

/// Copies an optional array into a vector.
pub(crate) fn opt_to_vec<const N: usize>(array: &Option<[u8; N]>) -> (r: Option<Vec<u8>>)
    ensures
        opt_bytes(r) == opt_array(*array),
{
    match array {
        Some(bytes) => Some(to_vec(bytes.as_slice())),
        None => None,
    }
}

/// Writes out the bytes of an optional number.
pub(crate) fn opt_to_vec_u8(number: &Option<U256>) -> (r: Option<Vec<u8>>)
    ensures
        opt_bytes(r) == opt_big_endian(*number),
{
    match number {
        Some(number) => Some(number.to_vec_u8()),
        None => None,
    }
}

/// Takes an optional number to 32 bits.
pub(crate) fn opt_as_u32(number: &Option<U256>) -> (r: Option<u32>)
    requires
        number matches Some(n) ==> n.value() <= u32::MAX,
    ensures
        r == opt_u32(*number),
{
    match number {
        Some(n) => Some(n.as_u32()),
        None => None,
    }
}

/// Tells whether an optional number fits in 64 bits, or is missing.
pub(crate) fn opt_fits_u64(number: &Option<U256>) -> (r: bool)
    ensures
        r == (number matches Some(n) ==> n.value() <= u64::MAX),
{
    match number {
        Some(n) => n.fits_u64(),
        None => true,
    }
}

/// Takes an optional number to 64 bits.
pub(crate) fn opt_as_u64(number: &Option<U256>) -> (r: Option<u64>)
    requires
        number matches Some(n) ==> n.value() <= u64::MAX,
    ensures
        r == opt_u64(*number),
{
    match number {
        Some(n) => Some(n.as_u64()),
        None => None,
    }
}

/// Takes an optional word to 32 bits.
pub(crate) fn opt_word_as_u32(word: &Option<u64>) -> (r: Option<u32>)
    requires
        word matches Some(n) ==> n <= u32::MAX,
    ensures
        r == opt_word_u32(*word),
{
    match word {
        Some(n) => Some(u64_as_u32(*n)),
        None => None,
    }
}

/// Appends a byte string to a column.
pub(crate) fn push_bytes(column: &mut Vec<Vec<u8>>, bytes: &[u8])
    ensures
        byte_strings(final(column)@) == byte_strings(old(column)@).push(bytes@),
{
    column.push(to_vec(bytes));
    assert(byte_strings(column@) =~= byte_strings(old(column)@).push(bytes@));
}

/// Appends an optional byte string to a column.
pub(crate) fn push_opt_bytes(column: &mut Vec<Option<Vec<u8>>>, bytes: Option<Vec<u8>>)
    ensures
        opt_byte_strings(final(column)@) == opt_byte_strings(old(column)@).push(opt_bytes(bytes)),
{
    column.push(bytes);
    assert(opt_byte_strings(column@) =~= opt_byte_strings(old(column)@).push(opt_bytes(bytes)));
}

/// Appends a string to a column.
pub(crate) fn push_text(column: &mut Vec<String>, text: String)
    ensures
        texts(final(column)@) == texts(old(column)@).push(text@),
{
    column.push(text);
    assert(texts(column@) =~= texts(old(column)@).push(text@));
}

/// Appends a series to a list of series.
fn add_series(columns: &mut Vec<polars::prelude::Series>, series: polars::prelude::Series)
    ensures
        columns_of(final(columns)@) == columns_of(old(columns)@).push(series_column(series)),
{
    columns.push(series);
    assert(columns_of(columns@) =~= columns_of(old(columns)@).push(series_column(series)));
}

/// Adds a column of numbers where the schema has it.
pub(crate) fn add_u32(
    columns: &mut Vec<polars::prelude::Series>,
    name: &str,
    values: Vec<u32>,
    schema: &Table,
)
    requires
        schema.has(name@) ==> values@.len() < u32::MAX,
    ensures
        columns_of(final(columns)@) == with_values(
            columns_of(old(columns)@),
            *schema,
            name@,
            Values::UInt32(present(values@)),
        ),
        plain(columns_of(old(columns)@)) ==> plain(columns_of(final(columns)@)),
{
    reveal(with_values);
    if schema.has_column(name) {
        add_series(columns, series_u32(name, values));
    }
}

/// Adds a column of optional numbers where the schema has it.
pub(crate) fn add_opt_u32(
    columns: &mut Vec<polars::prelude::Series>,
    name: &str,
    values: Vec<Option<u32>>,
    schema: &Table,
)
    requires
        schema.has(name@) ==> values@.len() < u32::MAX,
    ensures
        columns_of(final(columns)@) == with_values(
            columns_of(old(columns)@),
            *schema,
            name@,
            Values::UInt32(values@),
        ),
        plain(columns_of(old(columns)@)) ==> plain(columns_of(final(columns)@)),
{
    reveal(with_values);
    if schema.has_column(name) {
        add_series(columns, series_opt_u32(name, values));
    }
}

/// Adds a column of wide numbers where the schema has it.
pub(crate) fn add_u64(
    columns: &mut Vec<polars::prelude::Series>,
    name: &str,
    values: Vec<u64>,
    schema: &Table,
)
    requires
        schema.has(name@) ==> values@.len() < u32::MAX,
    ensures
        columns_of(final(columns)@) == with_values(
            columns_of(old(columns)@),
            *schema,
            name@,
            Values::UInt64(present(values@)),
        ),
        plain(columns_of(old(columns)@)) ==> plain(columns_of(final(columns)@)),
{
    reveal(with_values);
    if schema.has_column(name) {
        add_series(columns, series_u64(name, values));
    }
}

/// Adds a column of optional wide numbers where the schema has it.
pub(crate) fn add_opt_u64(
    columns: &mut Vec<polars::prelude::Series>,
    name: &str,
    values: Vec<Option<u64>>,
    schema: &Table,
)
    requires
        schema.has(name@) ==> values@.len() < u32::MAX,
    ensures
        columns_of(final(columns)@) == with_values(
            columns_of(old(columns)@),
            *schema,
            name@,
            Values::UInt64(values@),
        ),
        plain(columns_of(old(columns)@)) ==> plain(columns_of(final(columns)@)),
{
    reveal(with_values);
    if schema.has_column(name) {
        add_series(columns, series_opt_u64(name, values));
    }
}

/// Adds a column of text where the schema has it.
pub(crate) fn add_text(
    columns: &mut Vec<polars::prelude::Series>,
    name: &str,
    values: Vec<String>,
    schema: &Table,
)
    requires
        schema.has(name@) ==> values@.len() < u32::MAX,
    ensures
        columns_of(final(columns)@) == with_values(
            columns_of(old(columns)@),
            *schema,
            name@,
            Values::Text(present(texts(values@))),
        ),
        plain(columns_of(old(columns)@)) ==> plain(columns_of(final(columns)@)),
{
    reveal(with_values);
    if schema.has_column(name) {
        add_series(columns, series_text(name, values));
    }
}

/// Adds a column that holds one text in every row, where the schema has it.
pub(crate) fn add_repeated(
    columns: &mut Vec<polars::prelude::Series>,
    name: &str,
    value: &str,
    n: usize,
    schema: &Table,
)
    requires
        schema.has(name@) ==> n < u32::MAX,
    ensures
        columns_of(final(columns)@) == with_values(
            columns_of(old(columns)@),
            *schema,
            name@,
            Values::Text(present(repeated(value@, n as nat))),
        ),
        plain(columns_of(old(columns)@)) ==> plain(columns_of(final(columns)@)),
{
    reveal(with_values);
    if schema.has_column(name) {
        let mut values: Vec<String> = Vec::new();
        for i in 0..n
            invariant
                values@.len() == i,
                forall|j: int| 0 <= j < i ==> (#[trigger] values@[j])@ == value@,
        {
            values.push(value.to_owned());
        }
        assert(texts(values@) =~= repeated(value@, n as nat));
        add_series(columns, series_text(name, values));
    }
}

/// Adds a column of byte strings where the schema has it, in hexadecimal where the schema says
/// so.
pub(crate) fn add_bytes(
    columns: &mut Vec<polars::prelude::Series>,
    name: &str,
    values: Vec<Vec<u8>>,
    schema: &Table,
)
    requires
        schema.has(name@) ==> values@.len() < u32::MAX,
    ensures
        columns_of(final(columns)@) == with_bytes(
            columns_of(old(columns)@),
            *schema,
            name@,
            present(byte_strings(values@)),
        ),
        plain(columns_of(old(columns)@)) ==> plain(columns_of(final(columns)@)),
{
    reveal(with_values);
    reveal(with_bytes);
    if let Some(column_type) = schema.column_type(name) {
        match column_type {
            ColumnType::Hex => {
                let rendered = all_to_hex(&values);
                assert(rendered@.len() == texts(rendered@).len());
                assert(present(texts(rendered@)) =~= present(byte_strings(values@)).map_values(
                    |b: Option<Seq<u8>>| opt_hex(b),
                ));
                add_series(columns, series_text(name, rendered));
            },
            _ => {
                add_series(columns, series_bytes(name, values));
            },
        }
    }
}

/// Adds a column of optional byte strings where the schema has it, in hexadecimal where the
/// schema says so.
pub(crate) fn add_opt_bytes(
    columns: &mut Vec<polars::prelude::Series>,
    name: &str,
    values: Vec<Option<Vec<u8>>>,
    schema: &Table,
)
    requires
        schema.has(name@) ==> values@.len() < u32::MAX,
    ensures
        columns_of(final(columns)@) == with_bytes(
            columns_of(old(columns)@),
            *schema,
            name@,
            opt_byte_strings(values@),
        ),
        plain(columns_of(old(columns)@)) ==> plain(columns_of(final(columns)@)),
{
    reveal(with_values);
    reveal(with_bytes);
    if let Some(column_type) = schema.column_type(name) {
        match column_type {
            ColumnType::Hex => {
                let rendered = all_opt_to_hex(&values);
                assert(rendered@.len() == crate::text::opt_texts(rendered@).len());
                add_series(columns, series_opt_text(name, rendered));
            },
            _ => {
                add_series(columns, series_opt_bytes(name, values));
            },
        }
    }
}

/// Adds a column that holds one number in every row, where the schema has it.
pub(crate) fn add_repeated_u64(
    columns: &mut Vec<polars::prelude::Series>,
    name: &str,
    value: u64,
    n: u64,
    schema: &Table,
)
    requires
        schema.has(name@) ==> n < u32::MAX,
    ensures
        columns_of(final(columns)@) == with_values(
            columns_of(old(columns)@),
            *schema,
            name@,
            Values::UInt64(present(repeated(value, n as nat))),
        ),
        plain(columns_of(old(columns)@)) ==> plain(columns_of(final(columns)@)),
{
    reveal(with_values);
    if schema.has_column(name) {
        let values: Vec<u64> = vec![value; n as usize];
        assert(values@ =~= repeated(value, n as nat));
        add_series(columns, series_u64(name, values));
    }
}

/// The columns are the wanted ones among the first `k` names, each with the length listed for it.
pub open spec fn laid_out(
    columns: Seq<Column>,
    names: Seq<Seq<char>>,
    lengths: Seq<nat>,
    k: int,
    schema: Table,
) -> bool {
    &&& forall|c: int|
        0 <= c < columns.len() ==> exists|i: int|
            #![trigger names[i]]
            0 <= i < k && (#[trigger] columns[c]).name == names[i] && columns[c].values.len()
                == lengths[i] && schema.has(names[i])
    &&& forall|i: int| 0 <= i < k && schema.has(#[trigger] names[i]) ==> named(columns, names[i])
    &&& forall|a: int, b: int|
        0 <= a < b < columns.len() ==> (#[trigger] columns[a]).name != (#[trigger] columns[b]).name
}

/// One more column, where it is wanted, leaves the columns laid out.
pub(crate) proof fn lemma_lay_out(
    columns: Seq<Column>,
    names: Seq<Seq<char>>,
    lengths: Seq<nat>,
    k: int,
    schema: Table,
    values: Values,
)
    requires
        laid_out(columns, names, lengths, k, schema),
        0 <= k < names.len(),
        names.no_duplicates(),
        values.len() == lengths[k],
    ensures
        laid_out(with_values(columns, schema, names[k], values), names, lengths, k + 1, schema),
{
    reveal(with_values);
    let more = with_values(columns, schema, names[k], values);
    assert forall|c: int| 0 <= c < more.len() implies exists|i: int|
        #![trigger names[i]]
        0 <= i < k + 1 && (#[trigger] more[c]).name == names[i] && more[c].values.len()
            == lengths[i] && schema.has(names[i]) by {
        if c < columns.len() {
            assert(more[c] == columns[c]);
            let i = choose|i: int|
                #![trigger names[i]]
                0 <= i < k && columns[c].name == names[i] && columns[c].values.len() == lengths[i]
                    && schema.has(names[i]);
            assert(names[i] == more[c].name);
        } else {
            assert(names[k] == more[c].name);
        }
    }
    assert forall|a: int, b: int| 0 <= a < b < more.len() implies (#[trigger] more[a]).name != (
    #[trigger] more[b]).name by {
        assert(more[a] == columns[a]);
        if b < columns.len() {
            assert(more[b] == columns[b]);
        } else {
            let i = choose|i: int|
                #![trigger names[i]]
                0 <= i < k && columns[a].name == names[i] && columns[a].values.len() == lengths[i]
                    && schema.has(names[i]);
            assert(names[i] != names[k]);
        }
    }
    assert forall|i: int| 0 <= i < k + 1 && schema.has(#[trigger] names[i]) implies named(
        more,
        names[i],
    ) by {
        if i < k {
            assert(named(columns, names[i]));
            let c = choose|c: int|
                0 <= c < columns.len() && (#[trigger] columns[c]).name == names[i];
            assert(more[c] == columns[c]);
        } else {
            assert(more[columns.len() as int].name == names[k]);
        }
    }
}

/// One more column of byte strings, where it is wanted, leaves the columns laid out.
pub(crate) proof fn lemma_lay_out_bytes(
    columns: Seq<Column>,
    names: Seq<Seq<char>>,
    lengths: Seq<nat>,
    k: int,
    schema: Table,
    bytes: Seq<Option<Seq<u8>>>,
)
    requires
        laid_out(columns, names, lengths, k, schema),
        0 <= k < names.len(),
        names.no_duplicates(),
        bytes.len() == lengths[k],
    ensures
        laid_out(with_bytes(columns, schema, names[k], bytes), names, lengths, k + 1, schema),
{
    reveal(with_bytes);
    lemma_lay_out(
        columns,
        names,
        lengths,
        k,
        schema,
        encoded(schema.type_of(names[k]), bytes),
    );
}

/// Some column but the first is wanted.
pub open spec fn wants_data(names: Seq<Seq<char>>, schema: Table) -> bool {
    exists|i: int| 1 <= i < names.len() && schema.has(#[trigger] names[i])
}

/// Columns that are laid out, all but the first with `n` entries where they are wanted, have the
/// wanted names. They fit side by side unless the first is wanted beside others and differs in
/// length from them.
pub(crate) proof fn lemma_laid_out_fits(
    columns: Seq<Column>,
    names: Seq<Seq<char>>,
    lengths: Seq<nat>,
    schema: Table,
    n: nat,
)
    requires
        laid_out(columns, names, lengths, names.len() as int, schema),
        names.no_duplicates(),
        names.len() > 0,
        forall|i: int| 1 <= i < names.len() && schema.has(#[trigger] names[i]) ==> lengths[i] == n,
    ensures
        fits(columns) <==> !(schema.has(names[0]) && wants_data(names, schema) && lengths[0] != n),
        forall|name: Seq<char>| #[trigger]
            named(columns, name) <==> schema.has(name) && names.contains(name),
        wants_data(names, schema) && fits(columns) ==> height(columns) == n,
{
    let from = |c: int|
        choose|i: int|
            #![trigger names[i]]
            0 <= i < names.len() && columns[c].name == names[i] && columns[c].values.len()
                == lengths[i] && schema.has(names[i]);
    assert forall|c: int| 0 <= c < columns.len() implies {
        let i = from(c);
        0 <= i < names.len() && (#[trigger] columns[c]).name == names[i]
            && columns[c].values.len() == lengths[i] && schema.has(names[i])
    } by {}
    assert forall|name: Seq<char>| #[trigger] named(columns, name) <==> schema.has(name)
        && names.contains(name) by {
        if named(columns, name) {
            let c = choose|c: int| 0 <= c < columns.len() && (#[trigger] columns[c]).name == name;
            assert(names[from(c)] == name);
        }
        if schema.has(name) && names.contains(name) {
            let i = choose|i: int| 0 <= i < names.len() && names[i] == name;
            assert(named(columns, names[i]));
        }
    }
    if wants_data(names, schema) {
        let k = choose|i: int| 1 <= i < names.len() && schema.has(#[trigger] names[i]);
        assert(named(columns, names[k]));
        let b = choose|c: int| 0 <= c < columns.len() && (#[trigger] columns[c]).name == names[k];
        assert(from(b) == k);
        if schema.has(names[0]) {
            assert(named(columns, names[0]));
            let a = choose|c: int|
                0 <= c < columns.len() && (#[trigger] columns[c]).name == names[0];
            assert(from(a) == 0);
        }
    }
}

} // verus!
