//! Data frames: named columns of equal length.
//!
//! The frames are those of `polars`. What a series and a frame hold is named here, and the
//! calls into `polars` say over those names what they build.
use polars::prelude::NamedFrom;
use vstd::prelude::*;
use crate::errors::CollectError;
use crate::text::{byte_strings, opt_byte_strings, opt_texts, texts};

verus! {

/// `polars::prelude::Series`: one column.
#[verifier::external_type_specification]
#[verifier::external_body]
pub struct ExSeries(polars::prelude::Series);

/// `polars::prelude::DataFrame`: columns side by side.
#[verifier::external_type_specification]
#[verifier::external_body]
pub struct ExDataFrame(polars::prelude::DataFrame);

/// The values of a column, row by row, by the type that the column has.
#[verifier::ext_equal]
pub enum Values {
    /// Unsigned numbers of 32 bits.
    UInt32(Seq<Option<u32>>),
    /// Unsigned numbers of 64 bits.
    UInt64(Seq<Option<u64>>),
    /// Text.
    Text(Seq<Option<Seq<char>>>),
    /// Bytes.
    Bytes(Seq<Option<Seq<u8>>>),
    /// Values of another type, told by their number alone.
    Other(nat),
}

/// A column: its name and its values.
#[verifier::ext_equal]
pub struct Column {
    /// Name of the column.
    pub name: Seq<char>,
    /// Values of the column.
    pub values: Values,
}

/// Every value present.
pub open spec fn present<T>(values: Seq<T>) -> Seq<Option<T>> {
    values.map_values(|v: T| Some(v))
}

/// `a` comes before `b` character by character.
pub open spec fn text_less(a: Seq<char>, b: Seq<char>) -> bool
    decreases a.len(),
{
    if b.len() == 0 {
        false
    } else if a.len() == 0 {
        true
    } else {
        a[0] < b[0] || (a[0] == b[0] && text_less(a.drop_first(), b.drop_first()))
    }
}

/// `a` comes before `b` byte by byte.
pub open spec fn bytes_less(a: Seq<u8>, b: Seq<u8>) -> bool
    decreases a.len(),
{
    if b.len() == 0 {
        false
    } else if a.len() == 0 {
        true
    } else {
        a[0] < b[0] || (a[0] == b[0] && bytes_less(a.drop_first(), b.drop_first()))
    }
}

/// The values at the given positions, in that order.
pub open spec fn picked<T>(values: Seq<T>, rows: Seq<int>) -> Seq<T> {
    rows.map_values(|r: int| values[r])
}

impl Values {
    /// Number of values.
    pub open spec fn len(self) -> nat {
        match self {
            Values::UInt32(v) => v.len(),
            Values::UInt64(v) => v.len(),
            Values::Text(v) => v.len(),
            Values::Bytes(v) => v.len(),
            Values::Other(n) => n,
        }
    }

    /// The values at the given positions, in that order.
    pub open spec fn pick(self, rows: Seq<int>) -> Values {
        match self {
            Values::UInt32(v) => Values::UInt32(picked(v, rows)),
            Values::UInt64(v) => Values::UInt64(picked(v, rows)),
            Values::Text(v) => Values::Text(picked(v, rows)),
            Values::Bytes(v) => Values::Bytes(picked(v, rows)),
            Values::Other(_) => Values::Other(rows.len()),
        }
    }

    /// The value in row `i` equals that in row `j`.
    pub open spec fn same(self, i: int, j: int) -> bool {
        match self {
            Values::UInt32(v) => v[i] == v[j],
            Values::UInt64(v) => v[i] == v[j],
            Values::Text(v) => v[i] == v[j],
            Values::Bytes(v) => v[i] == v[j],
            Values::Other(_) => false,
        }
    }

    /// The value in row `i` is less than that in row `j`; a missing value is the least.
    pub open spec fn less(self, i: int, j: int) -> bool {
        match self {
            Values::UInt32(v) => match (v[i], v[j]) {
                (Some(a), Some(b)) => a < b,
                (None, Some(_)) => true,
                _ => false,
            },
            Values::UInt64(v) => match (v[i], v[j]) {
                (Some(a), Some(b)) => a < b,
                (None, Some(_)) => true,
                _ => false,
            },
            Values::Text(v) => match (v[i], v[j]) {
                (Some(a), Some(b)) => text_less(a, b),
                (None, Some(_)) => true,
                _ => false,
            },
            Values::Bytes(v) => match (v[i], v[j]) {
                (Some(a), Some(b)) => bytes_less(a, b),
                (None, Some(_)) => true,
                _ => false,
            },
            Values::Other(_) => false,
        }
    }
}

/// Every column is of numbers, text or bytes.
pub open spec fn plain(columns: Seq<Column>) -> bool {
    forall|c: int| 0 <= c < columns.len() ==> (#[trigger] columns[c]).values !is Other
}

/// Some column has this name.
pub open spec fn named(columns: Seq<Column>, name: Seq<char>) -> bool {
    exists|c: int| 0 <= c < columns.len() && (#[trigger] columns[c]).name == name
}

/// The values of the column of this name.
pub open spec fn values_of(columns: Seq<Column>, name: Seq<char>) -> Values {
    columns[choose|c: int| 0 <= c < columns.len() && (#[trigger] columns[c]).name == name].values
}

/// The columns fit side by side: they are equally long and differ in name.
pub open spec fn fits(columns: Seq<Column>) -> bool {
    &&& forall|a: int, b: int|
        0 <= a < columns.len() && 0 <= b < columns.len() ==> (#[trigger] columns[a]).values.len()
            == (#[trigger] columns[b]).values.len()
    &&& forall|a: int, b: int|
        0 <= a < b < columns.len() ==> (#[trigger] columns[a]).name != (#[trigger] columns[b]).name
}

/// Number of rows.
pub open spec fn height(columns: Seq<Column>) -> nat {
    if columns.len() == 0 {
        0
    } else {
        columns[0].values.len()
    }
}

/// Row `i` may stand above row `j` in a table sorted by these columns, in this significance.
pub open spec fn in_order(columns: Seq<Column>, by: Seq<Seq<char>>, i: int, j: int) -> bool
    decreases by.len(),
{
    if by.len() == 0 {
        true
    } else {
        let key = values_of(columns, by[0]);
        key.less(i, j) || (key.same(i, j) && in_order(columns, by.drop_first(), i, j))
    }
}

/// `rows` lists each of the first `n` row numbers once.
pub open spec fn rearranges(rows: Seq<int>, n: nat) -> bool {
    &&& rows.len() == n
    &&& forall|i: int| 0 <= i < n ==> 0 <= #[trigger] rows[i] < n
    &&& rows.no_duplicates()
}

/// The same columns with whole rows put in the given order.
pub open spec fn with_rows(columns: Seq<Column>, rows: Seq<int>) -> Seq<Column> {
    columns.map_values(|c: Column| Column { name: c.name, values: c.values.pick(rows) })
}

/// `sorted` holds the rows of `columns`, each once, in ascending order of the given columns.
pub open spec fn sorted_by(columns: Seq<Column>, by: Seq<Seq<char>>, sorted: Seq<Column>) -> bool {
    &&& exists|rows: Seq<int>|
        rearranges(rows, height(columns)) && sorted == #[trigger] with_rows(columns, rows)
    &&& forall|i: int, j: int|
        0 <= i < j < height(columns) ==> #[trigger] in_order(sorted, by, i, j)
}

/// `table` holds the columns, with the rows sorted as asked.
pub open spec fn arranged(
    columns: Seq<Column>,
    by: Option<Seq<Seq<char>>>,
    table: Seq<Column>,
) -> bool {
    match by {
        Some(names) => sorted_by(columns, names, table),
        None => table == columns,
    }
}

/// A table can be made: the columns fit, and those to sort by are among them.
pub open spec fn can_arrange(columns: Seq<Column>, by: Option<Seq<Seq<char>>>) -> bool {
    &&& fits(columns)
    &&& by matches Some(names) ==> forall|k: int|
        0 <= k < names.len() ==> #[trigger] named(columns, names[k])
}

/// What a series holds: its name, its type and its values.
pub uninterp spec fn series_column(series: polars::prelude::Series) -> Column;

/// What a frame holds: its columns from left to right.
pub uninterp spec fn frame_columns(frame: polars::prelude::DataFrame) -> Seq<Column>;

/// What a list of series holds.
pub open spec fn columns_of(series: Seq<polars::prelude::Series>) -> Seq<Column> {
    series.map_values(|s: polars::prelude::Series| series_column(s))
}

/// `polars::prelude::Series::new` on numbers of 32 bits: a column of that name, with these
/// values in this order. A series counts its rows in 32 bits and does not take more.
#[verifier::external_body]
pub(crate) fn series_u32(name: &str, values: Vec<u32>) -> (r: polars::prelude::Series)
    requires
        values@.len() < u32::MAX,
    ensures
        series_column(r) == (Column { name: name@, values: Values::UInt32(present(values@)) }),
{
    polars::prelude::Series::new(name, values)
}

/// `polars::prelude::Series::new` on optional numbers of 32 bits: a column of that name, with
/// these values in this order, missing where there is none.
#[verifier::external_body]
pub(crate) fn series_opt_u32(name: &str, values: Vec<Option<u32>>) -> (r: polars::prelude::Series)
    requires
        values@.len() < u32::MAX,
    ensures
        series_column(r) == (Column { name: name@, values: Values::UInt32(values@) }),
{
    polars::prelude::Series::new(name, values)
}

/// `polars::prelude::Series::new` on numbers of 64 bits: a column of that name, with these
/// values in this order.
#[verifier::external_body]
pub(crate) fn series_u64(name: &str, values: Vec<u64>) -> (r: polars::prelude::Series)
    requires
        values@.len() < u32::MAX,
    ensures
        series_column(r) == (Column { name: name@, values: Values::UInt64(present(values@)) }),
{
    polars::prelude::Series::new(name, values)
}

/// `polars::prelude::Series::new` on optional numbers of 64 bits: a column of that name, with
/// these values in this order, missing where there is none.
#[verifier::external_body]
pub(crate) fn series_opt_u64(name: &str, values: Vec<Option<u64>>) -> (r: polars::prelude::Series)
    requires
        values@.len() < u32::MAX,
    ensures
        series_column(r) == (Column { name: name@, values: Values::UInt64(values@) }),
{
    polars::prelude::Series::new(name, values)
}

/// `polars::prelude::Series::new` on strings: a column of that name, with these values in this
/// order.
#[verifier::external_body]
pub(crate) fn series_text(name: &str, values: Vec<String>) -> (r: polars::prelude::Series)
    requires
        values@.len() < u32::MAX,
    ensures
        series_column(r) == (Column {
            name: name@,
            values: Values::Text(present(texts(values@))),
        }),
{
    polars::prelude::Series::new(name, values)
}

/// `polars::prelude::Series::new` on optional strings: a column of that name, with these values
/// in this order, missing where there is none.
#[verifier::external_body]
pub(crate) fn series_opt_text(name: &str, values: Vec<Option<String>>) -> (r:
    polars::prelude::Series)
    requires
        values@.len() < u32::MAX,
    ensures
        series_column(r) == (Column { name: name@, values: Values::Text(opt_texts(values@)) }),
{
    polars::prelude::Series::new(name, values)
}

/// `polars::prelude::Series::new` on byte strings: a column of that name, with these values in
/// this order.
#[verifier::external_body]
pub(crate) fn series_bytes(name: &str, values: Vec<Vec<u8>>) -> (r: polars::prelude::Series)
    requires
        values@.len() < u32::MAX,
    ensures
        series_column(r) == (Column {
            name: name@,
            values: Values::Bytes(present(byte_strings(values@))),
        }),
{
    polars::prelude::Series::new(name, values)
}

/// `polars::prelude::Series::new` on optional byte strings: a column of that name, with these
/// values in this order, missing where there is none.
#[verifier::external_body]
pub(crate) fn series_opt_bytes(name: &str, values: Vec<Option<Vec<u8>>>) -> (r:
    polars::prelude::Series)
    requires
        values@.len() < u32::MAX,
    ensures
        series_column(r) == (Column {
            name: name@,
            values: Values::Bytes(opt_byte_strings(values@)),
        }),
{
    polars::prelude::Series::new(name, values)
}

/// `polars::prelude::DataFrame::new`: puts series side by side, where they are equally long and
/// differ in name, and refuses them otherwise.
#[verifier::external_body]
pub(crate) fn frame_of(columns: Vec<polars::prelude::Series>) -> (r: Result<
    polars::prelude::DataFrame,
    polars::prelude::PolarsError,
>)
    ensures
        r is Ok <==> fits(columns_of(columns@)),
        r matches Ok(frame) ==> frame_columns(frame) == columns_of(columns@),
{
    polars::prelude::DataFrame::new(columns)
}

/// `polars::prelude::DataFrame::sort`, ascending: whole rows change places until they stand in
/// ascending order of the named columns, the first of them weighing most and missing values
/// first. Where a named column is not in the frame, the call fails. Rows that agree in all those
/// columns come in an order that is left open.
#[verifier::external_body]
pub(crate) fn sort_frame(frame: &polars::prelude::DataFrame, by: &Vec<String>) -> (r: Result<
    polars::prelude::DataFrame,
    polars::prelude::PolarsError,
>)
    requires
        by@.len() > 0,
        plain(frame_columns(*frame)),
    ensures
        r is Ok <==> forall|k: int|
            0 <= k < by@.len() ==> #[trigger] named(frame_columns(*frame), texts(by@)[k]),
        r matches Ok(sorted) ==> sorted_by(
            frame_columns(*frame),
            texts(by@),
            frame_columns(sorted),
        ),
{
    frame.sort(by, false, false)
}

/// Makes a table of the given columns, with the rows sorted as asked.
pub(crate) fn make_frame(
    columns: Vec<polars::prelude::Series>,
    sort_columns: &Option<Vec<String>>,
) -> (r: Result<polars::prelude::DataFrame, CollectError>)
    requires
        plain(columns_of(columns@)),
        sort_columns matches Some(names) ==> names@.len() > 0,
    ensures
        r is Ok <==> can_arrange(
            columns_of(columns@),
            match *sort_columns {
                Some(names) => Some(texts(names@)),
                None => None,
            },
        ),
        match r {
            Ok(frame) => arranged(
                columns_of(columns@),
                match *sort_columns {
                    Some(names) => Some(texts(names@)),
                    None => None,
                },
                frame_columns(frame),
            ),
            Err(e) => e is PolarsError,
        },
{
    let frame = match frame_of(columns) {
        Ok(frame) => frame,
        Err(e) => return Err(CollectError::PolarsError(e)),
    };
    match sort_columns {
        Some(names) => match sort_frame(&frame, names) {
            Ok(sorted) => Ok(sorted),
            Err(e) => Err(CollectError::PolarsError(e)),
        },
        None => Ok(frame),
    }
}

} // verus!
