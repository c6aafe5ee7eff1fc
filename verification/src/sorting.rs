//! What sorting does to a table: it moves whole rows and puts them in ascending order.
use vstd::prelude::*;
use vstd::set_lib::{lemma_int_range, lemma_subset_equality, set_int_range};
use crate::cells::{
    column_shows_hex, column_shows_raw, column_shows_text, column_shows_u32, column_shows_u64,
    shows_bytes, shows_text, shows_u32, shows_u64,
};
use crate::frame::{
    arranged, fits, height, in_order, named, rearranges, values_of, with_rows, Column, Values,
};
use crate::records::{Block, Transaction};
use crate::rows::{tells_block, tells_transaction};
use crate::schema::{ColumnType, Table};

verus! {

/// Row `to` of one table shows all that row `from` of another does.
pub open spec fn same_row(columns: Seq<Column>, from: int, table: Seq<Column>, to: int) -> bool {
    &&& forall|name: Seq<char>, value: Option<nat>| #[trigger]
        shows_u32(columns, name, from, value) ==> shows_u32(table, name, to, value)
    &&& forall|name: Seq<char>, value: Option<nat>| #[trigger]
        shows_u64(columns, name, from, value) ==> shows_u64(table, name, to, value)
    &&& forall|name: Seq<char>, value: Option<Seq<char>>| #[trigger]
        shows_text(columns, name, from, value) ==> shows_text(table, name, to, value)
    &&& forall|schema: Table, name: Seq<char>, value: Option<Seq<u8>>| #[trigger]
        shows_bytes(columns, schema, name, from, value) ==> shows_bytes(
            table,
            schema,
            name,
            to,
            value,
        )
}

/// Row `i` of one table is a row of the other.
pub open spec fn row_kept(columns: Seq<Column>, i: int, table: Seq<Column>) -> bool {
    exists|r: int| 0 <= r < height(table) && #[trigger] same_row(columns, i, table, r)
}

/// Sorted or not, a table has as many rows and the same columns as before, and each row that there
/// was is a row of it, once.
pub proof fn law_sorting_moves_whole_rows(
    columns: Seq<Column>,
    by: Option<Seq<Seq<char>>>,
    table: Seq<Column>,
)
    requires
        fits(columns),
        arranged(columns, by, table),
    ensures
        height(table) == height(columns),
        table.len() == columns.len(),
        forall|c: int| 0 <= c < columns.len() ==> (#[trigger] table[c]).name == columns[c].name,
        exists|rows: Seq<int>|
            {
                &&& rows.len() == height(columns)
                &&& rows.no_duplicates()
                &&& forall|r: int|
                    0 <= r < rows.len() ==> 0 <= #[trigger] rows[r] < rows.len() && same_row(
                        columns,
                        rows[r],
                        table,
                        r,
                    )
            },
        forall|i: int| 0 <= i < height(columns) ==> #[trigger] row_kept(columns, i, table),
{
    let n = height(columns);
    let rows = match by {
        Some(_) => choose|rows: Seq<int>|
            rearranges(rows, height(columns)) && table == #[trigger] with_rows(columns, rows),
        None => Seq::new(n, |i: int| i),
    };
    assert(rearranges(rows, n));
    assert forall|c: int| 0 <= c < columns.len() implies {
        &&& (#[trigger] table[c]).name == columns[c].name
        &&& table[c].values.len() == n
        &&& by is Some ==> table[c].values == columns[c].values.pick(rows)
        &&& by is None ==> table[c] == columns[c]
    } by {
        assert(columns[c].values.len() == columns[0].values.len());
    }
    assert forall|r: int| 0 <= r < rows.len() implies 0 <= #[trigger] rows[r] < rows.len()
        && same_row(columns, rows[r], table, r) by {
        lemma_row_moves(columns, table, rows, r);
    }
    assert forall|i: int| 0 <= i < n implies #[trigger] row_kept(columns, i, table) by {
        lemma_every_row_is_there(rows, n, i);
        let r = choose|r: int| 0 <= r < n && rows[r] == i;
        assert(same_row(columns, rows[r], table, r));
    }
}

/// A list of each of the first row numbers once has them all.
proof fn lemma_every_row_is_there(rows: Seq<int>, n: nat, i: int)
    requires
        rearranges(rows, n),
        0 <= i < n,
    ensures
        exists|r: int| 0 <= r < n && rows[r] == i,
{
    rows.unique_seq_to_set();
    lemma_int_range(0, n as int);
    let all = set_int_range(0, n as int);
    assert(rows.to_set().subset_of(all));
    lemma_subset_equality(rows.to_set(), all);
    assert(rows.to_set().contains(i));
    assert(rows.contains(i));
}

/// A row that is moved shows what it showed.
proof fn lemma_row_moves(columns: Seq<Column>, table: Seq<Column>, rows: Seq<int>, r: int)
    requires
        table.len() == columns.len(),
        forall|c: int|
            0 <= c < columns.len() ==> {
                &&& (#[trigger] table[c]).name == columns[c].name
                &&& table[c].values.len() == rows.len()
                &&& table[c].values == columns[c].values.pick(rows) || (table[c] == columns[c]
                    && rows[r] == r)
            },
        0 <= r < rows.len(),
    ensures
        same_row(columns, rows[r], table, r),
{
    reveal(shows_u32);
    reveal(shows_u64);
    reveal(shows_text);
    reveal(shows_bytes);
    let from = rows[r];
    assert forall|name: Seq<char>, value: Option<nat>| #[trigger]
        shows_u32(columns, name, from, value) implies shows_u32(table, name, r, value) by {
        let c = choose|c: int|
            0 <= c < columns.len() && (#[trigger] columns[c]).name == name && column_shows_u32(
                columns[c],
                from,
                value,
            );
        assert(table[c].name == name);
        assert(column_shows_u32(table[c], r, value));
    }
    assert forall|name: Seq<char>, value: Option<nat>| #[trigger]
        shows_u64(columns, name, from, value) implies shows_u64(table, name, r, value) by {
        let c = choose|c: int|
            0 <= c < columns.len() && (#[trigger] columns[c]).name == name && column_shows_u64(
                columns[c],
                from,
                value,
            );
        assert(table[c].name == name);
        assert(column_shows_u64(table[c], r, value));
    }
    assert forall|name: Seq<char>, value: Option<Seq<char>>| #[trigger]
        shows_text(columns, name, from, value) implies shows_text(table, name, r, value) by {
        let c = choose|c: int|
            0 <= c < columns.len() && (#[trigger] columns[c]).name == name && column_shows_text(
                columns[c],
                from,
                value,
            );
        assert(table[c].name == name);
        assert(column_shows_text(table[c], r, value));
    }
    assert forall|schema: Table, name: Seq<char>, value: Option<Seq<u8>>| #[trigger]
        shows_bytes(columns, schema, name, from, value) implies shows_bytes(
        table,
        schema,
        name,
        r,
        value,
    ) by {
        let hex = schema.type_of(name) == Some(ColumnType::Hex);
        let c = choose|c: int|
            0 <= c < columns.len() && (#[trigger] columns[c]).name == name && if hex {
                column_shows_hex(columns[c], from, value)
            } else {
                column_shows_raw(columns[c], from, value)
            };
        assert(table[c].name == name);
        assert(if hex {
            column_shows_hex(table[c], r, value)
        } else {
            column_shows_raw(table[c], r, value)
        });
    }
}

/// A row that shows all that a block's row does tells the block.
pub proof fn law_moved_row_tells_the_block<TX>(
    columns: Seq<Column>,
    from: int,
    table: Seq<Column>,
    to: int,
    schema: Table,
    chain_id: u64,
    block: Block<TX>,
)
    requires
        same_row(columns, from, table, to),
        tells_block(columns, schema, chain_id, from, block),
    ensures
        tells_block(table, schema, chain_id, to, block),
{
}

/// A row that shows all that a transaction's row does tells the transaction.
pub proof fn law_moved_row_tells_the_transaction(
    columns: Seq<Column>,
    from: int,
    table: Seq<Column>,
    to: int,
    schema: Table,
    chain_id: u64,
    tx: Transaction,
    gas_used: Option<u32>,
)
    requires
        same_row(columns, from, table, to),
        tells_transaction(columns, schema, chain_id, from, tx, gas_used),
    ensures
        tells_transaction(table, schema, chain_id, to, tx, gas_used),
{
}

/// Two rows agree in every column of this name.
pub open spec fn rows_agree(table: Seq<Column>, name: Seq<char>, i: int, j: int) -> bool {
    forall|c: int|
        0 <= c < table.len() && (#[trigger] table[c]).name == name ==> match table[c].values {
            Values::UInt32(v) => v[i] == v[j],
            Values::UInt64(v) => v[i] == v[j],
            Values::Text(v) => v[i] == v[j],
            Values::Bytes(v) => v[i] == v[j],
            Values::Other(_) => false,
        }
}

/// A missing number comes before every number, and a number before no lesser one.
pub open spec fn not_after(a: Option<nat>, b: Option<nat>) -> bool {
    match (a, b) {
        (Some(a), Some(b)) => a <= b,
        (Some(_), None) => false,
        (None, _) => true,
    }
}

/// In a sorted table the rows ascend by the first column to sort by, those that agree in it by the
/// second, and so on.
pub proof fn law_sorted_rows_ascend(
    columns: Seq<Column>,
    by: Seq<Seq<char>>,
    table: Seq<Column>,
    k: int,
    i: int,
    j: int,
    a: Option<nat>,
    b: Option<nat>,
)
    requires
        fits(columns),
        arranged(columns, Some(by), table),
        0 <= i < j < height(columns),
        0 <= k < by.len(),
        forall|m: int| 0 <= m < by.len() ==> #[trigger] named(columns, by[m]),
        forall|m: int| 0 <= m < k ==> rows_agree(table, #[trigger] by[m], i, j),
        (shows_u32(table, by[k], i, a) && shows_u32(table, by[k], j, b)) || (shows_u64(
            table,
            by[k],
            i,
            a,
        ) && shows_u64(table, by[k], j, b)),
    ensures
        not_after(a, b),
{
    law_sorting_moves_whole_rows(columns, Some(by), table);
    assert(in_order(table, by, i, j));
    assert forall|m: int| 0 <= m < by.len() implies #[trigger] named(table, by[m]) by {
        assert(named(columns, by[m]));
        let c = choose|c: int| 0 <= c < columns.len() && (#[trigger] columns[c]).name == by[m];
        assert(table[c].name == by[m]);
    }
    assert forall|x: int, y: int| 0 <= x < y < table.len() implies (#[trigger] table[x]).name != (
    #[trigger] table[y]).name by {
        assert(columns[x].name != columns[y].name);
    }
    lemma_in_order_by(table, by, k, i, j, a, b);
}

/// Rows in order ascend by the first column that they do not agree in.
proof fn lemma_in_order_by(
    table: Seq<Column>,
    by: Seq<Seq<char>>,
    k: int,
    i: int,
    j: int,
    a: Option<nat>,
    b: Option<nat>,
)
    requires
        in_order(table, by, i, j),
        0 <= k < by.len(),
        forall|m: int| 0 <= m < by.len() ==> #[trigger] named(table, by[m]),
        forall|x: int, y: int|
            0 <= x < y < table.len() ==> (#[trigger] table[x]).name != (#[trigger] table[y]).name,
        forall|m: int| 0 <= m < k ==> rows_agree(table, #[trigger] by[m], i, j),
        (shows_u32(table, by[k], i, a) && shows_u32(table, by[k], j, b)) || (shows_u64(
            table,
            by[k],
            i,
            a,
        ) && shows_u64(table, by[k], j, b)),
    ensures
        not_after(a, b),
    decreases k,
{
    assert(named(table, by[0]));
    let key = choose|c: int| 0 <= c < table.len() && (#[trigger] table[c]).name == by[0];
    if k == 0 {
        reveal(shows_u32);
        reveal(shows_u64);
    } else {
        let rest = by.drop_first();
        assert(rows_agree(table, by[0], i, j));
        assert(table[key].values == values_of(table, by[0]));
        assert(!table[key].values.less(i, j)) by {
            lemma_not_less_itself(table[key].values, i, j);
        }
        assert forall|m: int| 0 <= m < rest.len() implies #[trigger] named(table, rest[m]) by {
            assert(named(table, by[m + 1]));
        }
        assert forall|m: int| 0 <= m < k - 1 implies rows_agree(
            table,
            #[trigger] rest[m],
            i,
            j,
        ) by {
            assert(rows_agree(table, by[m + 1], i, j));
        }
        lemma_in_order_by(table, rest, k - 1, i, j, a, b);
    }
}

/// A value is not less than itself.
proof fn lemma_not_less_itself(values: Values, i: int, j: int)
    requires
        match values {
            Values::UInt32(v) => v[i] == v[j],
            Values::UInt64(v) => v[i] == v[j],
            Values::Text(v) => v[i] == v[j],
            Values::Bytes(v) => v[i] == v[j],
            Values::Other(_) => false,
        },
    ensures
        !values.less(i, j),
{
    match values {
        Values::Text(v) => {
            if let Some(text) = v[i] {
                lemma_text_not_less(text);
            }
        },
        Values::Bytes(v) => {
            if let Some(bytes) = v[i] {
                lemma_bytes_not_less(bytes);
            }
        },
        _ => {},
    }
}

/// A text is not less than itself.
proof fn lemma_text_not_less(text: Seq<char>)
    ensures
        !crate::frame::text_less(text, text),
    decreases text.len(),
{
    if text.len() > 0 {
        lemma_text_not_less(text.drop_first());
    }
}

/// Bytes are not less than themselves.
proof fn lemma_bytes_not_less(bytes: Seq<u8>)
    ensures
        !crate::frame::bytes_less(bytes, bytes),
    decreases bytes.len(),
{
    if bytes.len() > 0 {
        lemma_bytes_not_less(bytes.drop_first());
    }
}

} // verus!
