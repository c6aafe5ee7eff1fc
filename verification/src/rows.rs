//! What the tables tell of the blocks and transactions that they were made of.
use vstd::prelude::*;
use crate::block_columns::{
    block_fits, block_row, block_row_at, block_rows_aligned, block_table, BlockRows,
};
use crate::blocks::block_column_types;
use crate::cells::{
    holds, lemma_holds_more, lemma_holds_more_bytes, lemma_shows_bytes, lemma_shows_text,
    lemma_shows_u32, lemma_shows_u64, shows_bytes, shows_decimal, shows_number_bytes, shows_text,
    shows_u32, shows_u64,
};
use crate::columns::{encoded, repeated, with_bytes, with_values};
use crate::frame::{present, Column, Values};
use crate::reading::{bytes_value, law_bytes_read_back, law_decimal_reads_back, spells_number};
use crate::records::{Block, Transaction};
use crate::schema::{ColumnType, Table};
use crate::transaction_columns::{
    transaction_fits, transaction_row, transaction_row_at, transaction_rows_aligned,
    transaction_table, TransactionRows,
};

verus! {

/// The table holds the rows that were gathered, each column under its name.
pub open spec fn holds_block_rows(
    table: Seq<Column>,
    rows: BlockRows,
    schema: Table,
    chain_id: u64,
    n: nat,
) -> bool {
    &&& schema.has("_stream_type"@) ==> holds(
        table,
        "_stream_type"@,
        Values::Text(present(repeated("block"@, rows.hash.len()))),
    )
    &&& schema.has("hash"@) ==> holds(
        table,
        "hash"@,
        encoded(schema.type_of("hash"@), present(rows.hash)),
    )
    &&& schema.has("parent_hash"@) ==> holds(
        table,
        "parent_hash"@,
        encoded(schema.type_of("parent_hash"@), present(rows.parent_hash)),
    )
    &&& schema.has("author"@) ==> holds(
        table,
        "author"@,
        encoded(schema.type_of("author"@), present(rows.author)),
    )
    &&& schema.has("state_root"@) ==> holds(
        table,
        "state_root"@,
        encoded(schema.type_of("state_root"@), present(rows.state_root)),
    )
    &&& schema.has("transactions_root"@) ==> holds(
        table,
        "transactions_root"@,
        encoded(schema.type_of("transactions_root"@), present(rows.transactions_root)),
    )
    &&& schema.has("receipts_root"@) ==> holds(
        table,
        "receipts_root"@,
        encoded(schema.type_of("receipts_root"@), present(rows.receipts_root)),
    )
    &&& schema.has("number"@) ==> holds(
        table,
        "number"@,
        Values::UInt32(present(rows.number)),
    )
    &&& schema.has("gas_used"@) ==> holds(
        table,
        "gas_used"@,
        Values::UInt32(present(rows.gas_used)),
    )
    &&& schema.has("extra_data"@) ==> holds(
        table,
        "extra_data"@,
        encoded(schema.type_of("extra_data"@), present(rows.extra_data)),
    )
    &&& schema.has("logs_bloom"@) ==> holds(
        table,
        "logs_bloom"@,
        encoded(schema.type_of("logs_bloom"@), rows.logs_bloom),
    )
    &&& schema.has("timestamp"@) ==> holds(
        table,
        "timestamp"@,
        Values::UInt32(present(rows.timestamp)),
    )
    &&& schema.has("total_difficulty"@) ==> holds(
        table,
        "total_difficulty"@,
        encoded(schema.type_of("total_difficulty"@), rows.total_difficulty),
    )
    &&& schema.has("size"@) ==> holds(
        table,
        "size"@,
        Values::UInt32(rows.size),
    )
    &&& schema.has("base_fee_per_gas"@) ==> holds(
        table,
        "base_fee_per_gas"@,
        Values::UInt64(rows.base_fee_per_gas),
    )
    &&& schema.has("chain_id"@) ==> holds(
        table,
        "chain_id"@,
        Values::UInt64(present(repeated(chain_id, n))),
    )
}

/// A block table holds the rows that were gathered.
pub(crate) proof fn lemma_block_table_holds(rows: BlockRows, schema: Table, chain_id: u64, n: nat)
    ensures
        holds_block_rows(block_table(rows, schema, chain_id, n), rows, schema, chain_id, n),
{
    let v = Values::Text(present(repeated("block"@, rows.hash.len())));
    lemma_holds_more(seq![], schema, "_stream_type"@, v);
    let t = with_values(seq![], schema, "_stream_type"@, v);
    lemma_holds_more_bytes(t, schema, "hash"@, present(rows.hash));
    let t = with_bytes(t, schema, "hash"@, present(rows.hash));
    lemma_holds_more_bytes(t, schema, "parent_hash"@, present(rows.parent_hash));
    let t = with_bytes(t, schema, "parent_hash"@, present(rows.parent_hash));
    lemma_holds_more_bytes(t, schema, "author"@, present(rows.author));
    let t = with_bytes(t, schema, "author"@, present(rows.author));
    lemma_holds_more_bytes(t, schema, "state_root"@, present(rows.state_root));
    let t = with_bytes(t, schema, "state_root"@, present(rows.state_root));
    lemma_holds_more_bytes(t, schema, "transactions_root"@, present(rows.transactions_root));
    let t = with_bytes(t, schema, "transactions_root"@, present(rows.transactions_root));
    lemma_holds_more_bytes(t, schema, "receipts_root"@, present(rows.receipts_root));
    let t = with_bytes(t, schema, "receipts_root"@, present(rows.receipts_root));
    let v = Values::UInt32(present(rows.number));
    lemma_holds_more(t, schema, "number"@, v);
    let t = with_values(t, schema, "number"@, v);
    let v = Values::UInt32(present(rows.gas_used));
    lemma_holds_more(t, schema, "gas_used"@, v);
    let t = with_values(t, schema, "gas_used"@, v);
    lemma_holds_more_bytes(t, schema, "extra_data"@, present(rows.extra_data));
    let t = with_bytes(t, schema, "extra_data"@, present(rows.extra_data));
    lemma_holds_more_bytes(t, schema, "logs_bloom"@, rows.logs_bloom);
    let t = with_bytes(t, schema, "logs_bloom"@, rows.logs_bloom);
    let v = Values::UInt32(present(rows.timestamp));
    lemma_holds_more(t, schema, "timestamp"@, v);
    let t = with_values(t, schema, "timestamp"@, v);
    lemma_holds_more_bytes(t, schema, "total_difficulty"@, rows.total_difficulty);
    let t = with_bytes(t, schema, "total_difficulty"@, rows.total_difficulty);
    let v = Values::UInt32(rows.size);
    lemma_holds_more(t, schema, "size"@, v);
    let t = with_values(t, schema, "size"@, v);
    let v = Values::UInt64(rows.base_fee_per_gas);
    lemma_holds_more(t, schema, "base_fee_per_gas"@, v);
    let t = with_values(t, schema, "base_fee_per_gas"@, v);
    lemma_holds_more(t, schema, "chain_id"@, Values::UInt64(present(repeated(chain_id, n))));
}

/// The row tells the block: each wanted column shows the block's own value in it.
pub open spec fn tells_block<TX>(
    columns: Seq<Column>,
    schema: Table,
    chain_id: u64,
    row: int,
    block: Block<TX>,
) -> bool {
    &&& schema.has("_stream_type"@) && schema.has("hash"@) ==> shows_text(
        columns,
        "_stream_type"@,
        row,
        Some("block"@),
    )
    &&& schema.has("hash"@) ==> shows_bytes(columns, schema, "hash"@, row, Some(block.hash->0@))
    &&& schema.has("parent_hash"@) ==> shows_bytes(
        columns,
        schema,
        "parent_hash"@,
        row,
        Some(block.parent_hash@),
    )
    &&& schema.has("author"@) ==> shows_bytes(
        columns,
        schema,
        "author"@,
        row,
        Some(block.author->0@),
    )
    &&& schema.has("state_root"@) ==> shows_bytes(
        columns,
        schema,
        "state_root"@,
        row,
        Some(block.state_root@),
    )
    &&& schema.has("transactions_root"@) ==> shows_bytes(
        columns,
        schema,
        "transactions_root"@,
        row,
        Some(block.transactions_root@),
    )
    &&& schema.has("receipts_root"@) ==> shows_bytes(
        columns,
        schema,
        "receipts_root"@,
        row,
        Some(block.receipts_root@),
    )
    &&& schema.has("number"@) ==> shows_u32(columns, "number"@, row, Some(block.number->0 as nat))
    &&& schema.has("gas_used"@) ==> shows_u32(
        columns,
        "gas_used"@,
        row,
        Some(block.gas_used.value()),
    )
    &&& schema.has("extra_data"@) ==> shows_bytes(
        columns,
        schema,
        "extra_data"@,
        row,
        Some(block.extra_data@),
    )
    &&& schema.has("logs_bloom"@) ==> match block.logs_bloom {
        Some(bytes) => shows_bytes(columns, schema, "logs_bloom"@, row, Some(bytes@)),
        None => shows_bytes(columns, schema, "logs_bloom"@, row, None),
    }
    &&& schema.has("timestamp"@) ==> shows_u32(
        columns,
        "timestamp"@,
        row,
        Some(block.timestamp.value()),
    )
    &&& schema.has("total_difficulty"@) ==> match block.total_difficulty {
        Some(number) => shows_number_bytes(
            columns,
            schema,
            "total_difficulty"@,
            row,
            number.value(),
        ),
        None => shows_bytes(columns, schema, "total_difficulty"@, row, None),
    }
    &&& schema.has("size"@) ==> match block.size {
            Some(number) => shows_u32(columns, "size"@, row, Some(number.value())),
            None => shows_u32(columns, "size"@, row, None),
        }
    &&& schema.has("base_fee_per_gas"@) ==> match block.base_fee_per_gas {
        Some(number) => shows_u64(columns, "base_fee_per_gas"@, row, Some(number.value())),
        None => shows_u64(columns, "base_fee_per_gas"@, row, None),
    }
    &&& schema.has("chain_id"@) ==> shows_u64(columns, "chain_id"@, row, Some(chain_id as nat))
}

/// A row that is the block's shows in the table.
pub(crate) proof fn lemma_block_row_shows<TX>(
    t: Seq<Column>,
    rows: BlockRows,
    schema: Table,
    chain_id: u64,
    n: nat,
    i: int,
    block: Block<TX>,
)
    requires
        holds_block_rows(t, rows, schema, chain_id, n),
        block_rows_aligned(rows, schema, n),
        0 <= i < n,
        block_row_at(rows, i, block, schema),
        block_fits(block, schema),
    ensures
        tells_block(t, schema, chain_id, i, block),
{
    if schema.has("_stream_type"@) && schema.has("hash"@) {
        let v = present(repeated("block"@, rows.hash.len()));
        assert(v[i] == Some("block"@));
        lemma_shows_text(t, "_stream_type"@, v, i);
    }
    assert(schema.has("hash"@) ==> shows_bytes(t, schema, "hash"@, i, Some(block.hash->0@))) by {
        if schema.has("hash"@) {
            lemma_shows_bytes(t, schema, "hash"@, present(rows.hash), i);
        }
    }
    assert(schema.has("parent_hash"@) ==> shows_bytes(
        t,
        schema,
        "parent_hash"@,
        i,
        Some(block.parent_hash@),
    )) by {
        if schema.has("parent_hash"@) {
            lemma_shows_bytes(t, schema, "parent_hash"@, present(rows.parent_hash), i);
        }
    }
    assert(schema.has("author"@) ==> shows_bytes(
        t,
        schema,
        "author"@,
        i,
        Some(block.author->0@),
    )) by {
        if schema.has("author"@) {
            lemma_shows_bytes(t, schema, "author"@, present(rows.author), i);
        }
    }
    assert(schema.has("state_root"@) ==> shows_bytes(
        t,
        schema,
        "state_root"@,
        i,
        Some(block.state_root@),
    )) by {
        if schema.has("state_root"@) {
            lemma_shows_bytes(t, schema, "state_root"@, present(rows.state_root), i);
        }
    }
    assert(schema.has("transactions_root"@) ==> shows_bytes(
        t,
        schema,
        "transactions_root"@,
        i,
        Some(block.transactions_root@),
    )) by {
        if schema.has("transactions_root"@) {
            lemma_shows_bytes(t, schema, "transactions_root"@, present(rows.transactions_root), i);
        }
    }
    assert(schema.has("receipts_root"@) ==> shows_bytes(
        t,
        schema,
        "receipts_root"@,
        i,
        Some(block.receipts_root@),
    )) by {
        if schema.has("receipts_root"@) {
            lemma_shows_bytes(t, schema, "receipts_root"@, present(rows.receipts_root), i);
        }
    }
    assert(schema.has("number"@) ==> shows_u32(t, "number"@, i, Some(block.number->0 as nat))) by {
        if schema.has("number"@) {
            lemma_shows_u32(t, "number"@, present(rows.number), i, Some(block.number->0 as nat));
        }
    }
    assert(schema.has("gas_used"@) ==> shows_u32(
        t,
        "gas_used"@,
        i,
        Some(block.gas_used.value()),
    )) by {
        if schema.has("gas_used"@) {
            lemma_shows_u32(
                t,
                "gas_used"@,
                present(rows.gas_used),
                i,
                Some(block.gas_used.value()),
            );
        }
    }
    assert(schema.has("extra_data"@) ==> shows_bytes(
        t,
        schema,
        "extra_data"@,
        i,
        Some(block.extra_data@),
    )) by {
        if schema.has("extra_data"@) {
            lemma_shows_bytes(t, schema, "extra_data"@, present(rows.extra_data), i);
        }
    }
    assert(schema.has("logs_bloom"@) ==> match block.logs_bloom {
            Some(bytes) => shows_bytes(t, schema, "logs_bloom"@, i, Some(bytes@)),
            None => shows_bytes(t, schema, "logs_bloom"@, i, None),
        }) by {
        if schema.has("logs_bloom"@) {
            lemma_shows_bytes(t, schema, "logs_bloom"@, rows.logs_bloom, i);
        }
    }
    assert(schema.has("timestamp"@) ==> shows_u32(
        t,
        "timestamp"@,
        i,
        Some(block.timestamp.value()),
    )) by {
        if schema.has("timestamp"@) {
            lemma_shows_u32(
                t,
                "timestamp"@,
                present(rows.timestamp),
                i,
                Some(block.timestamp.value()),
            );
        }
    }
    assert(schema.has("total_difficulty"@) ==> match block.total_difficulty {
            Some(number) => shows_number_bytes(t, schema, "total_difficulty"@, i, number.value()),
            None => shows_bytes(t, schema, "total_difficulty"@, i, None),
        }) by {
        if schema.has("total_difficulty"@) {
            if let Some(number) = block.total_difficulty {
                law_bytes_read_back(number);
            }
            lemma_shows_bytes(t, schema, "total_difficulty"@, rows.total_difficulty, i);
        }
    }
    assert(schema.has("size"@) ==> match block.size {
            Some(number) => shows_u32(t, "size"@, i, Some(number.value())),
            None => shows_u32(t, "size"@, i, None),
        }) by {
        if schema.has("size"@) {
            match block.size {
                Some(number) => lemma_shows_u32(t, "size"@, rows.size, i, Some(number.value())),
                None => lemma_shows_u32(t, "size"@, rows.size, i, None),
            }
        }
    }
    assert(schema.has("base_fee_per_gas"@) ==> match block.base_fee_per_gas {
            Some(number) => shows_u64(t, "base_fee_per_gas"@, i, Some(number.value())),
            None => shows_u64(t, "base_fee_per_gas"@, i, None),
        }) by {
        if schema.has("base_fee_per_gas"@) {
            match block.base_fee_per_gas {
                Some(number) => lemma_shows_u64(
                    t,
                    "base_fee_per_gas"@,
                    rows.base_fee_per_gas,
                    i,
                    Some(number.value()),
                ),
                None => lemma_shows_u64(t, "base_fee_per_gas"@, rows.base_fee_per_gas, i, None),
            }
        }
    }
    if schema.has("chain_id"@) {
        let v = present(repeated(chain_id, n));
        assert(v[i] == Some(chain_id));
        lemma_shows_u64(t, "chain_id"@, v, i, Some(chain_id as nat));
    }
}

/// A block adds its own values to the wanted columns, leaves what they held, and leaves the other
/// columns as they were.
pub proof fn law_block_row_holds_the_block<TX>(
    rows: BlockRows,
    block: Block<TX>,
    schema: Table,
)
    requires
        block_fits(block, schema),
    ensures
        ({
            let column = block_row(rows, block, schema).hash;
            if schema.has("hash"@) {
                &&& column.len() == rows.hash.len() + 1
                &&& column.drop_last() == rows.hash
                &&& column.last() == block.hash->0@
            } else {
                column == rows.hash
            }
        }),
        ({
            let column = block_row(rows, block, schema).parent_hash;
            if schema.has("parent_hash"@) {
                &&& column.len() == rows.parent_hash.len() + 1
                &&& column.drop_last() == rows.parent_hash
                &&& column.last() == block.parent_hash@
            } else {
                column == rows.parent_hash
            }
        }),
        ({
            let column = block_row(rows, block, schema).author;
            if schema.has("author"@) {
                &&& column.len() == rows.author.len() + 1
                &&& column.drop_last() == rows.author
                &&& column.last() == block.author->0@
            } else {
                column == rows.author
            }
        }),
        ({
            let column = block_row(rows, block, schema).state_root;
            if schema.has("state_root"@) {
                &&& column.len() == rows.state_root.len() + 1
                &&& column.drop_last() == rows.state_root
                &&& column.last() == block.state_root@
            } else {
                column == rows.state_root
            }
        }),
        ({
            let column = block_row(rows, block, schema).transactions_root;
            if schema.has("transactions_root"@) {
                &&& column.len() == rows.transactions_root.len() + 1
                &&& column.drop_last() == rows.transactions_root
                &&& column.last() == block.transactions_root@
            } else {
                column == rows.transactions_root
            }
        }),
        ({
            let column = block_row(rows, block, schema).receipts_root;
            if schema.has("receipts_root"@) {
                &&& column.len() == rows.receipts_root.len() + 1
                &&& column.drop_last() == rows.receipts_root
                &&& column.last() == block.receipts_root@
            } else {
                column == rows.receipts_root
            }
        }),
        ({
            let column = block_row(rows, block, schema).number;
            if schema.has("number"@) {
                &&& column.len() == rows.number.len() + 1
                &&& column.drop_last() == rows.number
                &&& column.last() == block.number->0
            } else {
                column == rows.number
            }
        }),
        ({
            let column = block_row(rows, block, schema).gas_used;
            if schema.has("gas_used"@) {
                &&& column.len() == rows.gas_used.len() + 1
                &&& column.drop_last() == rows.gas_used
                &&& column.last() == block.gas_used.value()
            } else {
                column == rows.gas_used
            }
        }),
        ({
            let column = block_row(rows, block, schema).extra_data;
            if schema.has("extra_data"@) {
                &&& column.len() == rows.extra_data.len() + 1
                &&& column.drop_last() == rows.extra_data
                &&& column.last() == block.extra_data@
            } else {
                column == rows.extra_data
            }
        }),
        ({
            let column = block_row(rows, block, schema).logs_bloom;
            if schema.has("logs_bloom"@) {
                &&& column.len() == rows.logs_bloom.len() + 1
                &&& column.drop_last() == rows.logs_bloom
                &&& match block.logs_bloom {
                    Some(bytes) => column.last() == Some(bytes@),
                    None => column.last() is None,
                }
            } else {
                column == rows.logs_bloom
            }
        }),
        ({
            let column = block_row(rows, block, schema).timestamp;
            if schema.has("timestamp"@) {
                &&& column.len() == rows.timestamp.len() + 1
                &&& column.drop_last() == rows.timestamp
                &&& column.last() == block.timestamp.value()
            } else {
                column == rows.timestamp
            }
        }),
        ({
            let column = block_row(rows, block, schema).total_difficulty;
            if schema.has("total_difficulty"@) {
                &&& column.len() == rows.total_difficulty.len() + 1
                &&& column.drop_last() == rows.total_difficulty
                &&& match block.total_difficulty {
                    Some(number) => {
                        &&& column.last() is Some
                        &&& column.last()->0.len() == 32
                        &&& bytes_value(column.last()->0) == number.value()
                    },
                    None => column.last() is None,
                }
            } else {
                column == rows.total_difficulty
            }
        }),
        ({
            let column = block_row(rows, block, schema).size;
            if schema.has("size"@) {
                &&& column.len() == rows.size.len() + 1
                &&& column.drop_last() == rows.size
                &&& match block.size {
                    Some(number) => column.last() is Some && column.last()->0 == number.value(),
                    None => column.last() is None,
                }
            } else {
                column == rows.size
            }
        }),
        ({
            let column = block_row(rows, block, schema).base_fee_per_gas;
            if schema.has("base_fee_per_gas"@) {
                &&& column.len() == rows.base_fee_per_gas.len() + 1
                &&& column.drop_last() == rows.base_fee_per_gas
                &&& match block.base_fee_per_gas {
                    Some(number) => column.last() is Some && column.last()->0 == number.value(),
                    None => column.last() is None,
                }
            } else {
                column == rows.base_fee_per_gas
            }
        }),
{
    let after = block_row(rows, block, schema);
    assert(schema.has("hash"@) ==> {
        &&& after.hash.len() == rows.hash.len() + 1
        &&& after.hash.drop_last() == rows.hash
        &&& after.hash.last() == block.hash->0@
    }) by {
        assert(schema.has("hash"@) ==> after.hash.drop_last() =~= rows.hash);
    }
    assert(schema.has("parent_hash"@) ==> {
        &&& after.parent_hash.len() == rows.parent_hash.len() + 1
        &&& after.parent_hash.drop_last() == rows.parent_hash
        &&& after.parent_hash.last() == block.parent_hash@
    }) by {
        assert(schema.has("parent_hash"@) ==> after.parent_hash.drop_last() =~= rows.parent_hash);
    }
    assert(schema.has("author"@) ==> {
        &&& after.author.len() == rows.author.len() + 1
        &&& after.author.drop_last() == rows.author
        &&& after.author.last() == block.author->0@
    }) by {
        assert(schema.has("author"@) ==> after.author.drop_last() =~= rows.author);
    }
    assert(schema.has("state_root"@) ==> {
        &&& after.state_root.len() == rows.state_root.len() + 1
        &&& after.state_root.drop_last() == rows.state_root
        &&& after.state_root.last() == block.state_root@
    }) by {
        assert(schema.has("state_root"@) ==> after.state_root.drop_last() =~= rows.state_root);
    }
    assert(schema.has("transactions_root"@) ==> {
        &&& after.transactions_root.len() == rows.transactions_root.len() + 1
        &&& after.transactions_root.drop_last() == rows.transactions_root
        &&& after.transactions_root.last() == block.transactions_root@
    }) by {
        assert(schema.has("transactions_root"@)
            ==> after.transactions_root.drop_last() =~= rows.transactions_root);
    }
    assert(schema.has("receipts_root"@) ==> {
        &&& after.receipts_root.len() == rows.receipts_root.len() + 1
        &&& after.receipts_root.drop_last() == rows.receipts_root
        &&& after.receipts_root.last() == block.receipts_root@
    }) by {
        assert(schema.has("receipts_root"@)
            ==> after.receipts_root.drop_last() =~= rows.receipts_root);
    }
    assert(schema.has("number"@) ==> {
        &&& after.number.len() == rows.number.len() + 1
        &&& after.number.drop_last() == rows.number
        &&& after.number.last() == block.number->0
    }) by {
        assert(schema.has("number"@) ==> after.number.drop_last() =~= rows.number);
    }
    assert(schema.has("gas_used"@) ==> {
        &&& after.gas_used.len() == rows.gas_used.len() + 1
        &&& after.gas_used.drop_last() == rows.gas_used
        &&& after.gas_used.last() == block.gas_used.value()
    }) by {
        assert(schema.has("gas_used"@) ==> after.gas_used.drop_last() =~= rows.gas_used);
    }
    assert(schema.has("extra_data"@) ==> {
        &&& after.extra_data.len() == rows.extra_data.len() + 1
        &&& after.extra_data.drop_last() == rows.extra_data
        &&& after.extra_data.last() == block.extra_data@
    }) by {
        assert(schema.has("extra_data"@) ==> after.extra_data.drop_last() =~= rows.extra_data);
    }
    assert(schema.has("logs_bloom"@) ==> {
        &&& after.logs_bloom.len() == rows.logs_bloom.len() + 1
        &&& after.logs_bloom.drop_last() == rows.logs_bloom
        &&& match block.logs_bloom {
            Some(bytes) => after.logs_bloom.last() == Some(bytes@),
            None => after.logs_bloom.last() is None,
        }
    }) by {
        assert(schema.has("logs_bloom"@) ==> after.logs_bloom.drop_last() =~= rows.logs_bloom);
    }
    assert(schema.has("timestamp"@) ==> {
        &&& after.timestamp.len() == rows.timestamp.len() + 1
        &&& after.timestamp.drop_last() == rows.timestamp
        &&& after.timestamp.last() == block.timestamp.value()
    }) by {
        assert(schema.has("timestamp"@) ==> after.timestamp.drop_last() =~= rows.timestamp);
    }
    assert(schema.has("total_difficulty"@) ==> {
        &&& after.total_difficulty.len() == rows.total_difficulty.len() + 1
        &&& after.total_difficulty.drop_last() == rows.total_difficulty
        &&& match block.total_difficulty {
            Some(number) => {
                &&& after.total_difficulty.last() is Some
                &&& after.total_difficulty.last()->0.len() == 32
                &&& bytes_value(after.total_difficulty.last()->0) == number.value()
            },
            None => after.total_difficulty.last() is None,
        }
    }) by {
        if let Some(number) = block.total_difficulty {
            law_bytes_read_back(number);
        }
        assert(schema.has("total_difficulty"@)
            ==> after.total_difficulty.drop_last() =~= rows.total_difficulty);
    }
    assert(schema.has("size"@) ==> {
        &&& after.size.len() == rows.size.len() + 1
        &&& after.size.drop_last() == rows.size
        &&& match block.size {
            Some(number) => after.size.last() is Some && after.size.last()->0 == number.value(),
            None => after.size.last() is None,
        }
    }) by {
        assert(schema.has("size"@) ==> after.size.drop_last() =~= rows.size);
    }
    assert(schema.has("base_fee_per_gas"@) ==> {
        &&& after.base_fee_per_gas.len() == rows.base_fee_per_gas.len() + 1
        &&& after.base_fee_per_gas.drop_last() == rows.base_fee_per_gas
        &&& match block.base_fee_per_gas {
            Some(number) => after.base_fee_per_gas.last() is Some
                && after.base_fee_per_gas.last()->0 == number.value(),
            None => after.base_fee_per_gas.last() is None,
        }
    }) by {
        assert(schema.has("base_fee_per_gas"@)
            ==> after.base_fee_per_gas.drop_last() =~= rows.base_fee_per_gas);
    }
}

/// The table holds the rows that were gathered, each column under its name.
pub open spec fn holds_transaction_rows(
    table: Seq<Column>,
    rows: TransactionRows,
    schema: Table,
    chain_id: u64,
    n: nat,
) -> bool {
    &&& schema.has("_stream_type"@) ==> holds(
        table,
        "_stream_type"@,
        Values::Text(present(repeated("tx"@, rows.block_number.len()))),
    )
    &&& schema.has("block_number"@) ==> holds(
        table,
        "block_number"@,
        Values::UInt64(rows.block_number),
    )
    &&& schema.has("transaction_index"@) ==> holds(
        table,
        "transaction_index"@,
        Values::UInt64(rows.transaction_index),
    )
    &&& schema.has("transaction_hash"@) ==> holds(
        table,
        "transaction_hash"@,
        encoded(schema.type_of("transaction_hash"@), present(rows.transaction_hash)),
    )
    &&& schema.has("nonce"@) ==> holds(
        table,
        "nonce"@,
        Values::UInt64(present(rows.nonce)),
    )
    &&& schema.has("from_address"@) ==> holds(
        table,
        "from_address"@,
        encoded(schema.type_of("from_address"@), present(rows.from_address)),
    )
    &&& schema.has("to_address"@) ==> holds(
        table,
        "to_address"@,
        encoded(schema.type_of("to_address"@), rows.to_address),
    )
    &&& schema.has("value"@) ==> holds(
        table,
        "value"@,
        Values::Text(present(rows.value)),
    )
    &&& schema.has("input"@) ==> holds(
        table,
        "input"@,
        encoded(schema.type_of("input"@), present(rows.input)),
    )
    &&& schema.has("gas_limit"@) ==> holds(
        table,
        "gas_limit"@,
        Values::UInt32(present(rows.gas_limit)),
    )
    &&& schema.has("gas_used"@) ==> holds(
        table,
        "gas_used"@,
        Values::UInt32(present(rows.gas_used)),
    )
    &&& schema.has("gas_price"@) ==> holds(
        table,
        "gas_price"@,
        Values::UInt64(rows.gas_price),
    )
    &&& schema.has("transaction_type"@) ==> holds(
        table,
        "transaction_type"@,
        Values::UInt32(rows.transaction_type),
    )
    &&& schema.has("max_priority_fee_per_gas"@) ==> holds(
        table,
        "max_priority_fee_per_gas"@,
        Values::UInt64(rows.max_priority_fee_per_gas),
    )
    &&& schema.has("max_fee_per_gas"@) ==> holds(
        table,
        "max_fee_per_gas"@,
        Values::UInt64(rows.max_fee_per_gas),
    )
    &&& schema.has("chain_id"@) ==> holds(
        table,
        "chain_id"@,
        Values::UInt64(present(repeated(chain_id, n))),
    )
}

/// A transaction table holds the rows that were gathered.
pub(crate) proof fn lemma_transaction_table_holds(
    rows: TransactionRows,
    schema: Table,
    chain_id: u64,
    n: nat,
)
    ensures
        holds_transaction_rows(
            transaction_table(rows, schema, chain_id, n),
            rows,
            schema,
            chain_id,
            n,
        ),
{
    let v = Values::Text(present(repeated("tx"@, rows.block_number.len())));
    lemma_holds_more(seq![], schema, "_stream_type"@, v);
    let t = with_values(seq![], schema, "_stream_type"@, v);
    let v = Values::UInt64(rows.block_number);
    lemma_holds_more(t, schema, "block_number"@, v);
    let t = with_values(t, schema, "block_number"@, v);
    let v = Values::UInt64(rows.transaction_index);
    lemma_holds_more(t, schema, "transaction_index"@, v);
    let t = with_values(t, schema, "transaction_index"@, v);
    lemma_holds_more_bytes(t, schema, "transaction_hash"@, present(rows.transaction_hash));
    let t = with_bytes(t, schema, "transaction_hash"@, present(rows.transaction_hash));
    let v = Values::UInt64(present(rows.nonce));
    lemma_holds_more(t, schema, "nonce"@, v);
    let t = with_values(t, schema, "nonce"@, v);
    lemma_holds_more_bytes(t, schema, "from_address"@, present(rows.from_address));
    let t = with_bytes(t, schema, "from_address"@, present(rows.from_address));
    lemma_holds_more_bytes(t, schema, "to_address"@, rows.to_address);
    let t = with_bytes(t, schema, "to_address"@, rows.to_address);
    let v = Values::Text(present(rows.value));
    lemma_holds_more(t, schema, "value"@, v);
    let t = with_values(t, schema, "value"@, v);
    lemma_holds_more_bytes(t, schema, "input"@, present(rows.input));
    let t = with_bytes(t, schema, "input"@, present(rows.input));
    let v = Values::UInt32(present(rows.gas_limit));
    lemma_holds_more(t, schema, "gas_limit"@, v);
    let t = with_values(t, schema, "gas_limit"@, v);
    let v = Values::UInt32(present(rows.gas_used));
    lemma_holds_more(t, schema, "gas_used"@, v);
    let t = with_values(t, schema, "gas_used"@, v);
    let v = Values::UInt64(rows.gas_price);
    lemma_holds_more(t, schema, "gas_price"@, v);
    let t = with_values(t, schema, "gas_price"@, v);
    let v = Values::UInt32(rows.transaction_type);
    lemma_holds_more(t, schema, "transaction_type"@, v);
    let t = with_values(t, schema, "transaction_type"@, v);
    let v = Values::UInt64(rows.max_priority_fee_per_gas);
    lemma_holds_more(t, schema, "max_priority_fee_per_gas"@, v);
    let t = with_values(t, schema, "max_priority_fee_per_gas"@, v);
    let v = Values::UInt64(rows.max_fee_per_gas);
    lemma_holds_more(t, schema, "max_fee_per_gas"@, v);
    let t = with_values(t, schema, "max_fee_per_gas"@, v);
    lemma_holds_more(t, schema, "chain_id"@, Values::UInt64(present(repeated(chain_id, n))));
}

/// The row tells the transaction: each wanted column shows the transaction's own value in it.
pub open spec fn tells_transaction(
    columns: Seq<Column>,
    schema: Table,
    chain_id: u64,
    row: int,
    tx: Transaction,
    gas_used: Option<u32>,
) -> bool {
    &&& schema.has("_stream_type"@) && schema.has("block_number"@) ==> shows_text(
        columns,
        "_stream_type"@,
        row,
        Some("tx"@),
    )
    &&& schema.has("block_number"@) ==> match tx.block_number {
        Some(number) => shows_u64(columns, "block_number"@, row, Some(number as nat)),
        None => shows_u64(columns, "block_number"@, row, None),
    }
    &&& schema.has("transaction_index"@) ==> match tx.transaction_index {
            Some(number) => shows_u64(columns, "transaction_index"@, row, Some(number as nat)),
            None => shows_u64(columns, "transaction_index"@, row, None),
        }
    &&& schema.has("transaction_hash"@) ==> shows_bytes(
        columns,
        schema,
        "transaction_hash"@,
        row,
        Some(tx.hash@),
    )
    &&& schema.has("nonce"@) ==> shows_u64(columns, "nonce"@, row, Some(tx.nonce.value()))
    &&& schema.has("from_address"@) ==> shows_bytes(
        columns,
        schema,
        "from_address"@,
        row,
        Some(tx.from@),
    )
    &&& schema.has("to_address"@) ==> match tx.to {
        Some(bytes) => shows_bytes(columns, schema, "to_address"@, row, Some(bytes@)),
        None => shows_bytes(columns, schema, "to_address"@, row, None),
    }
    &&& schema.has("value"@) ==> shows_decimal(columns, "value"@, row, tx.value.value())
    &&& schema.has("input"@) ==> shows_bytes(columns, schema, "input"@, row, Some(tx.input@))
    &&& schema.has("gas_limit"@) ==> shows_u32(columns, "gas_limit"@, row, Some(tx.gas.value()))
    &&& schema.has("gas_used"@) ==> shows_u32(columns, "gas_used"@, row, Some(gas_used->0 as nat))
    &&& schema.has("gas_price"@) ==> match tx.gas_price {
        Some(number) => shows_u64(columns, "gas_price"@, row, Some(number.value())),
        None => shows_u64(columns, "gas_price"@, row, None),
    }
    &&& schema.has("transaction_type"@) ==> match tx.transaction_type {
            Some(number) => shows_u32(columns, "transaction_type"@, row, Some(number as nat)),
            None => shows_u32(columns, "transaction_type"@, row, None),
        }
    &&& schema.has("max_priority_fee_per_gas"@) ==> match tx.max_priority_fee_per_gas {
        Some(number) => shows_u64(
            columns,
            "max_priority_fee_per_gas"@,
            row,
            Some(number.value()),
        ),
        None => shows_u64(columns, "max_priority_fee_per_gas"@, row, None),
    }
    &&& schema.has("max_fee_per_gas"@) ==> match tx.max_fee_per_gas {
            Some(number) => shows_u64(columns, "max_fee_per_gas"@, row, Some(number.value())),
            None => shows_u64(columns, "max_fee_per_gas"@, row, None),
        }
    &&& schema.has("chain_id"@) ==> shows_u64(columns, "chain_id"@, row, Some(chain_id as nat))
}

/// A row that is the transaction's shows in the table.
pub(crate) proof fn lemma_transaction_row_shows(
    t: Seq<Column>,
    rows: TransactionRows,
    schema: Table,
    chain_id: u64,
    n: nat,
    i: int,
    tx: Transaction,
    gas_used: Option<u32>,
)
    requires
        holds_transaction_rows(t, rows, schema, chain_id, n),
        transaction_rows_aligned(rows, schema, n),
        0 <= i < n,
        transaction_row_at(rows, i, tx, schema, gas_used),
        transaction_fits(tx, schema, gas_used),
    ensures
        tells_transaction(t, schema, chain_id, i, tx, gas_used),
{
    if schema.has("_stream_type"@) && schema.has("block_number"@) {
        let v = present(repeated("tx"@, rows.block_number.len()));
        assert(v[i] == Some("tx"@));
        lemma_shows_text(t, "_stream_type"@, v, i);
    }
    assert(schema.has("block_number"@) ==> match tx.block_number {
            Some(number) => shows_u64(t, "block_number"@, i, Some(number as nat)),
            None => shows_u64(t, "block_number"@, i, None),
        }) by {
        if schema.has("block_number"@) {
            match tx.block_number {
                Some(number) => lemma_shows_u64(
                    t,
                    "block_number"@,
                    rows.block_number,
                    i,
                    Some(number as nat),
                ),
                None => lemma_shows_u64(t, "block_number"@, rows.block_number, i, None),
            }
        }
    }
    assert(schema.has("transaction_index"@) ==> match tx.transaction_index {
            Some(number) => shows_u64(t, "transaction_index"@, i, Some(number as nat)),
            None => shows_u64(t, "transaction_index"@, i, None),
        }) by {
        if schema.has("transaction_index"@) {
            match tx.transaction_index {
                Some(number) => lemma_shows_u64(
                    t,
                    "transaction_index"@,
                    rows.transaction_index,
                    i,
                    Some(number as nat),
                ),
                None => lemma_shows_u64(t, "transaction_index"@, rows.transaction_index, i, None),
            }
        }
    }
    assert(schema.has("transaction_hash"@) ==> shows_bytes(
        t,
        schema,
        "transaction_hash"@,
        i,
        Some(tx.hash@),
    )) by {
        if schema.has("transaction_hash"@) {
            lemma_shows_bytes(t, schema, "transaction_hash"@, present(rows.transaction_hash), i);
        }
    }
    assert(schema.has("nonce"@) ==> shows_u64(t, "nonce"@, i, Some(tx.nonce.value()))) by {
        if schema.has("nonce"@) {
            lemma_shows_u64(t, "nonce"@, present(rows.nonce), i, Some(tx.nonce.value()));
        }
    }
    assert(schema.has("from_address"@) ==> shows_bytes(
        t,
        schema,
        "from_address"@,
        i,
        Some(tx.from@),
    )) by {
        if schema.has("from_address"@) {
            lemma_shows_bytes(t, schema, "from_address"@, present(rows.from_address), i);
        }
    }
    assert(schema.has("to_address"@) ==> match tx.to {
            Some(bytes) => shows_bytes(t, schema, "to_address"@, i, Some(bytes@)),
            None => shows_bytes(t, schema, "to_address"@, i, None),
        }) by {
        if schema.has("to_address"@) {
            lemma_shows_bytes(t, schema, "to_address"@, rows.to_address, i);
        }
    }
    assert(schema.has("value"@) ==> shows_decimal(t, "value"@, i, tx.value.value())) by {
        if schema.has("value"@) {
            let v = present(rows.value);
            law_decimal_reads_back(tx.value.value());
            assert(v[i] == Some(rows.value[i]));
            lemma_shows_text(t, "value"@, v, i);
        }
    }
    assert(schema.has("input"@) ==> shows_bytes(t, schema, "input"@, i, Some(tx.input@))) by {
        if schema.has("input"@) {
            lemma_shows_bytes(t, schema, "input"@, present(rows.input), i);
        }
    }
    assert(schema.has("gas_limit"@) ==> shows_u32(t, "gas_limit"@, i, Some(tx.gas.value()))) by {
        if schema.has("gas_limit"@) {
            lemma_shows_u32(t, "gas_limit"@, present(rows.gas_limit), i, Some(tx.gas.value()));
        }
    }
    assert(schema.has("gas_used"@) ==> shows_u32(t, "gas_used"@, i, Some(gas_used->0 as nat))) by {
        if schema.has("gas_used"@) {
            lemma_shows_u32(t, "gas_used"@, present(rows.gas_used), i, Some(gas_used->0 as nat));
        }
    }
    assert(schema.has("gas_price"@) ==> match tx.gas_price {
            Some(number) => shows_u64(t, "gas_price"@, i, Some(number.value())),
            None => shows_u64(t, "gas_price"@, i, None),
        }) by {
        if schema.has("gas_price"@) {
            match tx.gas_price {
                Some(number) => lemma_shows_u64(
                    t,
                    "gas_price"@,
                    rows.gas_price,
                    i,
                    Some(number.value()),
                ),
                None => lemma_shows_u64(t, "gas_price"@, rows.gas_price, i, None),
            }
        }
    }
    assert(schema.has("transaction_type"@) ==> match tx.transaction_type {
            Some(number) => shows_u32(t, "transaction_type"@, i, Some(number as nat)),
            None => shows_u32(t, "transaction_type"@, i, None),
        }) by {
        if schema.has("transaction_type"@) {
            match tx.transaction_type {
                Some(number) => lemma_shows_u32(
                    t,
                    "transaction_type"@,
                    rows.transaction_type,
                    i,
                    Some(number as nat),
                ),
                None => lemma_shows_u32(t, "transaction_type"@, rows.transaction_type, i, None),
            }
        }
    }
    assert(schema.has("max_priority_fee_per_gas"@) ==> match tx.max_priority_fee_per_gas {
            Some(number) => shows_u64(t, "max_priority_fee_per_gas"@, i, Some(number.value())),
            None => shows_u64(t, "max_priority_fee_per_gas"@, i, None),
        }) by {
        if schema.has("max_priority_fee_per_gas"@) {
            match tx.max_priority_fee_per_gas {
                Some(number) => lemma_shows_u64(
                    t,
                    "max_priority_fee_per_gas"@,
                    rows.max_priority_fee_per_gas,
                    i,
                    Some(number.value()),
                ),
                None => lemma_shows_u64(
                    t,
                    "max_priority_fee_per_gas"@,
                    rows.max_priority_fee_per_gas,
                    i,
                    None,
                ),
            }
        }
    }
    assert(schema.has("max_fee_per_gas"@) ==> match tx.max_fee_per_gas {
            Some(number) => shows_u64(t, "max_fee_per_gas"@, i, Some(number.value())),
            None => shows_u64(t, "max_fee_per_gas"@, i, None),
        }) by {
        if schema.has("max_fee_per_gas"@) {
            match tx.max_fee_per_gas {
                Some(number) => lemma_shows_u64(
                    t,
                    "max_fee_per_gas"@,
                    rows.max_fee_per_gas,
                    i,
                    Some(number.value()),
                ),
                None => lemma_shows_u64(t, "max_fee_per_gas"@, rows.max_fee_per_gas, i, None),
            }
        }
    }
    if schema.has("chain_id"@) {
        let v = present(repeated(chain_id, n));
        assert(v[i] == Some(chain_id));
        lemma_shows_u64(t, "chain_id"@, v, i, Some(chain_id as nat));
    }
}

/// A transaction adds its own values to the wanted columns, leaves what they held, and leaves the
/// other columns as they were.
pub proof fn law_transaction_row_holds_the_transaction(
    rows: TransactionRows,
    tx: Transaction,
    schema: Table,
    gas_used: Option<u32>,
)
    requires
        transaction_fits(tx, schema, gas_used),
    ensures
        ({
            let column = transaction_row(rows, tx, schema, gas_used).block_number;
            if schema.has("block_number"@) {
                &&& column.len() == rows.block_number.len() + 1
                &&& column.drop_last() == rows.block_number
                &&& match tx.block_number {
                    Some(number) => column.last() is Some && column.last()->0 == number,
                    None => column.last() is None,
                }
            } else {
                column == rows.block_number
            }
        }),
        ({
            let column = transaction_row(rows, tx, schema, gas_used).transaction_index;
            if schema.has("transaction_index"@) {
                &&& column.len() == rows.transaction_index.len() + 1
                &&& column.drop_last() == rows.transaction_index
                &&& match tx.transaction_index {
                    Some(number) => column.last() is Some && column.last()->0 == number,
                    None => column.last() is None,
                }
            } else {
                column == rows.transaction_index
            }
        }),
        ({
            let column = transaction_row(rows, tx, schema, gas_used).transaction_hash;
            if schema.has("transaction_hash"@) {
                &&& column.len() == rows.transaction_hash.len() + 1
                &&& column.drop_last() == rows.transaction_hash
                &&& column.last() == tx.hash@
            } else {
                column == rows.transaction_hash
            }
        }),
        ({
            let column = transaction_row(rows, tx, schema, gas_used).nonce;
            if schema.has("nonce"@) {
                &&& column.len() == rows.nonce.len() + 1
                &&& column.drop_last() == rows.nonce
                &&& column.last() == tx.nonce.value()
            } else {
                column == rows.nonce
            }
        }),
        ({
            let column = transaction_row(rows, tx, schema, gas_used).from_address;
            if schema.has("from_address"@) {
                &&& column.len() == rows.from_address.len() + 1
                &&& column.drop_last() == rows.from_address
                &&& column.last() == tx.from@
            } else {
                column == rows.from_address
            }
        }),
        ({
            let column = transaction_row(rows, tx, schema, gas_used).to_address;
            if schema.has("to_address"@) {
                &&& column.len() == rows.to_address.len() + 1
                &&& column.drop_last() == rows.to_address
                &&& match tx.to {
                    Some(bytes) => column.last() == Some(bytes@),
                    None => column.last() is None,
                }
            } else {
                column == rows.to_address
            }
        }),
        ({
            let column = transaction_row(rows, tx, schema, gas_used).value;
            if schema.has("value"@) {
                &&& column.len() == rows.value.len() + 1
                &&& column.drop_last() == rows.value
                &&& spells_number(column.last(), tx.value.value())
            } else {
                column == rows.value
            }
        }),
        ({
            let column = transaction_row(rows, tx, schema, gas_used).input;
            if schema.has("input"@) {
                &&& column.len() == rows.input.len() + 1
                &&& column.drop_last() == rows.input
                &&& column.last() == tx.input@
            } else {
                column == rows.input
            }
        }),
        ({
            let column = transaction_row(rows, tx, schema, gas_used).gas_limit;
            if schema.has("gas_limit"@) {
                &&& column.len() == rows.gas_limit.len() + 1
                &&& column.drop_last() == rows.gas_limit
                &&& column.last() == tx.gas.value()
            } else {
                column == rows.gas_limit
            }
        }),
        ({
            let column = transaction_row(rows, tx, schema, gas_used).gas_used;
            if schema.has("gas_used"@) {
                &&& column.len() == rows.gas_used.len() + 1
                &&& column.drop_last() == rows.gas_used
                &&& column.last() == gas_used->0
            } else {
                column == rows.gas_used
            }
        }),
        ({
            let column = transaction_row(rows, tx, schema, gas_used).gas_price;
            if schema.has("gas_price"@) {
                &&& column.len() == rows.gas_price.len() + 1
                &&& column.drop_last() == rows.gas_price
                &&& match tx.gas_price {
                    Some(number) => column.last() is Some && column.last()->0 == number.value(),
                    None => column.last() is None,
                }
            } else {
                column == rows.gas_price
            }
        }),
        ({
            let column = transaction_row(rows, tx, schema, gas_used).transaction_type;
            if schema.has("transaction_type"@) {
                &&& column.len() == rows.transaction_type.len() + 1
                &&& column.drop_last() == rows.transaction_type
                &&& match tx.transaction_type {
                    Some(number) => column.last() is Some && column.last()->0 == number,
                    None => column.last() is None,
                }
            } else {
                column == rows.transaction_type
            }
        }),
        ({
            let column = transaction_row(rows, tx, schema, gas_used).max_priority_fee_per_gas;
            if schema.has("max_priority_fee_per_gas"@) {
                &&& column.len() == rows.max_priority_fee_per_gas.len() + 1
                &&& column.drop_last() == rows.max_priority_fee_per_gas
                &&& match tx.max_priority_fee_per_gas {
                    Some(number) => column.last() is Some && column.last()->0 == number.value(),
                    None => column.last() is None,
                }
            } else {
                column == rows.max_priority_fee_per_gas
            }
        }),
        ({
            let column = transaction_row(rows, tx, schema, gas_used).max_fee_per_gas;
            if schema.has("max_fee_per_gas"@) {
                &&& column.len() == rows.max_fee_per_gas.len() + 1
                &&& column.drop_last() == rows.max_fee_per_gas
                &&& match tx.max_fee_per_gas {
                    Some(number) => column.last() is Some && column.last()->0 == number.value(),
                    None => column.last() is None,
                }
            } else {
                column == rows.max_fee_per_gas
            }
        }),
{
    let after = transaction_row(rows, tx, schema, gas_used);
    assert(schema.has("block_number"@) ==> {
        &&& after.block_number.len() == rows.block_number.len() + 1
        &&& after.block_number.drop_last() == rows.block_number
        &&& match tx.block_number {
            Some(number) => after.block_number.last() is Some
                && after.block_number.last()->0 == number,
            None => after.block_number.last() is None,
        }
    }) by {
        assert(schema.has("block_number"@)
            ==> after.block_number.drop_last() =~= rows.block_number);
    }
    assert(schema.has("transaction_index"@) ==> {
        &&& after.transaction_index.len() == rows.transaction_index.len() + 1
        &&& after.transaction_index.drop_last() == rows.transaction_index
        &&& match tx.transaction_index {
            Some(number) => after.transaction_index.last() is Some
                && after.transaction_index.last()->0 == number,
            None => after.transaction_index.last() is None,
        }
    }) by {
        assert(schema.has("transaction_index"@)
            ==> after.transaction_index.drop_last() =~= rows.transaction_index);
    }
    assert(schema.has("transaction_hash"@) ==> {
        &&& after.transaction_hash.len() == rows.transaction_hash.len() + 1
        &&& after.transaction_hash.drop_last() == rows.transaction_hash
        &&& after.transaction_hash.last() == tx.hash@
    }) by {
        assert(schema.has("transaction_hash"@)
            ==> after.transaction_hash.drop_last() =~= rows.transaction_hash);
    }
    assert(schema.has("nonce"@) ==> {
        &&& after.nonce.len() == rows.nonce.len() + 1
        &&& after.nonce.drop_last() == rows.nonce
        &&& after.nonce.last() == tx.nonce.value()
    }) by {
        assert(schema.has("nonce"@) ==> after.nonce.drop_last() =~= rows.nonce);
    }
    assert(schema.has("from_address"@) ==> {
        &&& after.from_address.len() == rows.from_address.len() + 1
        &&& after.from_address.drop_last() == rows.from_address
        &&& after.from_address.last() == tx.from@
    }) by {
        assert(schema.has("from_address"@)
            ==> after.from_address.drop_last() =~= rows.from_address);
    }
    assert(schema.has("to_address"@) ==> {
        &&& after.to_address.len() == rows.to_address.len() + 1
        &&& after.to_address.drop_last() == rows.to_address
        &&& match tx.to {
            Some(bytes) => after.to_address.last() == Some(bytes@),
            None => after.to_address.last() is None,
        }
    }) by {
        assert(schema.has("to_address"@) ==> after.to_address.drop_last() =~= rows.to_address);
    }
    assert(schema.has("value"@) ==> {
        &&& after.value.len() == rows.value.len() + 1
        &&& after.value.drop_last() == rows.value
        &&& spells_number(after.value.last(), tx.value.value())
    }) by {
        law_decimal_reads_back(tx.value.value());
        assert(schema.has("value"@) ==> after.value.drop_last() =~= rows.value);
    }
    assert(schema.has("input"@) ==> {
        &&& after.input.len() == rows.input.len() + 1
        &&& after.input.drop_last() == rows.input
        &&& after.input.last() == tx.input@
    }) by {
        assert(schema.has("input"@) ==> after.input.drop_last() =~= rows.input);
    }
    assert(schema.has("gas_limit"@) ==> {
        &&& after.gas_limit.len() == rows.gas_limit.len() + 1
        &&& after.gas_limit.drop_last() == rows.gas_limit
        &&& after.gas_limit.last() == tx.gas.value()
    }) by {
        assert(schema.has("gas_limit"@) ==> after.gas_limit.drop_last() =~= rows.gas_limit);
    }
    assert(schema.has("gas_used"@) ==> {
        &&& after.gas_used.len() == rows.gas_used.len() + 1
        &&& after.gas_used.drop_last() == rows.gas_used
        &&& after.gas_used.last() == gas_used->0
    }) by {
        assert(schema.has("gas_used"@) ==> after.gas_used.drop_last() =~= rows.gas_used);
    }
    assert(schema.has("gas_price"@) ==> {
        &&& after.gas_price.len() == rows.gas_price.len() + 1
        &&& after.gas_price.drop_last() == rows.gas_price
        &&& match tx.gas_price {
            Some(number) => after.gas_price.last() is Some
                && after.gas_price.last()->0 == number.value(),
            None => after.gas_price.last() is None,
        }
    }) by {
        assert(schema.has("gas_price"@) ==> after.gas_price.drop_last() =~= rows.gas_price);
    }
    assert(schema.has("transaction_type"@) ==> {
        &&& after.transaction_type.len() == rows.transaction_type.len() + 1
        &&& after.transaction_type.drop_last() == rows.transaction_type
        &&& match tx.transaction_type {
            Some(number) => after.transaction_type.last() is Some
                && after.transaction_type.last()->0 == number,
            None => after.transaction_type.last() is None,
        }
    }) by {
        assert(schema.has("transaction_type"@)
            ==> after.transaction_type.drop_last() =~= rows.transaction_type);
    }
    assert(schema.has("max_priority_fee_per_gas"@) ==> {
        &&& after.max_priority_fee_per_gas.len() == rows.max_priority_fee_per_gas.len() + 1
        &&& after.max_priority_fee_per_gas.drop_last() == rows.max_priority_fee_per_gas
        &&& match tx.max_priority_fee_per_gas {
            Some(number) => after.max_priority_fee_per_gas.last() is Some
                && after.max_priority_fee_per_gas.last()->0 == number.value(),
            None => after.max_priority_fee_per_gas.last() is None,
        }
    }) by {
        assert(schema.has("max_priority_fee_per_gas"@)
            ==> after.max_priority_fee_per_gas.drop_last() =~= rows.max_priority_fee_per_gas);
    }
    assert(schema.has("max_fee_per_gas"@) ==> {
        &&& after.max_fee_per_gas.len() == rows.max_fee_per_gas.len() + 1
        &&& after.max_fee_per_gas.drop_last() == rows.max_fee_per_gas
        &&& match tx.max_fee_per_gas {
            Some(number) => after.max_fee_per_gas.last() is Some
                && after.max_fee_per_gas.last()->0 == number.value(),
            None => after.max_fee_per_gas.last() is None,
        }
    }) by {
        assert(schema.has("max_fee_per_gas"@)
            ==> after.max_fee_per_gas.drop_last() =~= rows.max_fee_per_gas);
    }
}

/// The columns hold one of this name whose values are of the kind that the type says.
pub open spec fn kind_agrees(
    columns: Seq<Column>,
    name: Seq<char>,
    column_type: ColumnType,
) -> bool {
    exists|values: Values| #[trigger]
        holds(columns, name, values) && match column_type {
            ColumnType::UInt32 => values is UInt32,
            ColumnType::UInt64 => values is UInt64,
            ColumnType::Binary => values is Bytes,
            ColumnType::String | ColumnType::Hex => values is Text,
        }
}

/// Each column of blocks that is wanted with the type that the dataset gives it holds values of
/// that type. The total difficulty alone is held as bytes though it is listed as text.
pub proof fn law_block_columns_have_their_types(
    rows: BlockRows,
    schema: Table,
    chain_id: u64,
    n: nat,
    c: int,
)
    requires
        0 <= c < block_column_types().len(),
        block_column_types()[c].0 != "total_difficulty"@,
        schema.type_of(block_column_types()[c].0) == Some(block_column_types()[c].1),
    ensures
        kind_agrees(
            block_table(rows, schema, chain_id, n),
            block_column_types()[c].0,
            block_column_types()[c].1,
        ),
{
    let (name, column_type) = block_column_types()[c];
    let t = block_table(rows, schema, chain_id, n);
    lemma_block_table_holds(rows, schema, chain_id, n);
    let typed = |b: Seq<Option<Seq<u8>>>| encoded(schema.type_of(name), b);
    let values = if c == 0 {
        Values::Text(present(repeated("block"@, rows.hash.len())))
    } else if c == 1 {
        typed(present(rows.hash))
    } else if c == 2 {
        typed(present(rows.parent_hash))
    } else if c == 3 {
        typed(present(rows.author))
    } else if c == 4 {
        typed(present(rows.state_root))
    } else if c == 5 {
        typed(present(rows.transactions_root))
    } else if c == 6 {
        typed(present(rows.receipts_root))
    } else if c == 7 {
        Values::UInt32(present(rows.number))
    } else if c == 8 {
        Values::UInt32(present(rows.gas_used))
    } else if c == 9 {
        typed(present(rows.extra_data))
    } else if c == 10 {
        typed(rows.logs_bloom)
    } else if c == 11 {
        Values::UInt32(present(rows.timestamp))
    } else if c == 13 {
        Values::UInt32(rows.size)
    } else if c == 14 {
        Values::UInt64(rows.base_fee_per_gas)
    } else {
        Values::UInt64(present(repeated(chain_id, n)))
    };
    assert(holds(t, name, values));
}

} // verus!
