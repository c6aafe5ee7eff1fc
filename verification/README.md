# cryo_freeze

Collects Ethereum blocks and their transactions into column-oriented tables, names the files that
these are stored in, and names the blobs that the files are uploaded to.

`src/` is the library, verified with Verus. It works on values that are at hand and does no I/O:

- `errors`: the errors of collecting, parsing, chunking and storing.
- `schema`, `records`, `numbers`, `text`, `date`: which columns are wanted, what a node tells, and
  how numbers, bytes and dates are written.
- `frame`, `columns`: what a `polars` frame holds, and how finished columns become one.
- `block_columns`, `transaction_columns`, `gather`: how blocks and transactions fill rows, and how a
  stream of them becomes tables.
- `blocks`, `blocks_and_transactions`: the two datasets, what is asked of the node for them and how
  its replies are judged.
- `paths`: what a path holds as text, and what `std` makes of it.
- `chunks`, `upload`: the files that chunks are stored in, and where these go in a bucket.

Functions named `law_..` state what holds of several functions together.

`app/` is ordinary Rust around the library: requests to the node, error messages and uploading.
`tests/` runs the library with the real `polars`, `ethers`, `chrono` and `tokio`.
