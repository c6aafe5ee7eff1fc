//! Schemas: which columns a table holds and how it is sorted.
use vstd::prelude::*;
use crate::text::texts;

verus! {

/// Kinds of data that can be collected together with blocks.
#[derive(Clone, Copy, Debug, PartialEq, Eq, Structural)]
pub enum Datatype {
    /// Block headers.
    Blocks,
    /// Transactions.
    Transactions,
}

/// Type of a column.
#[derive(Clone, Copy, Debug, PartialEq, Eq, Structural)]
pub enum ColumnType {
    /// Text.
    String,
    /// Raw bytes.
    Binary,
    /// Bytes, stored as hexadecimal text.
    Hex,
    /// Unsigned numbers of 32 bits.
    UInt32,
    /// Unsigned numbers of 64 bits.
    UInt64,
}

/// Schema of a table.
#[derive(Debug)]
pub struct Table {
    /// Kind of data that the table holds.
    pub datatype: Datatype,
    /// Columns by name, each with its type.
    pub columns: Vec<(String, ColumnType)>,
    /// Columns that the rows are sorted by, the most significant first.
    pub sort_columns: Option<Vec<String>>,
}

impl Table {
    /// The table has a column of this name.
    pub open spec fn has(self, column: Seq<char>) -> bool {
        exists|i: int| 0 <= i < self.columns@.len() && (#[trigger] self.columns@[i]).0@ == column
    }

    /// Column `i` is the first of its name, and has this type.
    pub open spec fn types(self, column: Seq<char>, i: int) -> bool {
        &&& 0 <= i < self.columns@.len()
        &&& self.columns@[i].0@ == column
        &&& forall|j: int| 0 <= j < i ==> (#[trigger] self.columns@[j]).0@ != column
    }

    /// The type of the column of this name, where there is one.
    pub open spec fn type_of(self, column: Seq<char>) -> Option<ColumnType> {
        if self.has(column) {
            let i = choose|i: int| self.types(column, i);
            Some(self.columns@[i].1)
        } else {
            None
        }
    }

    /// The names of the columns that the rows are sorted by.
    pub open spec fn sort_key(self) -> Option<Seq<Seq<char>>> {
        match self.sort_columns {
            Some(names) => Some(texts(names@)),
            None => None,
        }
    }

    /// Tells the type of a column.
    pub fn column_type(&self, column: &str) -> (r: Option<ColumnType>)
        ensures
            r == self.type_of(column@),
            match r {
                Some(column_type) => exists|i: int|
                    {
                        &&& 0 <= i < self.columns@.len()
                        &&& (#[trigger] self.columns@[i]).0@ == column@
                        &&& self.columns@[i].1 == column_type
                        &&& forall|j: int|
                            0 <= j < i ==> (#[trigger] self.columns@[j]).0@ != column@
                    },
                None => forall|i: int|
                    0 <= i < self.columns@.len() ==> (#[trigger] self.columns@[i]).0@ != column@,
            },
    {
        let name: String = column.to_owned();
        for i in 0..self.columns.len()
            invariant
                name@ == column@,
                forall|j: int| 0 <= j < i ==> (#[trigger] self.columns@[j]).0@ != column@,
        {
            if self.columns[i].0 == name {
                proof {
                    assert(self.types(column@, i as int));
                    let k = choose|k: int| self.types(column@, k);
                    assert(k == i) by {
                        if k < i {
                            assert(self.columns@[k].0@ != column@);
                        }
                    }
                }
                return Some(self.columns[i].1);
            }
        }
        None
    }

    /// Tells whether the table has a column.
    pub fn has_column(&self, column: &str) -> (r: bool)
        ensures
            r == self.has(column@),
            r == exists|i: int|
                0 <= i < self.columns@.len() && (#[trigger] self.columns@[i]).0@ == column@,
    {
        self.column_type(column).is_some()
    }
}

impl PerDatatype<Table> {
    /// Schema of the table of blocks.
    pub open spec fn blocks_schema(&self) -> Option<&Table> {
        match self.blocks {
            Some(schema) => Some(&schema),
            None => None,
        }
    }

    /// Schema of the table of transactions.
    pub open spec fn transactions_schema(&self) -> Option<&Table> {
        match self.transactions {
            Some(schema) => Some(&schema),
            None => None,
        }
    }
}

/// One value for each kind of data, or none.
#[derive(Debug)]
pub struct PerDatatype<T> {
    /// Value for blocks.
    pub blocks: Option<T>,
    /// Value for transactions.
    pub transactions: Option<T>,
}

impl<T> View for PerDatatype<T> {
    type V = Map<Datatype, T>;

    open spec fn view(&self) -> Map<Datatype, T> {
        Map::new(
            |d: Datatype|
                match d {
                    Datatype::Blocks => self.blocks is Some,
                    Datatype::Transactions => self.transactions is Some,
                },
            |d: Datatype|
                match d {
                    Datatype::Blocks => self.blocks->0,
                    Datatype::Transactions => self.transactions->0,
                },
        )
    }
}

impl<T> PerDatatype<T> {
    /// Holds no value.
    pub fn new() -> (r: Self)
        ensures
            r@ == Map::<Datatype, T>::empty(),
    {
        let none = PerDatatype { blocks: None, transactions: None };
        assert(none@ =~= Map::<Datatype, T>::empty());
        none
    }

    /// Looks up the value for a kind of data.
    pub fn get(&self, datatype: &Datatype) -> (r: Option<&T>)
        ensures
            r == (if self@.contains_key(*datatype) {
                Some(&self@[*datatype])
            } else {
                None
            }),
    {
        match datatype {
            Datatype::Blocks => self.blocks.as_ref(),
            Datatype::Transactions => self.transactions.as_ref(),
        }
    }

    /// Sets the value for a kind of data.
    pub fn insert(&mut self, datatype: Datatype, value: T)
        ensures
            final(self)@ == old(self)@.insert(datatype, value),
    {
        match datatype {
            Datatype::Blocks => {
                self.blocks = Some(value);
            },
            Datatype::Transactions => {
                self.transactions = Some(value);
            },
        }
        assert(self@ =~= old(self)@.insert(datatype, value));
    }
}

/// A schema has the columns that it lists and no others, and each of them has the type that is
/// listed first for its name.
pub proof fn law_schema_has_what_it_lists(schema: Table, column: Seq<char>)
    ensures
        schema.has(column) <==> exists|i: int|
            0 <= i < schema.columns@.len() && (#[trigger] schema.columns@[i]).0@ == column,
        schema.type_of(column) is Some <==> schema.has(column),
        forall|i: int|
            0 <= i < schema.columns@.len() && (#[trigger] schema.columns@[i]).0@ == column && (
            forall|j: int| 0 <= j < i ==> (#[trigger] schema.columns@[j]).0@ != column)
                ==> schema.type_of(column) == Some(schema.columns@[i].1),
{
    assert forall|i: int|
        0 <= i < schema.columns@.len() && (#[trigger] schema.columns@[i]).0@ == column && (
        forall|j: int|
            0 <= j < i ==> (#[trigger] schema.columns@[j]).0@ != column) implies schema.type_of(
        column,
    ) == Some(schema.columns@[i].1) by {
        assert(schema.types(column, i));
        let k = choose|k: int| schema.types(column, k);
        assert(k == i) by {
            if k < i {
                assert(schema.columns@[k].0@ != column);
            }
            if i < k {
                assert(schema.columns@[i].0@ != column);
            }
        }
    }
}

/// A table is sorted by the columns that its schema names, in that order.
pub proof fn law_sort_key_is_as_named(schema: Table)
    ensures
        schema.sort_key() is Some <==> schema.sort_columns is Some,
        schema.sort_columns is Some ==> {
            &&& schema.sort_key()->0.len() == schema.sort_columns->0@.len()
            &&& forall|k: int|
                0 <= k < schema.sort_columns->0@.len() ==> #[trigger] schema.sort_key()->0[k]
                    == schema.sort_columns->0@[k]@
        },
{
}

/// What is held for each kind of data is held under that kind and no other.
pub proof fn law_values_are_held_by_kind<T>(values: PerDatatype<T>)
    ensures
        values@.contains_key(Datatype::Blocks) <==> values.blocks is Some,
        values@.contains_key(Datatype::Transactions) <==> values.transactions is Some,
        values.blocks is Some ==> values@[Datatype::Blocks] == values.blocks->0,
        values.transactions is Some ==> values@[Datatype::Transactions] == values.transactions->0,
{
}

} // verus!
