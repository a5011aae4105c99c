use std::sync::Arc;
use vstd::prelude::*;

use crate::datum_format::ColumnType;
use crate::error::FormatError;

verus! {

/// The values of one column. Numeric cells hold the text a number renderer
/// produced for them; the library fits that text to the column's width.
#[derive(Debug)]
pub enum ColumnData {
    /// binary column
    BinaryColumn(Vec<Vec<u8>>),
    /// string column
    StringColumn(Vec<String>),
    /// bool column
    BoolColumn(Vec<bool>),
    /// integer column, as rendered numeric text
    IntegerColumn(Vec<String>),
    /// float column, as rendered numeric text
    FloatColumn(Vec<String>),
    /// binary option column
    BinaryOptionColumn(Vec<Option<Vec<u8>>>),
    /// string option column
    StringOptionColumn(Vec<Option<String>>),
    /// bool option column
    BoolOptionColumn(Vec<Option<bool>>),
    /// integer option column, as rendered numeric text
    IntegerOptionColumn(Vec<Option<String>>),
    /// float option column, as rendered numeric text
    FloatOptionColumn(Vec<Option<String>>),
}

impl ColumnData {
    /// The number of cells.
    pub open spec fn spec_len(&self) -> nat {
        match self {
            ColumnData::BinaryColumn(v) => v@.len(),
            ColumnData::StringColumn(v) => v@.len(),
            ColumnData::BoolColumn(v) => v@.len(),
            ColumnData::IntegerColumn(v) => v@.len(),
            ColumnData::FloatColumn(v) => v@.len(),
            ColumnData::BinaryOptionColumn(v) => v@.len(),
            ColumnData::StringOptionColumn(v) => v@.len(),
            ColumnData::BoolOptionColumn(v) => v@.len(),
            ColumnData::IntegerOptionColumn(v) => v@.len(),
            ColumnData::FloatOptionColumn(v) => v@.len(),
        }
    }

    /// The kind of the values.
    pub open spec fn spec_column_type(&self) -> ColumnType {
        match self {
            ColumnData::BinaryColumn(_) => ColumnType::Binary,
            ColumnData::StringColumn(_) => ColumnType::String,
            ColumnData::BoolColumn(_) => ColumnType::Bool,
            ColumnData::IntegerColumn(_) => ColumnType::Integer,
            ColumnData::FloatColumn(_) => ColumnType::Float,
            ColumnData::BinaryOptionColumn(_) => ColumnType::Binary,
            ColumnData::StringOptionColumn(_) => ColumnType::String,
            ColumnData::BoolOptionColumn(_) => ColumnType::Bool,
            ColumnData::IntegerOptionColumn(_) => ColumnType::Integer,
            ColumnData::FloatOptionColumn(_) => ColumnType::Float,
        }
    }

    /// len of column data
    pub fn len(&self) -> (r: usize)
        ensures
            r == self.spec_len(),
    {
        match self {
            ColumnData::BinaryColumn(value) => value.len(),
            ColumnData::StringColumn(value) => value.len(),
            ColumnData::BoolColumn(value) => value.len(),
            ColumnData::IntegerColumn(value) => value.len(),
            ColumnData::FloatColumn(value) => value.len(),
            ColumnData::BinaryOptionColumn(value) => value.len(),
            ColumnData::StringOptionColumn(value) => value.len(),
            ColumnData::BoolOptionColumn(value) => value.len(),
            ColumnData::IntegerOptionColumn(value) => value.len(),
            ColumnData::FloatOptionColumn(value) => value.len(),
        }
    }

    /// is_empty() of column data
    pub fn is_empty(&self) -> (r: bool)
        ensures
            r == (self.spec_len() == 0),
    {
        self.len() == 0
    }

    /// column type
    pub fn column_type(&self) -> (r: ColumnType)
        ensures
            r == self.spec_column_type(),
    {
        match self {
            ColumnData::BinaryColumn(_) => ColumnType::Binary,
            ColumnData::StringColumn(_) => ColumnType::String,
            ColumnData::BoolColumn(_) => ColumnType::Bool,
            ColumnData::IntegerColumn(_) => ColumnType::Integer,
            ColumnData::FloatColumn(_) => ColumnType::Float,
            ColumnData::BinaryOptionColumn(_) => ColumnType::Binary,
            ColumnData::StringOptionColumn(_) => ColumnType::String,
            ColumnData::BoolOptionColumn(_) => ColumnType::Bool,
            ColumnData::IntegerOptionColumn(_) => ColumnType::Integer,
            ColumnData::FloatOptionColumn(_) => ColumnType::Float,
        }
    }
}

impl From<Vec<Vec<u8>>> for ColumnData {
    fn from(value: Vec<Vec<u8>>) -> ColumnData {
        ColumnData::BinaryColumn(value)
    }
}

impl vstd::std_specs::convert::FromSpecImpl<Vec<Vec<u8>>> for ColumnData {
    open spec fn obeys_from_spec() -> bool {
        true
    }

    open spec fn from_spec(value: Vec<Vec<u8>>) -> ColumnData {
        ColumnData::BinaryColumn(value)
    }
}

impl From<Vec<Option<Vec<u8>>>> for ColumnData {
    fn from(value: Vec<Option<Vec<u8>>>) -> ColumnData {
        ColumnData::BinaryOptionColumn(value)
    }
}

impl vstd::std_specs::convert::FromSpecImpl<Vec<Option<Vec<u8>>>> for ColumnData {
    open spec fn obeys_from_spec() -> bool {
        true
    }

    open spec fn from_spec(value: Vec<Option<Vec<u8>>>) -> ColumnData {
        ColumnData::BinaryOptionColumn(value)
    }
}

impl From<Vec<String>> for ColumnData {
    fn from(value: Vec<String>) -> ColumnData {
        ColumnData::StringColumn(value)
    }
}

impl vstd::std_specs::convert::FromSpecImpl<Vec<String>> for ColumnData {
    open spec fn obeys_from_spec() -> bool {
        true
    }

    open spec fn from_spec(value: Vec<String>) -> ColumnData {
        ColumnData::StringColumn(value)
    }
}

impl From<Vec<Option<String>>> for ColumnData {
    fn from(value: Vec<Option<String>>) -> ColumnData {
        ColumnData::StringOptionColumn(value)
    }
}

impl vstd::std_specs::convert::FromSpecImpl<Vec<Option<String>>> for ColumnData {
    open spec fn obeys_from_spec() -> bool {
        true
    }

    open spec fn from_spec(value: Vec<Option<String>>) -> ColumnData {
        ColumnData::StringOptionColumn(value)
    }
}

impl From<Vec<bool>> for ColumnData {
    fn from(value: Vec<bool>) -> ColumnData {
        ColumnData::BoolColumn(value)
    }
}

impl vstd::std_specs::convert::FromSpecImpl<Vec<bool>> for ColumnData {
    open spec fn obeys_from_spec() -> bool {
        true
    }

    open spec fn from_spec(value: Vec<bool>) -> ColumnData {
        ColumnData::BoolColumn(value)
    }
}

impl From<Vec<Option<bool>>> for ColumnData {
    fn from(value: Vec<Option<bool>>) -> ColumnData {
        ColumnData::BoolOptionColumn(value)
    }
}

impl vstd::std_specs::convert::FromSpecImpl<Vec<Option<bool>>> for ColumnData {
    open spec fn obeys_from_spec() -> bool {
        true
    }

    open spec fn from_spec(value: Vec<Option<bool>>) -> ColumnData {
        ColumnData::BoolOptionColumn(value)
    }
}

/// column for printing
#[derive(Debug)]
pub struct Column {
    /// name of column
    pub name: String,
    /// data of column, shared between renders
    pub data: Arc<ColumnData>,
}

impl Column {
    fn new(name: String, data: ColumnData) -> (r: Column)
        ensures
            r.name == name,
            *r.data == data,
    {
        Column { name, data: Arc::new(data) }
    }
}

/// Table for printing: named columns, all of one length.
#[derive(Debug)]
pub struct Table {
    /// number of rows in table, set by the first column
    pub n_rows: Option<usize>,
    /// columns
    pub columns: Vec<Column>,
}

impl Table {
    /// There is a row count exactly when there is a column, and every column
    /// has that many cells.
    pub open spec fn wf(&self) -> bool {
        &&& (self.n_rows is None <==> self.columns@.len() == 0)
        &&& forall|i: int|
            0 <= i < self.columns@.len() ==> #[trigger] self.columns@[i].data.spec_len()
                == self.n_rows->0
    }

    /// Whether the table is well formed.
    pub fn is_consistent(&self) -> (r: bool)
        ensures
            r == self.wf(),
    {
        if self.n_rows.is_none() != (self.columns.len() == 0) {
            return false;
        }
        let n: usize = match self.n_rows {
            Some(n) => n,
            None => 0,
        };
        let mut i: usize = 0;
        while i < self.columns.len()
            invariant
                i <= self.columns@.len(),
                n == self.n_rows->0 || self.columns@.len() == 0,
                forall|j: int| 0 <= j < i ==> #[trigger] self.columns@[j].data.spec_len() == n,
            decreases self.columns@.len() - i,
        {
            if self.columns[i].data.len() != n {
                return false;
            }
            i = i + 1;
        }
        true
    }

    /// create new table
    pub fn new() -> (r: Table)
        ensures
            r.n_rows is None,
            r.columns@.len() == 0,
            r.wf(),
    {
        Table { n_rows: None, columns: Vec::new() }
    }

    /// add column to table; its length must match the columns already there
    pub fn add_column(&mut self, name: &str, data: ColumnData) -> (r: Result<(), FormatError>)
        requires
            old(self).wf(),
        ensures
            final(self).wf(),
            match old(self).n_rows {
                Some(n) if n != data.spec_len() => {
                    &&& r matches Err(FormatError::DifferentRowCounts)
                    &&& final(self).columns@ == old(self).columns@
                    &&& final(self).n_rows == old(self).n_rows
                },
                _ => {
                    &&& r is Ok
                    &&& final(self).n_rows == Some(data.spec_len() as usize)
                    &&& final(self).columns@.len() == old(self).columns@.len() + 1
                    &&& final(self).columns@.drop_last() == old(self).columns@
                    &&& final(self).columns@.last().name@ == name@
                    &&& *final(self).columns@.last().data == data
                },
            },
    {
        let len = data.len();
        if let Some(n_rows) = self.n_rows {
            if n_rows != len {
                return Err(FormatError::DifferentRowCounts);
            }
        } else {
            self.n_rows = Some(len);
        }
        let column = Column::new(name.to_owned(), data);
        self.columns.push(column);
        assert(self.columns@.drop_last() =~= old(self).columns@);
        Ok(())
    }

    /// get column by name: the first one so named
    pub fn column(&self, name: &str) -> (r: Result<&Column, FormatError>)
        ensures
            match find_column(self.columns@, name@) {
                Some(i) => r == Ok::<&Column, FormatError>(&self.columns@[i]),
                None => r matches Err(FormatError::ColumnMissing(_)),
            },
    {
        let target = name.to_owned();
        let mut i: usize = 0;
        while i < self.columns.len()
            invariant
                i <= self.columns@.len(),
                target@ == name@,
                forall|j: int| 0 <= j < i ==> #[trigger] self.columns@[j].name@ != name@,
            decreases self.columns@.len() - i,
        {
            if self.columns[i].name == target {
                proof {
                    lemma_first_named_unique(self.columns@, name@, i as int);
                }
                return Ok(&self.columns[i]);
            }
            i = i + 1;
        }
        let mut msg = "column missing: ".to_owned();
        msg.append(name);
        Err(FormatError::ColumnMissing(msg))
    }
}

/// Whether `i` is the first position of a column named `name`.
pub open spec fn is_first_named(cols: Seq<Column>, name: Seq<char>, i: int) -> bool {
    &&& 0 <= i < cols.len()
    &&& cols[i].name@ == name
    &&& forall|j: int| 0 <= j < i ==> #[trigger] cols[j].name@ != name
}

/// The position of the first column named `name`, if any.
pub open spec fn find_column(cols: Seq<Column>, name: Seq<char>) -> Option<int> {
    if exists|i: int| is_first_named(cols, name, i) {
        Some(choose|i: int| is_first_named(cols, name, i))
    } else {
        None
    }
}

/// The first position of a name is the one `find_column` gives.
pub proof fn lemma_first_named_unique(cols: Seq<Column>, name: Seq<char>, i: int)
    requires
        is_first_named(cols, name, i),
    ensures
        find_column(cols, name) == Some(i),
{
    let k = choose|k: int| is_first_named(cols, name, k);
    assert(is_first_named(cols, name, k));
    if k < i {
        assert(cols[k].name@ != name);
    } else if i < k {
        assert(cols[i].name@ != name);
    }
}

} // verus!
