use vstd::prelude::*;

use crate::value::DataType;
use crate::value::Value;

verus! {

/// One column of a dataset schema: a name and a declared data type.
#[derive(Clone, Debug)]
pub struct Column {
    pub name: String,
    pub dtype: DataType,
}

/// Index of the first column called `name`, or -1 when no column has
/// that name, scanning from position `from`.
pub open spec fn find_col_from(schema: Seq<Column>, name: Seq<char>, from: int) -> int
    decreases schema.len() - from,
{
    if from < 0 || from >= schema.len() {
        -1
    } else if schema[from].name@ == name {
        from
    } else {
        find_col_from(schema, name, from + 1)
    }
}

/// Index of the column called `name` in `schema`, or -1 when absent.
pub open spec fn find_col(schema: Seq<Column>, name: Seq<char>) -> int {
    find_col_from(schema, name, 0)
}

pub proof fn lemma_find_col_in_range(schema: Seq<Column>, name: Seq<char>, from: int)
    requires
        0 <= from <= schema.len(),
    ensures
        find_col_from(schema, name, from) == -1 || (from <= find_col_from(schema, name, from)
            < schema.len() && schema[find_col_from(schema, name, from)].name@ == name),
    decreases schema.len() - from,
{
    if from < schema.len() && schema[from].name@ != name {
        lemma_find_col_in_range(schema, name, from + 1);
    }
}

/// Column names are unique within a well-formed schema.
pub open spec fn schema_wf(schema: Seq<Column>) -> bool {
    forall|i: int, j: int|
        0 <= i < j < schema.len() ==> schema[i].name@ != schema[j].name@
}

/// A dataset held in memory: an ordered schema and the rows, each row
/// holding one cell per schema column.
#[derive(Debug)]
pub struct Dataset {
    pub schema: Vec<Column>,
    pub rows: Vec<Vec<Value>>,
}

impl Dataset {
    /// Well-formed dataset: unique column names and rectangular rows.
    pub open spec fn wf(&self) -> bool {
        &&& schema_wf(self.schema@)
        &&& forall|i: int| 0 <= i < self.rows@.len() ==> self.rows@[i]@.len() == self.schema@.len()
    }

    /// Builds a dataset after checking well-formedness, so that callers
    /// outside verified code get a dataset `diff` accepts or a clear `None`.
    pub fn new(schema: Vec<Column>, rows: Vec<Vec<Value>>) -> (r: Option<Dataset>)
        ensures
            match r {
                Some(d) => d.wf() && d.schema == schema && d.rows == rows,
                None => !(Dataset { schema, rows }).wf(),
            },
    {
        let ghost gschema = schema@;
        let ghost grows = rows@;
        let mut i: usize = 0;
        while i < schema.len()
            invariant
                0 <= i <= schema.len(),
                schema@ == gschema,
                forall|p: int, q: int| 0 <= p < q < i ==> schema@[p].name@ != schema@[q].name@,
            decreases schema.len() - i,
        {
            let mut j: usize = 0;
            while j < i
                invariant
                    0 <= j <= i < schema.len(),
                    schema@ == gschema,
                    forall|q: int| 0 <= q < j ==> schema@[q].name@ != schema@[i as int].name@,
                decreases i - j,
            {
                if schema[j].name == schema[i].name {
                    proof {
                        assert(schema@[j as int].name@ == schema@[i as int].name@);
                        assert(!schema_wf(schema@));
                    }
                    return None;
                }
                j += 1;
            }
            i += 1;
        }
        let mut k: usize = 0;
        while k < rows.len()
            invariant
                0 <= k <= rows.len(),
                schema@ == gschema,
                rows@ == grows,
                forall|p: int| 0 <= p < k ==> rows@[p]@.len() == schema@.len(),
            decreases rows.len() - k,
        {
            if rows[k].len() != schema.len() {
                proof {
                    let d0 = Dataset { schema, rows };
                    assert(d0.rows@[k as int]@.len() != d0.schema@.len());
                    assert(!d0.wf());
                }
                return None;
            }
            k += 1;
        }
        Some(Dataset { schema, rows })
    }
}

/// Executable column lookup, mirroring `find_col`.
pub fn find_column(schema: &Vec<Column>, name: &String) -> (r: Option<usize>)
    ensures
        match r {
            Some(c) => find_col(schema@, name@) == c && c < schema@.len(),
            None => find_col(schema@, name@) == -1,
        },
{
    let mut i: usize = 0;
    while i < schema.len()
        invariant
            0 <= i <= schema@.len(),
            find_col(schema@, name@) == find_col_from(schema@, name@, i as int),
        decreases schema@.len() - i,
    {
        if schema[i].name == *name {
            return Some(i);
        }
        i += 1;
    }
    None
}

/// True when `name` is one of the join-key column names.
pub open spec fn is_key_name(keys: Seq<String>, name: Seq<char>) -> bool {
    exists|t: int| 0 <= t < keys.len() && keys[t]@ == name
}

/// Executable membership test for key names, mirroring `is_key_name`.
pub fn name_is_key(keys: &Vec<String>, name: &String) -> (r: bool)
    ensures
        r == is_key_name(keys@, name@),
{
    let mut t: usize = 0;
    while t < keys.len()
        invariant
            0 <= t <= keys@.len(),
            forall|q: int| 0 <= q < t ==> keys@[q]@ != name@,
        decreases keys@.len() - t,
    {
        if keys[t] == *name {
            return true;
        }
        t += 1;
    }
    false
}

} // verus!
