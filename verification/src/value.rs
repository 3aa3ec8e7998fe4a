use vstd::prelude::*;

verus! {

/// Declared data type of a column, as reported by the source's schema.
/// `Float` and `Other` values are carried by the caller outside this
/// library; cell values handled here are `Null`, `Int`, `Bool` or `Str`.
#[derive(Clone, Copy, PartialEq, Eq, Structural, Debug)]
pub enum DataType {
    Int,
    Float,
    Bool,
    Str,
    Null,
    Other,
}

impl DataType {
    /// Numeric delta statistics are computed only when both sides are numeric.
    pub open spec fn spec_is_numeric(&self) -> bool {
        *self == DataType::Int || *self == DataType::Float
    }

    #[verifier::when_used_as_spec(spec_is_numeric)]
    pub fn is_numeric(&self) -> (r: bool)
        ensures
            r == self.spec_is_numeric(),
    {
        match self {
            DataType::Int => true,
            DataType::Float => true,
            _ => false,
        }
    }
}

/// A single cell of a dataset.
#[derive(Clone, Debug)]
pub enum Value {
    Null,
    Int(i64),
    Bool(bool),
    Str(String),
}

/// Null-aware equality on cells: two nulls are equal, a null and a
/// non-null differ, two non-nulls compare by their contents.
pub open spec fn val_eq(a: Value, b: Value) -> bool {
    match (a, b) {
        (Value::Null, Value::Null) => true,
        (Value::Int(x), Value::Int(y)) => x == y,
        (Value::Bool(x), Value::Bool(y)) => x == y,
        (Value::Str(x), Value::Str(y)) => x@ == y@,
        _ => false,
    }
}

/// Executable null-aware equality, the cell comparison every statistic
/// in this library is built from.
pub fn value_eq(a: &Value, b: &Value) -> (r: bool)
    ensures
        r == val_eq(*a, *b),
{
    match (a, b) {
        (Value::Null, Value::Null) => true,
        (Value::Int(x), Value::Int(y)) => *x == *y,
        (Value::Bool(x), Value::Bool(y)) => *x == *y,
        (Value::Str(x), Value::Str(y)) => *x == *y,
        _ => false,
    }
}

pub fn value_is_null(v: &Value) -> (r: bool)
    ensures
        r == (*v is Null),
{
    match v {
        Value::Null => true,
        _ => false,
    }
}

/// Absolute numeric distance between two cells; zero unless both are
/// integers. This is the magnitude-drift measure of the report.
pub open spec fn int_delta(a: Value, b: Value) -> nat {
    match (a, b) {
        (Value::Int(x), Value::Int(y)) => if x >= y {
            (x - y) as nat
        } else {
            (y - x) as nat
        },
        _ => 0,
    }
}

/// The distance of two `i64` cells always fits in a `u64`.
pub fn value_delta(a: &Value, b: &Value) -> (d: u64)
    ensures
        d == int_delta(*a, *b),
{
    match (a, b) {
        (Value::Int(x), Value::Int(y)) => {
            let dw: i128 = (*x as i128) - (*y as i128);
            if dw >= 0 {
                dw as u64
            } else {
                (-dw) as u64
            }
        },
        _ => 0,
    }
}

/// Symmetry of null-aware cell equality.
pub proof fn lemma_val_eq_sym(a: Value, b: Value)
    ensures
        val_eq(a, b) == val_eq(b, a),
{
}

/// Transitivity of null-aware cell equality.
pub proof fn lemma_val_eq_trans(a: Value, b: Value, c: Value)
    requires
        val_eq(a, b),
        val_eq(b, c),
    ensures
        val_eq(a, c),
{
}

} // verus!
