use vstd::prelude::*;
use crate::model::PostState;

verus! {

/// One cell of a row. Timestamps are carried as `Int` (microseconds since
/// the Unix epoch).
#[derive(Debug, Clone)]
pub enum Value {
    Null,
    Int(i64),
    Text(String),
    State(PostState),
}

/// The mathematical content of a cell.
pub enum Datum {
    Null,
    Int(int),
    Text(Seq<char>),
    State(PostState),
}

impl View for Value {
    type V = Datum;

    open spec fn view(&self) -> Datum {
        match self {
            Value::Null => Datum::Null,
            Value::Int(n) => Datum::Int(*n as int),
            Value::Text(s) => Datum::Text(s@),
            Value::State(s) => Datum::State(*s),
        }
    }
}

/// A row is a sequence of cells, one per column of its relation.
pub type Row = Vec<Value>;

/// The content of a row.
pub open spec fn row_view(r: Row) -> Seq<Datum> {
    r@.map_values(|v: Value| v@)
}

/// The content of a list of rows.
pub open spec fn rows_view(rs: Seq<Row>) -> Seq<Seq<Datum>> {
    rs.map_values(|r: Row| row_view(r))
}

impl Value {
    /// Whether two cells hold the same content.
    pub fn same(&self, o: &Value) -> (r: bool)
        ensures
            r == (self@ == o@),
    {
        match (self, o) {
            (Value::Null, Value::Null) => true,
            (Value::Int(a), Value::Int(b)) => *a == *b,
            (Value::Text(a), Value::Text(b)) => *a == *b,
            (Value::State(a), Value::State(b)) => *a == *b,
            _ => false,
        }
    }

    /// A copy with the same content.
    pub fn duplicate(&self) -> (r: Value)
        ensures
            r@ == self@,
    {
        match self {
            Value::Null => Value::Null,
            Value::Int(n) => Value::Int(*n),
            Value::Text(s) => Value::Text(s.clone()),
            Value::State(s) => Value::State(*s),
        }
    }
}

/// A copy of a row with the same content.
pub fn copy_row(r: &Row) -> (c: Row)
    ensures
        row_view(c) == row_view(*r),
        c@.len() == r@.len(),
{
    let mut c: Row = Vec::new();
    let mut i: usize = 0;
    while i < r.len()
        invariant
            i <= r@.len(),
            c@.len() == i,
            forall|k: int| 0 <= k < i ==> (#[trigger] c@[k])@ == r@[k]@,
        decreases r@.len() - i,
    {
        c.push(r[i].duplicate());
        i += 1;
    }
    assert(row_view(c) =~= row_view(*r));
    c
}

} // verus!
