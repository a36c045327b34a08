use vstd::prelude::*;
use crate::value::{copy_row, row_view, Datum, Row, Value};

verus! {

/// A test applied to one cell.
#[derive(Debug, Clone)]
pub enum Test {
    /// Equal to a non-null value.
    Equals(Value),
    /// A text cell that holds the given text as a contiguous run.
    Contains(String),
    /// A text cell that matches the given SQL `LIKE` pattern.
    Like(String),
    /// An integer (or timestamp) cell at least the given bound.
    AtLeast(i64),
    /// A null cell.
    IsNull,
    /// Equal to one of the given non-null values.
    OneOf(Vec<Value>),
}

/// A leaf comparison on one column of a relation, by column position.
#[derive(Debug, Clone)]
pub struct Predicate {
    pub column: usize,
    pub test: Test,
}

/// `p` occurs in `t` as a contiguous run.
pub open spec fn text_contains(t: Seq<char>, p: Seq<char>) -> bool {
    exists|i: int| 0 <= i <= t.len() - p.len() && #[trigger] t.subrange(i, i + p.len()) == p
}

fn run_at(t: &Vec<char>, p: &Vec<char>, i: usize) -> (r: bool)
    requires
        i + p@.len() <= t@.len(),
    ensures
        r == (t@.subrange(i as int, i + p@.len()) == p@),
{
    assert(t@.len() == t.len());
    let mut k: usize = 0;
    while k < p.len()
        invariant
            k <= p@.len(),
            t@.len() <= usize::MAX,
            i + p@.len() <= t@.len(),
            forall|q: int| 0 <= q < k ==> t@[i + q] == p@[q],
        decreases p@.len() - k,
    {
        if t[i + k] != p[k] {
            assert(t@.subrange(i as int, i + p@.len())[k as int] != p@[k as int]);
            return false;
        }
        k += 1;
    }
    assert(t@.subrange(i as int, i + p@.len()) =~= p@);
    true
}

/// Whether `p` occurs in `t` as a contiguous run of characters.
fn str_contains(t: &str, p: &str) -> (r: bool)
    ensures
        r == text_contains(t@, p@),
{
    let tc = crate::pattern::chars_of(t);
    let pc = crate::pattern::chars_of(p);
    if pc.len() > tc.len() {
        return false;
    }
    let last = tc.len() - pc.len();
    let mut i: usize = 0;
    while i < last
        invariant
            i <= last,
            last == tc@.len() - pc@.len(),
            tc@ == t@,
            pc@ == p@,
            forall|q: int| 0 <= q < i ==> #[trigger] tc@.subrange(q, q + pc@.len()) != pc@,
        decreases last + 1 - i,
    {
        if run_at(&tc, &pc, i) {
            return true;
        }
        i += 1;
    }
    let found = run_at(&tc, &pc, last);
    proof {
        if !found {
            assert forall|q: int| 0 <= q <= tc@.len() - pc@.len() implies #[trigger] tc@.subrange(
                q,
                q + pc@.len(),
            ) != pc@ by {}
        }
    }
    found
}

/// The content of a test.
pub enum Check {
    Equals(Datum),
    Contains(Seq<char>),
    Like(Seq<char>),
    AtLeast(int),
    IsNull,
    OneOf(Seq<Datum>),
}

/// The content of a predicate.
pub struct Condition {
    pub column: int,
    pub check: Check,
}

impl View for Test {
    type V = Check;

    open spec fn view(&self) -> Check {
        match self {
            Test::Equals(v) => Check::Equals(v@),
            Test::Contains(p) => Check::Contains(p@),
            Test::Like(p) => Check::Like(p@),
            Test::AtLeast(n) => Check::AtLeast(*n as int),
            Test::IsNull => Check::IsNull,
            Test::OneOf(vs) => Check::OneOf(row_view(*vs)),
        }
    }
}

impl View for Predicate {
    type V = Condition;

    open spec fn view(&self) -> Condition {
        Condition { column: self.column as int, check: self.test@ }
    }
}

/// The content of a list of predicates.
pub open spec fn conditions(f: Seq<Predicate>) -> Seq<Condition> {
    f.map_values(|p: Predicate| p@)
}

/// Whether a cell passes a test. A null cell passes only `IsNull`.
pub open spec fn test_holds(t: Check, d: Datum) -> bool {
    match t {
        Check::Equals(v) => !(d is Null) && d == v,
        Check::Contains(p) => match d {
            Datum::Text(s) => text_contains(s, p),
            _ => false,
        },
        Check::Like(p) => match d {
            Datum::Text(s) => crate::pattern::like(s, p),
            _ => false,
        },
        Check::AtLeast(n) => match d {
            Datum::Int(x) => x >= n,
            _ => false,
        },
        Check::IsNull => d is Null,
        Check::OneOf(vs) => !(d is Null) && vs.contains(d),
    }
}

/// Whether a row passes a condition: the column exists and its cell passes.
pub open spec fn holds(p: Condition, row: Seq<Datum>) -> bool {
    0 <= p.column < row.len() && test_holds(p.check, row[p.column])
}

/// A filter is the conjunction of its conditions; the empty filter admits
/// every row.
pub open spec fn satisfies(f: Seq<Condition>, row: Seq<Datum>) -> bool {
    forall|k: int| 0 <= k < f.len() ==> holds(#[trigger] f[k], row)
}

/// Whether some value of `vs` has the content of `v`.
pub(crate) fn any_same(vs: &Vec<Value>, v: &Value) -> (r: bool)
    ensures
        r == row_view(*vs).contains(v@),
{
    let mut k: usize = 0;
    while k < vs.len()
        invariant
            k <= vs@.len(),
            forall|j: int| 0 <= j < k ==> (#[trigger] vs@[j])@ != v@,
        decreases vs@.len() - k,
    {
        if vs[k].same(v) {
            assert(row_view(*vs)[k as int] == v@);
            return true;
        }
        k += 1;
    }
    let ghost m = row_view(*vs);
    assert forall|j: int| 0 <= j < m.len() implies #[trigger] m[j] != v@ by {
        assert((vs@[j])@ != v@);
    }
    false
}

impl Test {
    /// Whether the cell passes this test.
    pub fn check(&self, v: &Value) -> (r: bool)
        ensures
            r == test_holds(self@, v@),
    {
        match self {
            Test::Equals(w) => {
                match v {
                    Value::Null => false,
                    _ => v.same(w),
                }
            },
            Test::Contains(p) => match v {
                Value::Text(s) => str_contains(s.as_str(), p.as_str()),
                _ => false,
            },
            Test::Like(p) => match v {
                Value::Text(s) => crate::pattern::text_like(s.as_str(), p.as_str()),
                _ => false,
            },
            Test::AtLeast(n) => match v {
                Value::Int(x) => *x >= *n,
                _ => false,
            },
            Test::IsNull => matches!(v, Value::Null),
            Test::OneOf(vs) => match v {
                Value::Null => false,
                _ => any_same(vs, v),
            },
        }
    }
}

impl Test {
    /// A copy with the same content.
    pub fn duplicate(&self) -> (r: Test)
        ensures
            r@ == self@,
    {
        match self {
            Test::Equals(v) => Test::Equals(v.duplicate()),
            Test::Contains(p) => Test::Contains(p.clone()),
            Test::Like(p) => Test::Like(p.clone()),
            Test::AtLeast(n) => Test::AtLeast(*n),
            Test::IsNull => Test::IsNull,
            Test::OneOf(vs) => Test::OneOf(copy_row(vs)),
        }
    }
}

impl Predicate {
    /// Whether the row passes this predicate.
    pub fn matches(&self, row: &Row) -> (r: bool)
        ensures
            r == holds(self@, row_view(*row)),
    {
        if self.column < row.len() {
            self.test.check(&row[self.column])
        } else {
            false
        }
    }
}

/// Whether the row passes every predicate of the filter.
pub fn matches_all(f: &Vec<Predicate>, row: &Row) -> (r: bool)
    ensures
        r == satisfies(conditions(f@), row_view(*row)),
{
    let mut k: usize = 0;
    while k < f.len()
        invariant
            k <= f@.len(),
            forall|j: int| 0 <= j < k ==> holds(#[trigger] conditions(f@)[j], row_view(*row)),
        decreases f@.len() - k,
    {
        assert(conditions(f@)[k as int] == f@[k as int]@);
        if !f[k].matches(row) {
            return false;
        }
        k += 1;
    }
    true
}

/// Conjoins two filters into one.
pub fn conjoin(a: Vec<Predicate>, b: Vec<Predicate>) -> (r: Vec<Predicate>)
    ensures
        r@ == a@ + b@,
        conditions(r@) == conditions(a@) + conditions(b@),
{
    let ghost (a0, b0) = (a@, b@);
    let mut r = a;
    let mut rest = b;
    r.append(&mut rest);
    assert(conditions(r@) =~= conditions(a0) + conditions(b0));
    r
}

/// Applying two filters together is applying their conjunction, whichever
/// of them comes first.
pub proof fn lemma_conjunction(a: Seq<Condition>, b: Seq<Condition>, row: Seq<Datum>)
    ensures
        satisfies(a + b, row) == (satisfies(a, row) && satisfies(b, row)),
        satisfies(a + b, row) == satisfies(b + a, row),
{
    if satisfies(a, row) && satisfies(b, row) {
        assert forall|k: int| 0 <= k < (a + b).len() implies holds(#[trigger] (a + b)[k], row) by {
            if k >= a.len() {
                assert((a + b)[k] == b[k - a.len()]);
            }
        }
        assert forall|k: int| 0 <= k < (b + a).len() implies holds(#[trigger] (b + a)[k], row) by {
            if k >= b.len() {
                assert((b + a)[k] == a[k - b.len()]);
            }
        }
    }
    if satisfies(a + b, row) {
        assert forall|k: int| 0 <= k < a.len() implies holds(#[trigger] a[k], row) by {
            assert((a + b)[k] == a[k]);
        }
        assert forall|k: int| 0 <= k < b.len() implies holds(#[trigger] b[k], row) by {
            assert((a + b)[k + a.len()] == b[k]);
        }
    }
    if satisfies(b + a, row) {
        assert forall|k: int| 0 <= k < a.len() implies holds(#[trigger] a[k], row) by {
            assert((b + a)[k + b.len()] == a[k]);
        }
        assert forall|k: int| 0 <= k < b.len() implies holds(#[trigger] b[k], row) by {
            assert((b + a)[k] == b[k]);
        }
    }
}

} // verus!
