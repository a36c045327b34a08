use vstd::prelude::*;
use crate::filter::{conditions, matches_all, satisfies, Condition, Predicate};
use crate::plan::QueryPlan;
use crate::value::{copy_row, row_view, rows_view, Datum, Row, Value};

verus! {

/// The rows that pass every condition of the filter, in their given order.
pub open spec fn matching(f: Seq<Condition>, rows: Seq<Seq<Datum>>) -> Seq<Seq<Datum>> {
    rows.filter(|r: Seq<Datum>| satisfies(f, r))
}

/// The first position of a page: `offset`, or the end when there are fewer
/// rows.
pub open spec fn page_start(len: int, offset: u64) -> int {
    if offset < len {
        offset as int
    } else {
        len
    }
}

/// One past the last position of a page: at most `limit` rows after the
/// start, and never past the end.
pub open spec fn page_end(len: int, offset: u64, limit: Option<u64>) -> int {
    let start = page_start(len, offset);
    match limit {
        Some(k) => if start + k < len {
            start + k
        } else {
            len
        },
        None => len,
    }
}

/// The rows that skip the first `offset` and keep at most `limit`.
pub open spec fn page<A>(s: Seq<A>, offset: u64, limit: Option<u64>) -> Seq<A> {
    s.subrange(page_start(s.len() as int, offset), page_end(s.len() as int, offset, limit))
}

/// The rows that a plan reads out of `rows`, which stand in the plan's
/// order: the matching rows, then the page.
pub open spec fn evaluate(plan: QueryPlan, rows: Seq<Seq<Datum>>) -> Seq<Seq<Datum>> {
    page(matching(conditions(plan.filter@), rows), plan.offset, plan.limit)
}

/// The cells of the given columns, in the given order; a column the row
/// lacks reads as null.
pub open spec fn project(row: Seq<Datum>, cols: Seq<usize>) -> Seq<Datum> {
    cols.map_values(|c: usize| if c < row.len() { row[c as int] } else { Datum::Null })
}

/// The rows of `rows` that pass every predicate of `plan`'s filter.
pub fn filter_rows(plan: &QueryPlan, rows: &Vec<Row>) -> (r: Vec<Row>)
    ensures
        rows_view(r@) == matching(conditions(plan.filter@), rows_view(rows@)),
{
    let ghost f = conditions(plan.filter@);
    let mut out: Vec<Row> = Vec::new();
    let mut i: usize = 0;
    while i < rows.len()
        invariant
            i <= rows@.len(),
            f == conditions(plan.filter@),
            rows_view(out@) == matching(f, rows_view(rows@).subrange(0, i as int)),
        decreases rows@.len() - i,
    {
        let ghost before = out@;
        let ghost all = rows_view(rows@);
        let keep = matches_all(&plan.filter, &rows[i]);
        if keep {
            out.push(copy_row(&rows[i]));
            assert(rows_view(out@) =~= rows_view(before).push(row_view(rows@[i as int])));
        }
        proof {
            let s1 = all.subrange(0, i + 1);
            assert(s1.drop_last() =~= all.subrange(0, i as int));
            assert(s1.last() == row_view(rows@[i as int]));
            reveal_with_fuel(Seq::filter, 1);
        }
        i += 1;
    }
    assert(rows_view(rows@).subrange(0, rows@.len() as int) =~= rows_view(rows@));
    out
}

/// The page of `rows` that `offset` and `limit` select.
pub fn page_rows(rows: &Vec<Row>, offset: u64, limit: Option<u64>) -> (r: Vec<Row>)
    ensures
        rows_view(r@) == page(rows_view(rows@), offset, limit),
{
    let len = rows.len();
    let start: usize = if (offset as u128) < (len as u128) {
        offset as usize
    } else {
        len
    };
    let end: usize = match limit {
        Some(k) => if (start as u128) + (k as u128) < (len as u128) {
            start + k as usize
        } else {
            len
        },
        None => len,
    };
    let mut out: Vec<Row> = Vec::new();
    let mut i: usize = start;
    while i < end
        invariant
            start <= i <= end,
            end <= rows@.len(),
            rows_view(out@) == rows_view(rows@).subrange(start as int, i as int),
        decreases end - i,
    {
        let ghost before = out@;
        let c = copy_row(&rows[i]);
        out.push(c);
        assert(rows_view(out@) =~= rows_view(before).push(row_view(rows@[i as int])));
        assert(rows_view(out@) =~= rows_view(rows@).subrange(start as int, i + 1));
        i += 1;
    }
    out
}

/// Runs a plan over the rows of its relation, already arranged by the
/// plan's order (see `arrange`): keeps the rows that pass the filter, then
/// the page. The rows keep every
/// column, so that keys stay available to the batch loader; `project_rows`
/// shapes them for the caller.
pub fn execute(plan: &QueryPlan, rows: &Vec<Row>) -> (r: Vec<Row>)
    ensures
        rows_view(r@) == evaluate(*plan, rows_view(rows@)),
{
    let matched = filter_rows(plan, rows);
    page_rows(&matched, plan.offset, plan.limit)
}

/// The cells of the given columns of one row.
pub fn project_row(row: &Row, cols: &Vec<usize>) -> (r: Row)
    ensures
        row_view(r) == project(row_view(*row), cols@),
{
    let mut out: Row = Vec::new();
    let mut j: usize = 0;
    while j < cols.len()
        invariant
            j <= cols@.len(),
            row_view(out) == project(row_view(*row), cols@).subrange(0, j as int),
        decreases cols@.len() - j,
    {
        let c = cols[j];
        let v = if c < row.len() {
            row[c].duplicate()
        } else {
            Value::Null
        };
        let ghost before = out;
        out.push(v);
        assert(row_view(out) =~= row_view(before).push(project(row_view(*row), cols@)[j as int]));
        assert(row_view(out) =~= project(row_view(*row), cols@).subrange(0, j + 1));
        j += 1;
    }
    assert(project(row_view(*row), cols@).subrange(0, cols@.len() as int) =~= project(
        row_view(*row),
        cols@,
    ));
    out
}

/// Each row cut down to the given columns.
pub fn project_rows(rows: &Vec<Row>, cols: &Vec<usize>) -> (r: Vec<Row>)
    ensures
        rows_view(r@) == rows_view(rows@).map_values(|row: Seq<Datum>| project(row, cols@)),
{
    let mut out: Vec<Row> = Vec::new();
    let mut i: usize = 0;
    while i < rows.len()
        invariant
            i <= rows@.len(),
            rows_view(out@) == rows_view(rows@).map_values(
                |row: Seq<Datum>| project(row, cols@),
            ).subrange(0, i as int),
        decreases rows@.len() - i,
    {
        let ghost before = out@;
        let pr = project_row(&rows[i], cols);
        out.push(pr);
        assert(rows_view(out@) =~= rows_view(before).push(project(row_view(rows@[i as int]), cols@)));
        assert(rows_view(out@) =~= rows_view(rows@).map_values(
            |row: Seq<Datum>| project(row, cols@),
        ).subrange(0, i + 1));
        i += 1;
    }
    assert(rows_view(rows@).map_values(|row: Seq<Datum>| project(row, cols@)).subrange(
        0,
        rows@.len() as int,
    ) =~= rows_view(rows@).map_values(|row: Seq<Datum>| project(row, cols@)));
    out
}

/// The plan with the conditions of `extra` conjoined to its filter.
pub fn narrow(plan: QueryPlan, extra: Vec<Predicate>) -> (r: QueryPlan)
    ensures
        conditions(r.filter@) == conditions(plan.filter@) + conditions(extra@),
        r.projection == plan.projection,
        r.arguments == plan.arguments,
        r.follow == plan.follow,
        r.order == plan.order,
        r.limit == plan.limit,
        r.offset == plan.offset,
{
    let QueryPlan { arguments, projection, follow, filter, order, limit, offset } = plan;
    let filter = crate::filter::conjoin(filter, extra);
    QueryPlan { arguments, projection, follow, filter, order, limit, offset }
}

/// Every row a plan reads passes the plan's filter.
pub proof fn lemma_evaluate_satisfies(plan: QueryPlan, rows: Seq<Seq<Datum>>, i: int)
    requires
        0 <= i < evaluate(plan, rows).len(),
    ensures
        satisfies(conditions(plan.filter@), evaluate(plan, rows)[i]),
{
    let f = conditions(plan.filter@);
    let m = matching(f, rows);
    let s = page_start(m.len() as int, plan.offset);
    assert(evaluate(plan, rows)[i] == m[s + i]);
    rows.lemma_filter_pred(|r: Seq<Datum>| satisfies(f, r), s + i);
}

/// A page holds at most `limit` rows, and its `i`-th row is the
/// `offset + i`-th of the rows that pass the filter.
pub proof fn lemma_page_bound(plan: QueryPlan, rows: Seq<Seq<Datum>>)
    ensures
        plan.limit matches Some(k) ==> evaluate(plan, rows).len() <= k,
        forall|i: int|
            0 <= i < evaluate(plan, rows).len() ==> #[trigger] evaluate(plan, rows)[i] == matching(
                conditions(plan.filter@),
                rows,
            )[plan.offset + i],
{
}

} // verus!
