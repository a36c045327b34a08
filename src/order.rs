use vstd::prelude::*;
use crate::model::PostState;
use crate::plan::OrderBy;
use crate::value::{copy_row, row_view, rows_view, Datum, Row, Value};

verus! {

/// Lexicographic order of texts by code point; a proper prefix comes first.
pub open spec fn text_lt(a: Seq<char>, b: Seq<char>) -> bool
    decreases a.len(),
{
    if a.len() == 0 {
        b.len() > 0
    } else if b.len() == 0 {
        false
    } else if a[0] != b[0] {
        (a[0] as u32) < (b[0] as u32)
    } else {
        text_lt(a.drop_first(), b.drop_first())
    }
}

pub open spec fn state_rank(s: PostState) -> int {
    match s {
        PostState::Draft => 0,
        PostState::Published => 1,
        PostState::Deleted => 2,
    }
}

/// Cells of different kinds order integers, texts, states, then nulls.
pub open spec fn kind_rank(d: Datum) -> int {
    match d {
        Datum::Int(_) => 0,
        Datum::Text(_) => 1,
        Datum::State(_) => 2,
        Datum::Null => 3,
    }
}

/// The ascending order of cells: by value within a kind; null last.
pub open spec fn datum_lt(a: Datum, b: Datum) -> bool {
    match (a, b) {
        (Datum::Int(x), Datum::Int(y)) => x < y,
        (Datum::Text(x), Datum::Text(y)) => text_lt(x, y),
        (Datum::State(x), Datum::State(y)) => state_rank(x) < state_rank(y),
        _ => kind_rank(a) < kind_rank(b),
    }
}

/// The cell of column `c`; a column the row lacks reads as null.
pub open spec fn cell(r: Seq<Datum>, c: usize) -> Datum {
    if c < r.len() {
        r[c as int]
    } else {
        Datum::Null
    }
}

/// Row `a` must come before row `b` under the order.
pub open spec fn before(a: Seq<Datum>, b: Seq<Datum>, o: OrderBy) -> bool {
    if o.descending {
        datum_lt(cell(b, o.column), cell(a, o.column))
    } else {
        datum_lt(cell(a, o.column), cell(b, o.column))
    }
}

/// No row must come before one that precedes it.
pub open spec fn ordered(s: Seq<Seq<Datum>>, o: OrderBy) -> bool {
    forall|i: int, j: int| 0 <= i < j < s.len() ==> !before(#[trigger] s[j], #[trigger] s[i], o)
}

/// `out` holds the rows of `src`, arranged by the order when there is one,
/// and as they stand otherwise.
pub open spec fn arranged_from(src: Seq<Seq<Datum>>, order: Option<OrderBy>, out: Seq<Seq<Datum>>) -> bool {
    match order {
        None => out == src,
        Some(o) => out.to_multiset() == src.to_multiset() && ordered(out, o),
    }
}

pub proof fn lemma_text_lt_irreflexive(a: Seq<char>)
    ensures
        !text_lt(a, a),
    decreases a.len(),
{
    if a.len() > 0 {
        lemma_text_lt_irreflexive(a.drop_first());
    }
}

pub proof fn lemma_text_lt_transitive(a: Seq<char>, b: Seq<char>, c: Seq<char>)
    requires
        text_lt(a, b),
        text_lt(b, c),
    ensures
        text_lt(a, c),
    decreases a.len(),
{
    if a.len() > 0 && b.len() > 0 && c.len() > 0 {
        if a[0] == b[0] && b[0] == c[0] {
            lemma_text_lt_transitive(a.drop_first(), b.drop_first(), c.drop_first());
        }
    }
}

pub proof fn lemma_datum_lt_order(a: Datum, b: Datum, c: Datum)
    ensures
        !datum_lt(a, a),
        datum_lt(a, b) && datum_lt(b, c) ==> datum_lt(a, c),
{
    if let Datum::Text(x) = a {
        lemma_text_lt_irreflexive(x);
        if let (Datum::Text(y), Datum::Text(z)) = (b, c) {
            if text_lt(x, y) && text_lt(y, z) {
                lemma_text_lt_transitive(x, y, z);
            }
        }
    }
}

proof fn lemma_text_lt_skip(a: Seq<char>, b: Seq<char>, i: int)
    requires
        0 <= i < a.len(),
        i < b.len(),
        a[i] == b[i],
    ensures
        text_lt(a.subrange(i, a.len() as int), b.subrange(i, b.len() as int)) == text_lt(
            a.subrange(i + 1, a.len() as int),
            b.subrange(i + 1, b.len() as int),
        ),
{
    let x = a.subrange(i, a.len() as int);
    let y = b.subrange(i, b.len() as int);
    assert(x.drop_first() =~= a.subrange(i + 1, a.len() as int));
    assert(y.drop_first() =~= b.subrange(i + 1, b.len() as int));
}

/// Whether text `a` comes strictly before text `b` by code point.
fn str_less(a: &str, b: &str) -> (r: bool)
    ensures
        r == text_lt(a@, b@),
{
    let x = crate::pattern::chars_of(a);
    let y = crate::pattern::chars_of(b);
    let mut i: usize = 0;
    assert(x@.subrange(0, x@.len() as int) =~= x@);
    assert(y@.subrange(0, y@.len() as int) =~= y@);
    while i < x.len() && i < y.len() && x[i] == y[i]
        invariant
            i <= x@.len(),
            i <= y@.len(),
            x@ == a@,
            y@ == b@,
            text_lt(a@, b@) == text_lt(
                x@.subrange(i as int, x@.len() as int),
                y@.subrange(i as int, y@.len() as int),
            ),
        decreases x@.len() - i,
    {
        proof {
            lemma_text_lt_skip(x@, y@, i as int);
        }
        i += 1;
    }
    let ghost xs = x@.subrange(i as int, x@.len() as int);
    let ghost ys = y@.subrange(i as int, y@.len() as int);
    if i == x.len() {
        assert(xs.len() == 0);
        i < y.len()
    } else if i == y.len() {
        assert(ys.len() == 0 && xs.len() > 0);
        false
    } else {
        assert(xs[0] == x@[i as int] && ys[0] == y@[i as int]);
        (x[i] as u32) < (y[i] as u32)
    }
}

fn state_index(s: PostState) -> (r: u8)
    ensures
        r as int == state_rank(s),
{
    match s {
        PostState::Draft => 0,
        PostState::Published => 1,
        PostState::Deleted => 2,
    }
}

fn kind_index(v: &Value) -> (r: u8)
    ensures
        r as int == kind_rank(v@),
{
    match v {
        Value::Int(_) => 0,
        Value::Text(_) => 1,
        Value::State(_) => 2,
        Value::Null => 3,
    }
}

/// Whether cell `a` comes strictly before cell `b` in ascending order.
pub fn value_less(a: &Value, b: &Value) -> (r: bool)
    ensures
        r == datum_lt(a@, b@),
{
    match (a, b) {
        (Value::Int(x), Value::Int(y)) => *x < *y,
        (Value::Text(x), Value::Text(y)) => str_less(x.as_str(), y.as_str()),
        (Value::State(x), Value::State(y)) => state_index(*x) < state_index(*y),
        _ => kind_index(a) < kind_index(b),
    }
}

fn cell_less(a: &Row, b: &Row, c: usize) -> (r: bool)
    ensures
        r == datum_lt(cell(row_view(*a), c), cell(row_view(*b), c)),
{
    let null = Value::Null;
    let x = if c < a.len() {
        &a[c]
    } else {
        &null
    };
    let y = if c < b.len() {
        &b[c]
    } else {
        &null
    };
    value_less(x, y)
}

/// Whether row `a` must come before row `b` under the order.
pub fn row_before(a: &Row, b: &Row, o: OrderBy) -> (r: bool)
    ensures
        r == before(row_view(*a), row_view(*b), o),
{
    if o.descending {
        cell_less(b, a, o.column)
    } else {
        cell_less(a, b, o.column)
    }
}

proof fn lemma_insert_to_multiset<A>(s: Seq<A>, p: int, x: A)
    requires
        0 <= p <= s.len(),
    ensures
        s.insert(p, x).to_multiset() =~= s.to_multiset().insert(x),
{
    broadcast use vstd::seq_lib::group_to_multiset_ensures;

    let t = s.insert(p, x);
    assert(t.remove(p) =~= s);
    assert(t[p] == x);
    assert(t.contains(x));
}

/// The rows arranged by the order, by insertion, when there is one; as
/// they stand otherwise. Rows that tie may come in any order.
pub fn arrange(rows: &Vec<Row>, order: Option<OrderBy>) -> (r: Vec<Row>)
    ensures
        arranged_from(rows_view(rows@), order, rows_view(r@)),
{
    broadcast use vstd::seq_lib::group_to_multiset_ensures;

    let mut out: Vec<Row> = Vec::new();
    let mut i: usize = 0;
    let ghost src = rows_view(rows@);
    match order {
        None => {
            while i < rows.len()
                invariant
                    i <= rows@.len(),
                    src == rows_view(rows@),
                    rows_view(out@) == src.subrange(0, i as int),
                decreases rows@.len() - i,
            {
                let ghost before_push = rows_view(out@);
                out.push(copy_row(&rows[i]));
                assert(rows_view(out@) =~= before_push.push(src[i as int]));
                assert(rows_view(out@) =~= src.subrange(0, i + 1));
                i += 1;
            }
            assert(src.subrange(0, src.len() as int) =~= src);
        },
        Some(o) => {
            while i < rows.len()
                invariant
                    i <= rows@.len(),
                    src == rows_view(rows@),
                    ordered(rows_view(out@), o),
                    rows_view(out@).to_multiset() == src.subrange(0, i as int).to_multiset(),
                decreases rows@.len() - i,
            {
                let x = copy_row(&rows[i]);
                let ghost xv = row_view(x);
                let ghost cur = rows_view(out@);
                let mut p: usize = 0;
                while p < out.len() && !row_before(&x, &out[p], o)
                    invariant
                        p <= out@.len(),
                        cur == rows_view(out@),
                        xv == row_view(x),
                        forall|k: int| 0 <= k < p ==> !before(xv, #[trigger] cur[k], o),
                    decreases out@.len() - p,
                {
                    p += 1;
                }
                out.insert(p, x);
                let ghost next = rows_view(out@);
                assert(next =~= cur.insert(p as int, xv));
                proof {
                    lemma_insert_to_multiset(cur, p as int, xv);
                    assert(xv == src[i as int]);
                    assert(src.subrange(0, i + 1) =~= src.subrange(0, i as int).push(xv));
                    src.subrange(0, i as int).to_multiset_ensures();
                    assert(src.subrange(0, i + 1).to_multiset() =~= src.subrange(0, i as int).to_multiset().insert(xv));
                    assert(next.to_multiset() =~= cur.to_multiset().insert(xv));
                    assert forall|a: int, b: int| 0 <= a < b < next.len() implies !before(
                        #[trigger] next[b],
                        #[trigger] next[a],
                        o,
                    ) by {
                        let pp = p as int;
                        if b == pp {
                            assert(next[a] == cur[a]);
                        } else if a == pp {
                            assert(next[b] == cur[b - 1]);
                            if before(cur[b - 1], xv, o) {
                                assert(pp < cur.len());
                                assert(before(xv, cur[pp], o));
                                lemma_datum_lt_order(
                                    cell(cur[b - 1], o.column),
                                    cell(xv, o.column),
                                    cell(cur[pp], o.column),
                                );
                                lemma_datum_lt_order(
                                    cell(cur[pp], o.column),
                                    cell(xv, o.column),
                                    cell(cur[b - 1], o.column),
                                );
                                if b - 1 != pp {
                                    assert(!before(cur[b - 1], cur[pp], o));
                                }
                            }
                        } else {
                            let oa = if a < pp { a } else { a - 1 };
                            let ob = if b < pp { b } else { b - 1 };
                            assert(next[a] == cur[oa]);
                            assert(next[b] == cur[ob]);
                        }
                    }
                }
                i += 1;
            }
            assert(src.subrange(0, src.len() as int) =~= src);
        },
    }
    out
}

} // verus!
