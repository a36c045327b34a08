use vstd::prelude::*;
use crate::database::Database;
use crate::exec::execute;
use crate::filter::{any_same, conditions, Check, Condition, Predicate, Test};
use crate::plan::{compile, plan_of, rejection, CompileError, QueryPlan};
use crate::order::{arrange, arranged_from};
use crate::schema::Relationship;
use crate::registry::{Entity, Registry};
use crate::selection::SelectionTree;
use crate::value::{row_view, rows_view, Datum, Row, Value};

verus! {

/// `d` is a non-null cell of column `col` in one of the rows.
pub open spec fn is_key(rows: Seq<Seq<Datum>>, col: int, d: Datum) -> bool {
    !(d is Null) && exists|j: int| 0 <= j < rows.len() && col < rows[j].len() && #[trigger] rows[j][col] == d
}

/// The positions, in order, of the first `n` children whose `peer` cell
/// equals the parent's non-null `col` cell.
pub open spec fn linked_upto(parent: Seq<Datum>, col: int, children: Seq<Seq<Datum>>, peer: int, n: int) -> Seq<usize>
    decreases n,
{
    if n <= 0 {
        Seq::empty()
    } else {
        let s = linked_upto(parent, col, children, peer, n - 1);
        if col < parent.len() && !(parent[col] is Null) && peer < children[n - 1].len()
            && children[n - 1][peer] == parent[col] {
            s.push((n - 1) as usize)
        } else {
            s
        }
    }
}

/// The distinct non-null cells of column `column`, in order of first
/// appearance.
pub fn distinct_keys(rows: &Vec<Row>, column: usize) -> (r: Vec<Value>)
    ensures
        row_view(r).no_duplicates(),
        forall|d: Datum| row_view(r).contains(d) <==> is_key(rows_view(rows@), column as int, d),
{
    let ghost all = rows_view(rows@);
    let mut out: Vec<Value> = Vec::new();
    let mut i: usize = 0;
    while i < rows.len()
        invariant
            i <= rows@.len(),
            all == rows_view(rows@),
            row_view(out).no_duplicates(),
            forall|d: Datum|
                row_view(out).contains(d) <==> is_key(all.subrange(0, i as int), column as int, d),
        decreases rows@.len() - i,
    {
        let ghost before = row_view(out);
        let ghost pre = all.subrange(0, i as int);
        let ghost next = all.subrange(0, i + 1);
        assert forall|j: int| 0 <= j < pre.len() implies #[trigger] next[j] == pre[j] by {}
        assert(next[i as int] == all[i as int]);
        let ghost col = column as int;
        let ghost cell_ok = col < all[i as int].len() && !(all[i as int][col] is Null);
        assert forall|d: Datum| is_key(next, col, d) <==> (is_key(pre, col, d) || (cell_ok
            && all[i as int][col] == d)) by {
            if is_key(next, col, d) {
                let j = choose|j: int|
                    0 <= j < next.len() && col < next[j].len() && #[trigger] next[j][col] == d;
                if j < i {
                    assert(pre[j][col] == d);
                }
            }
            if is_key(pre, col, d) {
                let j = choose|j: int|
                    0 <= j < pre.len() && col < pre[j].len() && #[trigger] pre[j][col] == d;
                assert(next[j][col] == d);
            }
            if cell_ok && all[i as int][col] == d {
                assert(next[i as int][col] == d);
            }
        }
        if column < rows[i].len() && !matches!(rows[i][column], Value::Null) && !any_same(
            &out,
            &rows[i][column],
        ) {
            let x = rows[i][column].duplicate();
            out.push(x);
            assert(row_view(out) =~= before.push(all[i as int][col]));
            assert forall|d: Datum| row_view(out).contains(d) <==> (before.contains(d) || (cell_ok
                && all[i as int][col] == d)) by {
                if before.contains(d) {
                    let k = choose|k: int| 0 <= k < before.len() && before[k] == d;
                    assert(row_view(out)[k] == d);
                }
                if cell_ok && all[i as int][col] == d {
                    assert(row_view(out)[before.len() as int] == d);
                }
            }
        } else {
            assert(row_view(out) == before);
            assert(cell_ok ==> before.contains(all[i as int][col]));
            assert forall|d: Datum| row_view(out).contains(d) <==> (before.contains(d) || (cell_ok
                && all[i as int][col] == d)) by {}
        }
        assert forall|d: Datum| row_view(out).contains(d) <==> is_key(next, col, d) by {
            assert(row_view(out).contains(d) <==> (before.contains(d) || (cell_ok && all[i as int][col]
                == d)));
            assert(before.contains(d) <==> is_key(pre, col, d));
        }
        i += 1;
    }
    assert(all.subrange(0, rows@.len() as int) =~= all);
    out
}

/// The plan narrowed to the rows whose `peer_column` cell is one of `keys`.
pub fn restrict(plan: QueryPlan, peer_column: usize, keys: Vec<Value>) -> (r: QueryPlan)
    ensures
        conditions(r.filter@) == conditions(plan.filter@).push(
            Condition { column: peer_column as int, check: Check::OneOf(row_view(keys)) },
        ),
        r.projection == plan.projection,
        r.arguments == plan.arguments,
        r.follow == plan.follow,
        r.order == plan.order,
        r.limit == plan.limit,
        r.offset == plan.offset,
{
    let QueryPlan { arguments, projection, follow, filter, order, limit, offset } = plan;
    let ghost before = filter@;
    let mut filter = filter;
    let p = Predicate { column: peer_column, test: Test::OneOf(keys) };
    filter.push(p);
    assert(conditions(filter@) =~= conditions(before).push(p@));
    QueryPlan { arguments, projection, follow, filter, order, limit, offset }
}

/// The positions, in order, of the children that belong to `parent`: those
/// whose `peer_column` cell equals the parent's non-null `column` cell.
pub fn attach(parent: &Row, column: usize, children: &Vec<Row>, peer_column: usize) -> (r: Vec<usize>)
    ensures
        r@ == linked_upto(
            row_view(*parent),
            column as int,
            rows_view(children@),
            peer_column as int,
            children@.len() as int,
        ),
{
    let mut out: Vec<usize> = Vec::new();
    let mut j: usize = 0;
    while j < children.len()
        invariant
            j <= children@.len(),
            out@ == linked_upto(
                row_view(*parent),
                column as int,
                rows_view(children@),
                peer_column as int,
                j as int,
            ),
        decreases children@.len() - j,
    {
        if column < parent.len() && !matches!(parent[column], Value::Null) && peer_column
            < children[j].len() && children[j][peer_column].same(&parent[column]) {
            out.push(j);
        }
        j += 1;
    }
    out
}

/// What a batch-loaded selection fetched: for each selection node, the
/// relation it read and the relationship of its parent's relation that led
/// there (none for a scalar field), the full rows fetched for it, whether a
/// query ran for it, and the number of queries run.
#[derive(Debug)]
pub struct Loaded {
    pub relations: Vec<Option<usize>>,
    pub links: Vec<Option<usize>>,
    pub rows: Vec<Vec<Row>>,
    pub queried: Vec<bool>,
    pub queries: usize,
}

/// How many of the flags are set.
pub open spec fn count_set(s: Seq<bool>) -> int
    decreases s.len(),
{
    if s.len() == 0 {
        0
    } else {
        count_set(s.drop_last()) + if s.last() {
            1int
        } else {
            0int
        }
    }
}

/// The parent's rows of node `k` hold a key for the link that reached it.
pub open spec fn parent_has_key(reg: Registry, t: SelectionTree, relations: Seq<Option<usize>>, rows: Seq<Vec<Row>>, k: int, e: int) -> bool {
    let p = parent_of(t, k);
    exists|d: Datum|
        #[trigger] is_key(
            rows_view(rows[p]@),
            reg.relations@[relations[p]->0 as int].relationships@[e].column as int,
            d,
        )
}

/// A selection node that does not compile, and why: its limit, its offset,
/// or a name among its sub-fields and arguments.
#[derive(Debug, Clone, Copy, PartialEq, Eq, Structural)]
pub struct FieldError {
    pub node: usize,
    pub error: CompileError,
}

/// The relation that node `k` reads when the tree is loaded from relation
/// `root`: the root reads `root`; a node reads the target of the
/// relationship it names on its parent's relation; a scalar field, or a
/// node under one, reads none.
pub open spec fn reached(reg: Registry, t: SelectionTree, root: usize, k: int) -> Option<usize>
    decreases k,
{
    if k <= 0 {
        Some(root)
    } else {
        let p = t.nodes@[k].parent;
        if p is Some && (p->0 as int) < k {
            match reached(reg, t, root, p->0 as int) {
                Some(pr) => match crate::plan::relationship_of(reg.relations@[pr as int], t.nodes@[k].field@) {
                    Some(e) => Some(reg.relations@[pr as int].relationships@[e].target),
                    None => None,
                },
                None => None,
            }
        } else {
            None
        }
    }
}

/// Every node that reads a relation compiles against it.
pub open spec fn all_compile(reg: Registry, t: SelectionTree, root: usize) -> bool {
    forall|k: int|
        0 <= k < t.nodes@.len() ==> (#[trigger] reached(reg, t, root, k) matches Some(x) ==> rejection(
            reg.relations@[x as int],
            t,
            k,
        ) is None)
}

/// The parent of a node of a well-formed tree.
pub open spec fn parent_of(t: SelectionTree, k: int) -> int {
    t.nodes@[k].parent->0 as int
}

/// The rows a child plan reads when narrowed to the keys `ks` of its
/// parent's rows.
pub open spec fn narrowed_read(p: QueryPlan, peer: int, ks: Seq<Datum>, source: Seq<Seq<Datum>>) -> Seq<Seq<Datum>> {
    crate::exec::page(
        crate::exec::matching(
            conditions(p.filter@).push(Condition { column: peer, check: Check::OneOf(ks) }),
            source,
        ),
        p.offset,
        p.limit,
    )
}

/// The rows fetched for node `k`, reached through `link` from its parent's
/// rows `parent_rows`, are exactly what the node's own plan reads once
/// narrowed to the distinct keys of the parent's rows; with no key, nothing
/// is read.
pub open spec fn fetched_exactly(reg: Registry, db: Database, t: SelectionTree, k: int, link: Relationship, parent_rows: Seq<Seq<Datum>>, fetched: Seq<Seq<Datum>>) -> bool {
    exists|p: QueryPlan, ks: Seq<Datum>|
        {
            &&& #[trigger] plan_of(reg.relations@[link.target as int], t, k, p)
            &&& #[trigger] ks.no_duplicates()
            &&& (forall|d: Datum| #[trigger] ks.contains(d) <==> is_key(parent_rows, link.column as int, d))
            &&& ks.len() == 0 ==> fetched.len() == 0
            &&& ks.len() > 0 ==> exists|a: Seq<Seq<Datum>>|
                #[trigger] arranged_from(db.source_rows(link.target, p.arguments@), p.order, a)
                    && fetched == narrowed_read(p, link.peer_column as int, ks, a)
        }
}

/// Node `k` was reached through relationship `e` of its parent's relation,
/// and every row fetched for it belongs to some row of its parent: its
/// peer cell is a key of the parent's rows.
pub open spec fn linked(reg: Registry, t: SelectionTree, relations: Seq<Option<usize>>, rows: Seq<Vec<Row>>, k: int, e: int) -> bool {
    let p = parent_of(t, k);
    &&& 0 <= p < k
    &&& relations[p] matches Some(pr) && {
        let owner = reg.relations@[pr as int];
        &&& 0 <= e < owner.relationships@.len()
        &&& owner.relationships@[e].name@ == t.nodes@[k].field@
        &&& relations[k] == Some(owner.relationships@[e].target)
        &&& forall|j: int|
            0 <= j < rows[k]@.len() ==> is_key(
                rows_view(rows[p]@),
                owner.relationships@[e].column as int,
                #[trigger] rows_view(rows[k]@)[j][owner.relationships@[e].peer_column as int],
            ) && owner.relationships@[e].peer_column < rows_view(rows[k]@)[j].len()
    }
}

/// How many nodes were reached through a relationship.
pub open spec fn count_links(s: Seq<Option<usize>>) -> int
    decreases s.len(),
{
    if s.len() == 0 {
        0
    } else {
        count_links(s.drop_last()) + if s.last() is Some {
            1int
        } else {
            0int
        }
    }
}

/// Batch loading issues at most one query for the root and one per
/// relationship edge of the selection, however many rows each level holds:
/// only the root and nodes reached through a relationship ever query.
pub proof fn lemma_query_bound(queried: Seq<bool>, links: Seq<Option<usize>>)
    requires
        queried.len() == links.len(),
        queried.len() > 0,
        forall|k: int| 0 < k < queried.len() ==> (#[trigger] queried[k] ==> links[k] is Some),
    ensures
        count_set(queried) <= 1 + count_links(links.subrange(1, links.len() as int)),
    decreases queried.len(),
{
    let n = queried.len() as int;
    if n == 1 {
        reveal_with_fuel(count_set, 2);
        assert(links.subrange(1, 1) =~= Seq::<Option<usize>>::empty());
    } else {
        lemma_query_bound(queried.drop_last(), links.drop_last());
        assert(links.drop_last().subrange(1, n - 1) =~= links.subrange(1, n).drop_last());
        assert(links.subrange(1, n).last() == links[n - 1]);
    }
}

/// What loading tree `t` from relation `root` gives, when the root's read is
/// further narrowed by the conditions `extra`.
pub open spec fn load_result(reg: Registry, db: Database, t: SelectionTree, root: usize, extra: Seq<Condition>, r: Result<Loaded, FieldError>) -> bool {
    &&& (rejection(reg.relations@[root as int], t, 0) matches Some(e) ==> r == Err::<
            Loaded,
            FieldError,
        >(FieldError { node: 0, error: e }))
    &&& (r is Ok <==> all_compile(reg, t, root))
    &&& (match r {
            Ok(l) => {
                &&& l.rows@.len() == t.nodes@.len()
                &&& l.relations@.len() == t.nodes@.len()
                &&& l.links@.len() == t.nodes@.len()
                &&& 1 <= l.queries <= t.nodes@.len()
                &&& l.queried@.len() == t.nodes@.len()
                &&& l.queried@[0]
                &&& l.queries == count_set(l.queried@)
                &&& forall|k: int|
                    0 < k < t.nodes@.len() ==> (#[trigger] l.queried@[k] <==> (l.links@[k] matches Some(
                        e,
                    ) && parent_has_key(reg, t, l.relations@, l.rows@, k, e as int)))
                &&& l.relations@[0] == Some(root)
                &&& forall|k: int|
                    0 <= k < t.nodes@.len() ==> #[trigger] l.relations@[k] == reached(
                        reg,
                        t,
                        root,
                        k,
                    )
                &&& exists|p: QueryPlan, a: Seq<Seq<Datum>>|
                    #[trigger] plan_of(reg.relations@[root as int], t, 0, p)
                        && #[trigger] arranged_from(db.source_rows(root, p.arguments@), p.order, a)
                        && rows_view(l.rows@[0]@) == crate::exec::page(
                            crate::exec::matching(conditions(p.filter@) + extra, a),
                            p.offset,
                            p.limit,
                        )
                &&& forall|k: int|
                    0 < k < t.nodes@.len() ==> (#[trigger] l.links@[k] matches Some(e) ==> linked(
                        reg,
                        t,
                        l.relations@,
                        l.rows@,
                        k,
                        e as int,
                    ))
                &&& forall|k: int|
                    0 <= k < t.nodes@.len() ==> (#[trigger] l.relations@[k] matches Some(x) ==> x < 4
                        && rejection(reg.relations@[x as int], t, k) is None)
                &&& forall|k: int|
                    0 < k < t.nodes@.len() ==> (#[trigger] l.links@[k] matches Some(e) ==> fetched_exactly(
                        reg,
                        db,
                        t,
                        k,
                        reg.relations@[l.relations@[parent_of(t, k)]->0 as int].relationships@[e as int],
                        rows_view(l.rows@[parent_of(t, k)]@),
                        rows_view(l.rows@[k]@),
                    ))
            },
            Err(e) => e.node < t.nodes@.len() && (reached(reg, t, root, e.node as int) matches Some(
                x,
            ) && rejection(reg.relations@[x as int], t, e.node as int) == Some(e.error)),
        })
}

/// Loads a selection rooted at entity `root`, one query per relationship
/// node rather than one per row; see `load_narrowed`.
pub fn load(reg: &Registry, db: &Database, t: &SelectionTree, root: Entity) -> (r: Result<Loaded, FieldError>)
    requires
        reg.wf(),
        reg.relations@.len() == 4,
        t.wf(),
    ensures
        load_result(*reg, *db, *t, root.index(), Seq::empty(), r),
{
    let none: Vec<Predicate> = Vec::new();
    assert(conditions(none@) =~= Seq::<Condition>::empty());
    load_narrowed(reg, db, t, root, none)
}

/// Loads a selection rooted at entity `root`, its root read narrowed by
/// `extra`, one query per relationship
/// node rather than one per row: the root's plan runs once; then, in node
/// order, each relationship node collects the distinct keys of its parent's
/// rows and runs its own plan, narrowed to those keys, once. A relationship
/// whose parent rows hold no key runs no query. Each read arranges its
/// relation's rows by the plan's order, if any, before it filters and
/// pages them. The rows keep every column, so that `attach` can stitch them.
pub fn load_narrowed(reg: &Registry, db: &Database, t: &SelectionTree, root: Entity, extra: Vec<Predicate>) -> (r: Result<Loaded, FieldError>)
    requires
        reg.wf(),
        reg.relations@.len() == 4,
        t.wf(),
    ensures
        load_result(*reg, *db, *t, root.index(), conditions(extra@), r),
{
    let ri = root.index();
    let plan = match compile(&reg.relations[ri], t, 0) {
        Ok(p) => p,
        Err(e) => {
            assert(reached(*reg, *t, ri, 0) == Some(ri));
            return Err(FieldError { node: 0, error: e });
        },
    };
    let ghost p0 = plan;
    let root_plan = crate::exec::narrow(plan, extra);
    let source = db.rows_of(ri, &root_plan.arguments);
    let arranged = arrange(&source, root_plan.order);
    let first = execute(&root_plan, &arranged);
    let ghost first_view = rows_view(first@);
    let mut rows: Vec<Vec<Row>> = Vec::new();
    let mut relations: Vec<Option<usize>> = Vec::new();
    let mut links: Vec<Option<usize>> = Vec::new();
    let mut queried: Vec<bool> = Vec::new();
    rows.push(first);
    relations.push(Some(ri));
    links.push(None);
    queried.push(true);
    assert(count_set(queried@) == 1) by {
        assert(queried@.drop_last() =~= Seq::<bool>::empty());
        reveal_with_fuel(count_set, 2);
    }
    let mut queries: usize = 1;
    let mut k: usize = 1;
    while k < t.nodes.len()
        invariant
            1 <= k <= t.nodes@.len(),
            t.wf(),
            reg.wf(),
            reg.relations@.len() == 4,
            rows@.len() == k,
            relations@.len() == k,
            links@.len() == k,
            queried@.len() == k,
            queried@[0],
            queries == count_set(queried@),
            1 <= queries <= k,
            forall|j: int|
                0 < j < k ==> (#[trigger] queried@[j] <==> (links@[j] matches Some(e)
                    && parent_has_key(*reg, *t, relations@, rows@, j, e as int))),
            ri == root.index(),
            relations@[0] == Some(ri),
            forall|j: int| 0 <= j < k ==> #[trigger] relations@[j] == reached(*reg, *t, ri, j),
            rejection(reg.relations@[ri as int], *t, 0) is None,
            rows_view(rows@[0]@) == first_view,
            forall|j: int|
                0 <= j < k ==> (#[trigger] relations@[j] matches Some(x) ==> x < 4 && rejection(
                    reg.relations@[x as int],
                    *t,
                    j,
                ) is None),
            forall|j: int|
                0 < j < k ==> (#[trigger] links@[j] matches Some(e) ==> linked(
                    *reg,
                    *t,
                    relations@,
                    rows@,
                    j,
                    e as int,
                )),
            forall|j: int|
                0 < j < k ==> (#[trigger] links@[j] matches Some(e) ==> fetched_exactly(
                    *reg,
                    *db,
                    *t,
                    j,
                    reg.relations@[relations@[parent_of(*t, j)]->0 as int].relationships@[e as int],
                    rows_view(rows@[parent_of(*t, j)]@),
                    rows_view(rows@[j]@),
                )),
        decreases t.nodes@.len() - k,
    {
        assert(t.nodes@[k as int].parent matches Some(p) && p < k);
        let parent = match t.nodes[k].parent {
            Some(p) => p,
            None => 0,
        };
        let mut fetched: Vec<Row> = Vec::new();
        let mut rel: Option<usize> = None;
        let mut link_used: Option<usize> = None;
        let mut ran = false;
        match relations[parent] {
            Some(pr) => {
                let owner = &reg.relations[pr];
                match owner.relationship_index(&t.nodes[k].field) {
                    Some(e) => {
                        let link = &owner.relationships[e];
                        assert(reg.relations@[pr as int].relationships@[e as int] == *link);
                        let target = &reg.relations[link.target];
                        proof {
                            crate::schema::lemma_position(
                                crate::schema::relationship_names(owner.relationships@),
                                t.nodes@[k as int].field@,
                                0,
                            );
                            assert(relations@[parent as int] == reached(*reg, *t, ri, parent as int));
                            assert(reached(*reg, *t, ri, k as int) == Some(link.target));
                        }
                        let child = match compile(target, t, k) {
                            Ok(p) => p,
                            Err(err) => {
                                assert(reached(*reg, *t, ri, k as int) == Some(link.target));
                                return Err(FieldError { node: k, error: err });
                            },
                        };
                        let keys = distinct_keys(&rows[parent], link.column);
                        let ghost ks = row_view(keys);
                        let ghost cp = child;
                        if keys.len() > 0 {
                            let narrowed = restrict(child, link.peer_column, keys);
                            let source = db.rows_of(link.target, &narrowed.arguments);
                            let arranged = arrange(&source, narrowed.order);
                            fetched = execute(&narrowed, &arranged);
                            assert(rows_view(fetched@) == narrowed_read(
                                cp,
                                link.peer_column as int,
                                ks,
                                rows_view(arranged@),
                            ));
                            assert(arranged_from(
                                db.source_rows(link.target, cp.arguments@),
                                cp.order,
                                rows_view(arranged@),
                            ));
                            proof {
                                let ev = rows_view(fetched@);
                                let last = conditions(narrowed.filter@).len() - 1;
                                assert forall|j: int| 0 <= j < ev.len() implies is_key(
                                    rows_view(rows@[parent as int]@),
                                    link.column as int,
                                    #[trigger] ev[j][link.peer_column as int],
                                ) && link.peer_column < ev[j].len() by {
                                    crate::exec::lemma_evaluate_satisfies(
                                        narrowed,
                                        rows_view(arranged@),
                                        j,
                                    );
                                    assert(crate::filter::holds(
                                        conditions(narrowed.filter@)[last],
                                        ev[j],
                                    ));
                                    assert(row_view(keys).contains(ev[j][link.peer_column as int]));
                                }
                            }
                            queries += 1;
                            ran = true;
                        }
                        proof {
                            assert(parent_of(*t, k as int) == parent as int);
                            assert(relations@[parent as int] == Some(pr));
                            assert(reg.relations@[pr as int].relationships@[e as int] == *link);
                            if keys.len() > 0 {
                                assert(ks.contains(ks[0]));
                                assert(is_key(rows_view(rows@[parent as int]@), link.column as int, ks[0]));
                                assert(parent_has_key(*reg, *t, relations@, rows@, k as int, e as int));
                            }
                            if parent_has_key(*reg, *t, relations@, rows@, k as int, e as int) {
                                let d = choose|d: Datum|
                                    #[trigger] is_key(
                                        rows_view(rows@[parent as int]@),
                                        link.column as int,
                                        d,
                                    );
                                assert(ks.contains(d));
                            }
                            assert(ran <==> parent_has_key(*reg, *t, relations@, rows@, k as int, e as int));
                        }
                        rel = Some(link.target);
                        link_used = Some(e);
                        proof {
                            crate::schema::lemma_position(
                                crate::schema::relationship_names(owner.relationships@),
                                t.nodes@[k as int].field@,
                                0,
                            );
                            let nr = relations@.push(rel);
                            let nrows = rows@.push(fetched);
                            assert(nrows[k as int] == fetched);
                            assert(nrows[parent as int] == rows@[parent as int]);
                            assert(nr[parent as int] == Some(pr));
                            assert(linked(*reg, *t, nr, nrows, k as int, e as int));
                            assert(plan_of(reg.relations@[link.target as int], *t, k as int, cp));
                            assert(ks.len() == 0 ==> rows_view(fetched@).len() == 0);
                            assert(forall|d: Datum|
                                #[trigger] ks.contains(d) <==> is_key(
                                    rows_view(rows@[parent as int]@),
                                    link.column as int,
                                    d,
                                ));
                            assert(fetched_exactly(
                                *reg,
                                *db,
                                *t,
                                k as int,
                                *link,
                                rows_view(rows@[parent as int]@),
                                rows_view(fetched@),
                            ));
                        }
                    },
                    None => {
                        assert(relations@[parent as int] == reached(*reg, *t, ri, parent as int));
                        assert(reached(*reg, *t, ri, k as int) is None);
                    },
                }
            },
            None => {
                assert(relations@[parent as int] == reached(*reg, *t, ri, parent as int));
                assert(reached(*reg, *t, ri, k as int) is None);
            },
        }
        let ghost (old_relations, old_links, old_rows, old_queried) = (relations@, links@, rows@, queried@);
        assert(link_used is None ==> !ran);
        assert(link_used matches Some(e) ==> (ran <==> parent_has_key(
            *reg,
            *t,
            relations@,
            rows@,
            k as int,
            e as int,
        )));
        let ghost expect = link_used matches Some(e) ==> (linked(
            *reg,
            *t,
            relations@.push(rel),
            rows@.push(fetched),
            k as int,
            e as int,
        ) && (relations@[parent as int] matches Some(pr) && fetched_exactly(
            *reg,
            *db,
            *t,
            k as int,
            reg.relations@[pr as int].relationships@[e as int],
            rows_view(rows@[parent as int]@),
            rows_view(fetched@),
        )));
        assert(expect);
        let ghost fv = fetched;
        let ghost rv = rel;
        rows.push(fetched);
        relations.push(rel);
        links.push(link_used);
        queried.push(ran);
        proof {
            assert(queried@.drop_last() =~= old_queried);
            assert forall|j: int|
                0 < j <= k implies (#[trigger] queried@[j] <==> (links@[j] matches Some(e)
                    && parent_has_key(*reg, *t, relations@, rows@, j, e as int))) by {
                let p = parent_of(*t, j);
                if j == k {
                    assert(relations@ =~= old_relations.push(rv));
                    assert(rows@ =~= old_rows.push(fv));
                    assert(rows@[p] == old_rows[p]);
                    assert(relations@[p] == old_relations[p]);
                } else {
                    assert(old_queried[j] == queried@[j]);
                    assert(old_links[j] == links@[j]);
                    assert(rows@[p] == old_rows[p]);
                    assert(relations@[p] == old_relations[p]);
                }
            }
            assert forall|j: int|
                0 < j <= k && (#[trigger] links@[j] matches Some(e)) implies linked(
                *reg,
                *t,
                relations@,
                rows@,
                j,
                links@[j]->0 as int,
            ) by {
                if j == k {
                    assert(relations@ =~= old_relations.push(rv));
                    assert(rows@ =~= old_rows.push(fv));
                } else {
                    assert(old_links[j] == links@[j]);
                    assert(linked(*reg, *t, old_relations, old_rows, j, links@[j]->0 as int));
                    let p = parent_of(*t, j);
                    assert(rows@[p] == old_rows[p]);
                    assert(rows@[j] == old_rows[j]);
                    assert(relations@[p] == old_relations[p]);
                    assert(relations@[j] == old_relations[j]);
                }
            }
            assert forall|j: int|
                0 < j <= k && (#[trigger] links@[j] matches Some(e)) implies fetched_exactly(
                *reg,
                *db,
                *t,
                j,
                reg.relations@[relations@[parent_of(*t, j)]->0 as int].relationships@[links@[j]->0 as int],
                rows_view(rows@[parent_of(*t, j)]@),
                rows_view(rows@[j]@),
            ) by {
                let p = parent_of(*t, j);
                if j == k {
                    assert(relations@ =~= old_relations.push(rv));
                    assert(rows@ =~= old_rows.push(fv));
                    assert(p == parent as int);
                } else {
                    assert(old_links[j] == links@[j]);
                    assert(rows@[p] == old_rows[p]);
                    assert(rows@[j] == old_rows[j]);
                    assert(relations@[p] == old_relations[p]);
                }
            }
            assert forall|j: int| 0 <= j <= k implies #[trigger] relations@[j] == reached(
                *reg,
                *t,
                ri,
                j,
            ) by {
                if j < k {
                    assert(relations@[j] == old_relations[j]);
                } else {
                    assert(relations@ =~= old_relations.push(rv));
                }
            }
            assert forall|j: int|
                0 <= j <= k implies (#[trigger] relations@[j] matches Some(x) ==> x < 4 && rejection(
                    reg.relations@[x as int],
                    *t,
                    j,
                ) is None) by {
                if j < k {
                    assert(relations@[j] == old_relations[j]);
                }
            }
        }
        k += 1;
    }
    assert forall|j: int|
        0 <= j < t.nodes@.len() implies (#[trigger] reached(*reg, *t, ri, j) matches Some(x)
            ==> rejection(reg.relations@[x as int], *t, j) is None) by {
        assert(relations@[j] == reached(*reg, *t, ri, j));
    }
    Ok(Loaded { relations, links, rows, queried, queries })
}

/// Checks a whole selection rooted at entity `root` without reading any
/// rows: every node that reads a relation must compile against it.
pub fn validate(reg: &Registry, t: &SelectionTree, root: Entity) -> (r: Result<(), FieldError>)
    requires
        reg.wf(),
        reg.relations@.len() == 4,
        t.wf(),
    ensures
        r is Ok <==> all_compile(*reg, *t, root.index()),
        r matches Err(e) ==> e.node < t.nodes@.len() && (reached(*reg, *t, root.index(), e.node as int) matches Some(
            x,
        ) && rejection(reg.relations@[x as int], *t, e.node as int) == Some(e.error)),
{
    let ri = root.index();
    let mut relations: Vec<Option<usize>> = Vec::new();
    let mut k: usize = 0;
    while k < t.nodes.len()
        invariant
            k <= t.nodes@.len(),
            t.wf(),
            reg.wf(),
            reg.relations@.len() == 4,
            ri == root.index(),
            relations@.len() == k,
            forall|j: int| 0 <= j < k ==> #[trigger] relations@[j] == reached(*reg, *t, ri, j),
            forall|j: int|
                0 <= j < k ==> (#[trigger] relations@[j] matches Some(x) ==> x < 4 && rejection(
                    reg.relations@[x as int],
                    *t,
                    j,
                ) is None),
        decreases t.nodes@.len() - k,
    {
        let ghost old_relations = relations@;
        let mut rel: Option<usize> = None;
        if k == 0 {
            rel = Some(ri);
            assert(reached(*reg, *t, ri, 0) == Some(ri));
        } else {
            assert(t.nodes@[k as int].parent matches Some(p) && p < k);
            let parent = match t.nodes[k].parent {
                Some(p) => p,
                None => 0,
            };
            assert(relations@[parent as int] == reached(*reg, *t, ri, parent as int));
            match relations[parent] {
                Some(pr) => {
                    let owner = &reg.relations[pr];
                    match owner.relationship_index(&t.nodes[k].field) {
                        Some(e) => {
                            let link = &owner.relationships[e];
                            proof {
                                crate::schema::lemma_position(
                                    crate::schema::relationship_names(owner.relationships@),
                                    t.nodes@[k as int].field@,
                                    0,
                                );
                                assert(reg.relations@[pr as int].relationships@[e as int] == *link);
                            }
                            rel = Some(link.target);
                        },
                        None => {},
                    }
                },
                None => {},
            }
            assert(reached(*reg, *t, ri, k as int) == rel);
        }
        match rel {
            Some(x) => {
                match compile(&reg.relations[x], t, k) {
                    Ok(_) => {},
                    Err(e) => {
                        return Err(FieldError { node: k, error: e });
                    },
                }
            },
            None => {},
        }
        relations.push(rel);
        proof {
            assert forall|j: int| 0 <= j <= k implies #[trigger] relations@[j] == reached(
                *reg,
                *t,
                ri,
                j,
            ) by {
                if j < k {
                    assert(relations@[j] == old_relations[j]);
                }
            }
            assert forall|j: int|
                0 <= j <= k implies (#[trigger] relations@[j] matches Some(x) ==> x < 4 && rejection(
                    reg.relations@[x as int],
                    *t,
                    j,
                ) is None) by {
                if j < k {
                    assert(relations@[j] == old_relations[j]);
                }
            }
        }
        k += 1;
    }
    assert forall|j: int|
        0 <= j < t.nodes@.len() implies (#[trigger] reached(*reg, *t, ri, j) matches Some(x)
            ==> rejection(reg.relations@[x as int], *t, j) is None) by {
        assert(relations@[j] == reached(*reg, *t, ri, j));
    }
    Ok(())
}

} // verus!
