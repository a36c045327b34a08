use vstd::prelude::*;
use crate::filter::{conditions, Condition, Predicate};
use crate::schema::{column_names, position, relationship_names, Relation};
use crate::selection::{Direction, FieldFilter, NamedArgument, OrderSpec, SelectionNode, SelectionTree};

verus! {

/// Why a selection could not be compiled. All are caller errors, found
/// before any query runs.
#[derive(Debug, Clone, Copy, PartialEq, Eq, Structural)]
pub enum CompileError {
    /// A zero or negative limit.
    InvalidLimit,
    /// A negative offset.
    InvalidOffset,
    /// A selected, filtered or ordered field that the relation does not have.
    UnknownField,
}

/// An order on one column.
#[derive(Debug, Clone, Copy, PartialEq, Eq, Structural)]
pub struct OrderBy {
    pub column: usize,
    pub descending: bool,
}

/// A relationship of the compiled relation to follow, and the selection
/// node that asked for it.
#[derive(Debug, Clone, Copy, PartialEq, Eq, Structural)]
pub struct Follow {
    pub relationship: usize,
    pub node: usize,
}

/// One executable query over one relation: the bound parameters (virtual
/// relations only), the projected columns, the relationships to resolve
/// afterwards, the filter, the order and the page.
#[derive(Debug, Clone)]
pub struct QueryPlan {
    pub arguments: Vec<Option<i64>>,
    pub projection: Vec<usize>,
    pub follow: Vec<Follow>,
    pub filter: Vec<Predicate>,
    pub order: Option<OrderBy>,
    pub limit: Option<u64>,
    pub offset: u64,
}

pub open spec fn is_child(t: Seq<SelectionNode>, node: int, k: int) -> bool {
    t[k].parent == Some(node as usize)
}

pub open spec fn column_of(rel: Relation, name: Seq<char>) -> Option<int> {
    position(column_names(rel.columns@), name)
}

pub open spec fn relationship_of(rel: Relation, name: Seq<char>) -> Option<int> {
    position(relationship_names(rel.relationships@), name)
}

/// The columns that the sub-fields of `node` among the first `n` nodes
/// name, in order: only scalar fields contribute. A name that is both a
/// relationship and a column (a foreign key) selects the relationship.
pub open spec fn projection_upto(rel: Relation, t: Seq<SelectionNode>, node: int, n: int) -> Seq<usize>
    decreases n,
{
    if n <= 0 {
        Seq::empty()
    } else {
        let s = projection_upto(rel, t, node, n - 1);
        if is_child(t, node, n - 1) && relationship_of(rel, t[n - 1].field@) is None && column_of(
            rel,
            t[n - 1].field@,
        ) is Some {
            s.push(column_of(rel, t[n - 1].field@)->0 as usize)
        } else {
            s
        }
    }
}

/// The relationships that the sub-fields of `node` among the first `n`
/// nodes name, in order, each with its node.
pub open spec fn follow_upto(rel: Relation, t: Seq<SelectionNode>, node: int, n: int) -> Seq<Follow>
    decreases n,
{
    if n <= 0 {
        Seq::empty()
    } else {
        let s = follow_upto(rel, t, node, n - 1);
        if is_child(t, node, n - 1) && relationship_of(rel, t[n - 1].field@) is Some {
            s.push(
                Follow {
                    relationship: relationship_of(rel, t[n - 1].field@)->0 as usize,
                    node: (n - 1) as usize,
                },
            )
        } else {
            s
        }
    }
}

/// Column pruning: the projection holds exactly the columns that the scalar
/// sub-fields of `node` name, and nothing else.
pub proof fn lemma_projection_exact(rel: Relation, t: Seq<SelectionNode>, node: int, n: int)
    requires
        0 <= n <= t.len(),
    ensures
        forall|j: int|
            0 <= j < projection_upto(rel, t, node, n).len() ==> exists|k: int|
                0 <= k < n && is_child(t, node, k) && relationship_of(rel, t[k].field@) is None
                    && #[trigger] column_of(rel, t[k].field@) == Some(
                    #[trigger] projection_upto(rel, t, node, n)[j] as int,
                ),
        forall|k: int|
            0 <= k < n && is_child(t, node, k) && relationship_of(rel, t[k].field@) is None
                && #[trigger] column_of(rel, t[k].field@) is Some ==> projection_upto(
                rel,
                t,
                node,
                n,
            ).contains(column_of(rel, t[k].field@)->0 as usize),
    decreases n,
{
    if n > 0 {
        lemma_projection_exact(rel, t, node, n - 1);
        let prev = projection_upto(rel, t, node, n - 1);
        let cur = projection_upto(rel, t, node, n);
        crate::schema::lemma_position(column_names(rel.columns@), t[n - 1].field@, 0);
        assert(rel.columns.len() == rel.columns@.len());
        assert forall|j: int| 0 <= j < cur.len() implies #[trigger] cur[j] == cur[j] && exists|k: int|
            0 <= k < n && is_child(t, node, k) && relationship_of(rel, t[k].field@) is None
                && #[trigger] column_of(rel, t[k].field@) == Some(cur[j] as int) by {
            if j < prev.len() {
                assert(cur[j] == prev[j]);
                let k = choose|k: int|
                    0 <= k < n - 1 && is_child(t, node, k) && relationship_of(rel, t[k].field@) is None
                        && #[trigger] column_of(rel, t[k].field@) == Some(prev[j] as int);
                assert(column_of(rel, t[k].field@) == Some(cur[j] as int));
            } else {
                assert(column_of(rel, t[n - 1].field@) == Some(cur[j] as int));
            }
        }
        assert forall|k: int|
            0 <= k < n && is_child(t, node, k) && relationship_of(rel, t[k].field@) is None
                && #[trigger] column_of(rel, t[k].field@) is Some implies cur.contains(
            column_of(rel, t[k].field@)->0 as usize,
        ) by {
            crate::schema::lemma_position(column_names(rel.columns@), t[k].field@, 0);
            if k < n - 1 {
                let c = column_of(rel, t[k].field@)->0 as usize;
                assert(prev.contains(c));
                let j = choose|j: int| 0 <= j < prev.len() && prev[j] == c;
                assert(cur[j] == c);
            } else {
                assert(cur[cur.len() - 1] == column_of(rel, t[k].field@)->0 as usize);
            }
        }
    }
}

/// Every sub-field of `node` names a column or a relationship.
pub open spec fn fields_resolve(rel: Relation, t: Seq<SelectionNode>, node: int) -> bool {
    forall|k: int|
        0 <= k < t.len() && is_child(t, node, k) ==> column_of(rel, (#[trigger] t[k]).field@) is Some
            || relationship_of(rel, t[k].field@) is Some
}

/// Every filter leaf names a column.
pub open spec fn filters_resolve(rel: Relation, fs: Seq<FieldFilter>) -> bool {
    forall|k: int| 0 <= k < fs.len() ==> column_of(rel, (#[trigger] fs[k]).field@) is Some
}

/// The conditions that resolved filter leaves stand for.
pub open spec fn filter_conditions(rel: Relation, fs: Seq<FieldFilter>) -> Seq<Condition> {
    fs.map_values(|f: FieldFilter| Condition { column: column_of(rel, f.field@)->0, check: f.test@ })
}

pub open spec fn order_resolves(rel: Relation, o: Option<OrderSpec>) -> bool {
    o matches Some(spec) ==> column_of(rel, spec.field@) is Some
}

pub open spec fn order_of(rel: Relation, o: Option<OrderSpec>) -> Option<OrderBy> {
    match o {
        Some(spec) => Some(
            OrderBy {
                column: column_of(rel, spec.field@)->0 as usize,
                descending: spec.direction == Direction::Desc,
            },
        ),
        None => None,
    }
}

pub open spec fn limit_ok(l: Option<i64>) -> bool {
    l matches Some(x) ==> x > 0
}

pub open spec fn offset_ok(o: Option<i64>) -> bool {
    o matches Some(x) ==> x >= 0
}

pub open spec fn argument_names(args: Seq<NamedArgument>) -> Seq<Seq<char>> {
    args.map_values(|a: NamedArgument| a.name@)
}

/// The value bound to each declared parameter: the argument of that name,
/// or null when none is given.
pub open spec fn bind_arguments(params: Seq<String>, args: Seq<NamedArgument>) -> Seq<Option<i64>> {
    params.map_values(
        |p: String|
            match position(argument_names(args), p@) {
                Some(j) => args[j].value,
                None => None,
            },
    )
}

/// Every name used by node `node` resolves against the relation.
pub open spec fn names_resolve(rel: Relation, t: SelectionTree, node: int) -> bool {
    &&& fields_resolve(rel, t.nodes@, node)
    &&& filters_resolve(rel, t.nodes@[node].arguments.filter@)
    &&& order_resolves(rel, t.nodes@[node].arguments.order)
}

/// The error that compiling node `node` against the relation reports, if
/// any.
pub open spec fn rejection(rel: Relation, t: SelectionTree, node: int) -> Option<CompileError> {
    let a = t.nodes@[node].arguments;
    if !limit_ok(a.limit) {
        Some(CompileError::InvalidLimit)
    } else if !offset_ok(a.offset) {
        Some(CompileError::InvalidOffset)
    } else if !names_resolve(rel, t, node) {
        Some(CompileError::UnknownField)
    } else {
        None
    }
}

/// The plan is what node `node` of the tree asks of the relation.
pub open spec fn plan_of(rel: Relation, t: SelectionTree, node: int, p: QueryPlan) -> bool {
    let a = t.nodes@[node].arguments;
    &&& p.arguments@ == bind_arguments(rel.parameters@, a.parameters@)
    &&& p.projection@ == projection_upto(rel, t.nodes@, node, t.nodes@.len() as int)
    &&& p.follow@ == follow_upto(rel, t.nodes@, node, t.nodes@.len() as int)
    &&& conditions(p.filter@) == filter_conditions(rel, a.filter@)
    &&& p.order == order_of(rel, a.order)
    &&& p.limit == match a.limit {
        Some(x) => Some(x as u64),
        None => None::<u64>,
    }
    &&& p.offset == match a.offset {
        Some(x) => x as u64,
        None => 0u64,
    }
}

fn argument_index(args: &Vec<NamedArgument>, name: &String) -> (r: Option<usize>)
    ensures
        match r {
            Some(i) => i < args@.len() && position(argument_names(args@), name@) == Some(i as int),
            None => position(argument_names(args@), name@) is None,
        },
{
    let ghost ns = argument_names(args@);
    let mut i: usize = 0;
    while i < args.len()
        invariant
            i <= args@.len(),
            ns == argument_names(args@),
            position(ns, name@) == crate::schema::position_from(ns, name@, i as int),
        decreases args@.len() - i,
    {
        if args[i].name == *name {
            return Some(i);
        }
        i += 1;
    }
    None
}

fn bind(rel: &Relation, args: &Vec<NamedArgument>) -> (r: Vec<Option<i64>>)
    ensures
        r@ == bind_arguments(rel.parameters@, args@),
{
    let ghost names = argument_names(args@);
    let mut r: Vec<Option<i64>> = Vec::new();
    let mut i: usize = 0;
    while i < rel.parameters.len()
        invariant
            i <= rel.parameters@.len(),
            names == argument_names(args@),
            r@ == bind_arguments(rel.parameters@, args@).subrange(0, i as int),
        decreases rel.parameters@.len() - i,
    {
        let p = &rel.parameters[i];
        proof {
            crate::schema::lemma_position(argument_names(args@), p@, 0);
        }
        let idx = argument_index(args, p);
        let found = match idx {
            Some(j) => {
                args[j].value
            },
            None => None,
        };
        assert(bind_arguments(rel.parameters@, args@)[i as int] == found);
        r.push(found);
        assert(r@ =~= bind_arguments(rel.parameters@, args@).subrange(0, i + 1));
        i += 1;
    }
    assert(r@ =~= bind_arguments(rel.parameters@, args@));
    r
}

/// The filter leaves as predicates on column positions.
fn compile_filter(rel: &Relation, fs: &Vec<FieldFilter>) -> (r: Option<Vec<Predicate>>)
    ensures
        match r {
            Some(f) => filters_resolve(*rel, fs@) && conditions(f@) == filter_conditions(*rel, fs@),
            None => !filters_resolve(*rel, fs@),
        },
{
    let mut out: Vec<Predicate> = Vec::new();
    let mut i: usize = 0;
    while i < fs.len()
        invariant
            i <= fs@.len(),
            filters_resolve(*rel, fs@.subrange(0, i as int)),
            conditions(out@) == filter_conditions(*rel, fs@.subrange(0, i as int)),
        decreases fs@.len() - i,
    {
        let ghost pre = fs@.subrange(0, i as int);
        let ghost next = fs@.subrange(0, i + 1);
        match rel.column_index(&fs[i].field) {
            Some(c) => {
                let ghost before = out@;
                let p = Predicate { column: c, test: fs[i].test.duplicate() };
                out.push(p);
                assert(next =~= pre.push(fs@[i as int]));
                let ghost cond = Condition { column: c as int, check: fs@[i as int].test@ };
                assert(p@ == cond);
                assert(conditions(out@) =~= conditions(before).push(cond));
                assert(filter_conditions(*rel, next) =~= filter_conditions(*rel, pre).push(cond));
                assert forall|k: int| 0 <= k < next.len() implies column_of(
                    *rel,
                    (#[trigger] next[k]).field@,
                ) is Some by {
                    if k < i {
                        assert(next[k] == pre[k]);
                    }
                }
            },
            None => {
                return None;
            },
        }
        i += 1;
    }
    assert(fs@.subrange(0, fs@.len() as int) =~= fs@);
    Some(out)
}

/// The projected columns and followed relationships of node `node`, or
/// `None` when one of its sub-fields names neither.
fn select_fields(rel: &Relation, t: &SelectionTree, node: usize) -> (r: Option<(Vec<usize>, Vec<Follow>)>)
    requires
        node < t.nodes@.len(),
    ensures
        match r {
            Some((projection, follow)) => {
                &&& fields_resolve(*rel, t.nodes@, node as int)
                &&& projection@ == projection_upto(*rel, t.nodes@, node as int, t.nodes@.len() as int)
                &&& follow@ == follow_upto(*rel, t.nodes@, node as int, t.nodes@.len() as int)
            },
            None => !fields_resolve(*rel, t.nodes@, node as int),
        },
{
    let ghost nodes = t.nodes@;
    let mut projection: Vec<usize> = Vec::new();
    let mut follow: Vec<Follow> = Vec::new();
    let mut k: usize = 0;
    while k < t.nodes.len()
        invariant
            k <= nodes.len(),
            nodes == t.nodes@,
            projection@ == projection_upto(*rel, nodes, node as int, k as int),
            follow@ == follow_upto(*rel, nodes, node as int, k as int),
            forall|j: int|
                0 <= j < k && is_child(nodes, node as int, j) ==> column_of(
                    *rel,
                    (#[trigger] nodes[j]).field@,
                ) is Some || relationship_of(*rel, nodes[j].field@) is Some,
        decreases nodes.len() - k,
    {
        if t.nodes[k].parent == Some(node) {
            match rel.relationship_index(&t.nodes[k].field) {
                Some(e) => {
                    follow.push(Follow { relationship: e, node: k });
                },
                None => match rel.column_index(&t.nodes[k].field) {
                    Some(c) => {
                        projection.push(c);
                    },
                    None => {
                        assert(is_child(nodes, node as int, k as int));
                        return None;
                    },
                },
            }
        }
        k += 1;
    }
    Some((projection, follow))
}

/// Compiles node `node` of the selection tree against the relation it
/// reads. The checks come in a fixed order: the limit must be positive,
/// the offset not negative, and every selected, filtered and ordered field
/// must name a column (or, for selected fields, a relationship). The plan
/// projects exactly the selected scalar columns, in selection order, and
/// records the selected relationships for the batch loader.
pub fn compile(rel: &Relation, t: &SelectionTree, node: usize) -> (r: Result<QueryPlan, CompileError>)
    requires
        node < t.nodes@.len(),
    ensures
        r is Ok <==> limit_ok(t.nodes@[node as int].arguments.limit) && offset_ok(
            t.nodes@[node as int].arguments.offset,
        ) && names_resolve(*rel, *t, node as int),
        r == Err::<QueryPlan, CompileError>(CompileError::InvalidLimit) <==> !limit_ok(
            t.nodes@[node as int].arguments.limit,
        ),
        r == Err::<QueryPlan, CompileError>(CompileError::InvalidOffset) <==> limit_ok(
            t.nodes@[node as int].arguments.limit,
        ) && !offset_ok(t.nodes@[node as int].arguments.offset),
        r == Err::<QueryPlan, CompileError>(CompileError::UnknownField) <==> limit_ok(
            t.nodes@[node as int].arguments.limit,
        ) && offset_ok(t.nodes@[node as int].arguments.offset) && !names_resolve(
            *rel,
            *t,
            node as int,
        ),
        r matches Ok(p) ==> plan_of(*rel, *t, node as int, p),
        r matches Err(e) ==> rejection(*rel, *t, node as int) == Some(e),
        r is Ok ==> rejection(*rel, *t, node as int) is None,
{
    let args = &t.nodes[node].arguments;
    let limit: Option<u64> = match args.limit {
        Some(l) => {
            if l <= 0 {
                return Err(CompileError::InvalidLimit);
            }
            Some(l as u64)
        },
        None => None,
    };
    let offset: u64 = match args.offset {
        Some(o) => {
            if o < 0 {
                return Err(CompileError::InvalidOffset);
            }
            o as u64
        },
        None => 0,
    };
    let (projection, follow) = match select_fields(rel, t, node) {
        Some(pf) => pf,
        None => {
            return Err(CompileError::UnknownField);
        },
    };
    let filter = match compile_filter(rel, &args.filter) {
        Some(f) => f,
        None => {
            return Err(CompileError::UnknownField);
        },
    };
    let order: Option<OrderBy> = match &args.order {
        Some(o) => match rel.column_index(&o.field) {
            Some(c) => Some(
                OrderBy {
                    column: c,
                    descending: match o.direction {
                        Direction::Desc => true,
                        Direction::Asc => false,
                    },
                },
            ),
            None => {
                return Err(CompileError::UnknownField);
            },
        },
        None => None,
    };
    let arguments = bind(rel, &args.parameters);
    Ok(QueryPlan { arguments, projection, follow, filter, order, limit, offset })
}

} // verus!
