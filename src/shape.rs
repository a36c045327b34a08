use vstd::prelude::*;
use crate::exec::{project, project_rows};
use crate::loader::{attach, linked, linked_upto, parent_of, Loaded};
use crate::plan::{compile, projection_upto, rejection};
use crate::registry::Registry;
use crate::selection::SelectionTree;
use crate::value::{row_view, rows_view, Datum, Row};

verus! {

/// A loaded selection in the shape the caller asked for: for each node
/// that read a relation, its rows cut down to the fields it selected; for
/// each relationship node, for each row of its parent, the positions of
/// the node's rows that belong to that parent row (to-one: at most one in
/// practice; to-many: in order of arrival, possibly none).
#[derive(Debug)]
pub struct Shaped {
    pub columns: Vec<Vec<Row>>,
    pub children: Vec<Vec<Vec<usize>>>,
}

/// The structural facts that a successful load gives.
pub open spec fn well_loaded(reg: Registry, t: SelectionTree, l: Loaded) -> bool {
    &&& l.rows@.len() == t.nodes@.len()
    &&& l.relations@.len() == t.nodes@.len()
    &&& l.links@.len() == t.nodes@.len()
    &&& forall|k: int|
        0 <= k < t.nodes@.len() ==> (#[trigger] l.relations@[k] matches Some(x) ==> x < 4
            && rejection(reg.relations@[x as int], t, k) is None)
    &&& forall|k: int|
        0 < k < t.nodes@.len() ==> (#[trigger] l.links@[k] matches Some(e) ==> linked(
            reg,
            t,
            l.relations@,
            l.rows@,
            k,
            e as int,
        ))
}

/// Shapes a loaded selection: projects each node's rows onto the node's
/// selected columns and stitches each relationship node's rows to the rows
/// of its parent by key.
pub fn shape(reg: &Registry, t: &SelectionTree, l: &Loaded) -> (r: Shaped)
    requires
        reg.wf(),
        reg.relations@.len() == 4,
        t.wf(),
        well_loaded(*reg, *t, *l),
    ensures
        r.columns@.len() == t.nodes@.len(),
        r.children@.len() == t.nodes@.len(),
        forall|k: int|
            0 <= k < t.nodes@.len() ==> match #[trigger] l.relations@[k] {
                Some(x) => rows_view(r.columns@[k]@) == rows_view(l.rows@[k]@).map_values(
                    |row: Seq<Datum>|
                        project(
                            row,
                            projection_upto(
                                reg.relations@[x as int],
                                t.nodes@,
                                k,
                                t.nodes@.len() as int,
                            ),
                        ),
                ),
                None => r.columns@[k]@.len() == 0,
            },
        forall|k: int|
            0 < k < t.nodes@.len() ==> match #[trigger] l.links@[k] {
                Some(e) => {
                    let p = parent_of(*t, k);
                    let link = reg.relations@[l.relations@[p]->0 as int].relationships@[e as int];
                    &&& r.children@[k]@.len() == l.rows@[p]@.len()
                    &&& forall|i: int|
                        0 <= i < l.rows@[p]@.len() ==> (#[trigger] r.children@[k]@[i])@ == linked_upto(
                            row_view(l.rows@[p]@[i]),
                            link.column as int,
                            rows_view(l.rows@[k]@),
                            link.peer_column as int,
                            l.rows@[k]@.len() as int,
                        )
                },
                None => r.children@[k]@.len() == 0,
            },
{
    let n = t.nodes.len();
    let mut columns: Vec<Vec<Row>> = Vec::new();
    let mut children: Vec<Vec<Vec<usize>>> = Vec::new();
    let mut k: usize = 0;
    while k < n
        invariant
            k <= n,
            n == t.nodes@.len(),
            reg.wf(),
            reg.relations@.len() == 4,
            t.wf(),
            well_loaded(*reg, *t, *l),
            columns@.len() == k,
            children@.len() == k,
            forall|j: int|
                0 <= j < k ==> match #[trigger] l.relations@[j] {
                    Some(x) => rows_view(columns@[j]@) == rows_view(l.rows@[j]@).map_values(
                        |row: Seq<Datum>|
                            project(
                                row,
                                projection_upto(reg.relations@[x as int], t.nodes@, j, n as int),
                            ),
                    ),
                    None => columns@[j]@.len() == 0,
                },
            forall|j: int|
                0 < j < k ==> match #[trigger] l.links@[j] {
                    Some(e) => {
                        let p = parent_of(*t, j);
                        let link = reg.relations@[l.relations@[p]->0 as int].relationships@[e as int];
                        &&& children@[j]@.len() == l.rows@[p]@.len()
                        &&& forall|i: int|
                            0 <= i < l.rows@[p]@.len() ==> (#[trigger] children@[j]@[i])@
                                == linked_upto(
                                row_view(l.rows@[p]@[i]),
                                link.column as int,
                                rows_view(l.rows@[j]@),
                                link.peer_column as int,
                                l.rows@[j]@.len() as int,
                            )
                    },
                    None => children@[j]@.len() == 0,
                },
        decreases n - k,
    {
        let ghost (old_columns, old_children) = (columns@, children@);
        let projected: Vec<Row> = match l.relations[k] {
            Some(x) => {
                assert(l.relations@[k as int] matches Some(y) && y < 4);
                match compile(&reg.relations[x], t, k) {
                    Ok(p) => project_rows(&l.rows[k], &p.projection),
                    Err(_) => Vec::new(),
                }
            },
            None => Vec::new(),
        };
        let mut stitched: Vec<Vec<usize>> = Vec::new();
        if k > 0 {
            match l.links[k] {
                Some(e) => {
                    assert(linked(*reg, *t, l.relations@, l.rows@, k as int, e as int));
                    let parent = match t.nodes[k].parent {
                        Some(p) => p,
                        None => 0,
                    };
                    assert(parent as int == parent_of(*t, k as int));
                    let pr = match l.relations[parent] {
                        Some(pr) => pr,
                        None => 0,
                    };
                    let link = &reg.relations[pr].relationships[e];
                    let mut i: usize = 0;
                    while i < l.rows[parent].len()
                        invariant
                            l.rows@.len() == n,
                            parent < k < n,
                            i <= l.rows@[parent as int]@.len(),
                            stitched@.len() == i,
                            forall|q: int|
                                0 <= q < i ==> (#[trigger] stitched@[q])@ == linked_upto(
                                    row_view(l.rows@[parent as int]@[q]),
                                    link.column as int,
                                    rows_view(l.rows@[k as int]@),
                                    link.peer_column as int,
                                    l.rows@[k as int]@.len() as int,
                                ),
                        decreases l.rows@[parent as int]@.len() - i,
                    {
                        stitched.push(attach(&l.rows[parent][i], link.column, &l.rows[k], link.peer_column));
                        i += 1;
                    }
                },
                None => {},
            }
        }
        columns.push(projected);
        children.push(stitched);
        proof {
            assert forall|j: int| 0 <= j < k implies columns@[j] == old_columns[j] && children@[j]
                == old_children[j] by {}
        }
        k += 1;
    }
    Shaped { columns, children }
}

} // verus!
