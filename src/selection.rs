use vstd::prelude::*;
use crate::filter::Test;

verus! {

/// Sort direction of an order argument.
#[derive(Debug, Clone, Copy, PartialEq, Eq, Structural)]
pub enum Direction {
    Asc,
    Desc,
}

/// One leaf of a filter argument: a test on the field named `field`.
#[derive(Debug, Clone)]
pub struct FieldFilter {
    pub field: String,
    pub test: Test,
}

/// An order argument: one field and a direction.
#[derive(Debug, Clone)]
pub struct OrderSpec {
    pub field: String,
    pub direction: Direction,
}

/// A value for a parameter of a virtual relation, by parameter name; `None`
/// is an explicit null.
#[derive(Debug, Clone)]
pub struct NamedArgument {
    pub name: String,
    pub value: Option<i64>,
}

/// The arguments of one field occurrence. The filter leaves are conjoined.
#[derive(Debug, Clone)]
pub struct Arguments {
    pub filter: Vec<FieldFilter>,
    pub order: Option<OrderSpec>,
    pub limit: Option<i64>,
    pub offset: Option<i64>,
    pub parameters: Vec<NamedArgument>,
}

/// One field occurrence of a selection. Its sub-fields are the nodes whose
/// `parent` is this node's position.
#[derive(Debug, Clone)]
pub struct SelectionNode {
    pub field: String,
    pub parent: Option<usize>,
    pub arguments: Arguments,
}

/// A selection tree stored by position: node 0 is the root, and every other
/// node names a parent that comes before it.
#[derive(Debug, Clone)]
pub struct SelectionTree {
    pub nodes: Vec<SelectionNode>,
}

impl Arguments {
    /// No filter, order, pagination or parameters.
    pub fn none() -> (r: Arguments)
        ensures
            r.filter@.len() == 0,
            r.order is None,
            r.limit is None,
            r.offset is None,
            r.parameters@.len() == 0,
    {
        Arguments { filter: Vec::new(), order: None, limit: None, offset: None, parameters: Vec::new() }
    }
}

impl SelectionTree {
    /// The root comes first and has no parent; every other node's parent
    /// comes before it.
    pub open spec fn wf(&self) -> bool {
        &&& self.nodes@.len() > 0
        &&& self.nodes@[0].parent is None
        &&& forall|k: int|
            0 < k < self.nodes@.len() ==> ((#[trigger] self.nodes@[k]).parent matches Some(p)
                && p < k)
    }

    /// A tree of one root field with the given arguments.
    pub fn root(field: String, arguments: Arguments) -> (r: SelectionTree)
        ensures
            r.wf(),
            r.nodes@.len() == 1,
            r.nodes@[0] == (SelectionNode { field, parent: None, arguments }),
    {
        let mut nodes: Vec<SelectionNode> = Vec::new();
        nodes.push(SelectionNode { field, parent: None, arguments });
        SelectionTree { nodes }
    }

    /// Adds a field under node `parent` and returns its position.
    pub fn add(&mut self, parent: usize, field: String, arguments: Arguments) -> (r: usize)
        requires
            old(self).wf(),
            parent < old(self).nodes@.len(),
        ensures
            final(self).wf(),
            r == old(self).nodes@.len(),
            final(self).nodes@ == old(self).nodes@.push(
                SelectionNode { field, parent: Some(parent), arguments },
            ),
    {
        let r = self.nodes.len();
        self.nodes.push(SelectionNode { field, parent: Some(parent), arguments });
        r
    }
}

} // verus!
