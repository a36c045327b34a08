use vstd::prelude::*;

verus! {

/// The scalar type of a column.
#[derive(Debug, Clone, Copy, PartialEq, Eq, Structural)]
pub enum ScalarType {
    Integer,
    Text,
    Timestamp,
    State,
}

/// One column of a relation. `key` marks it as part of the primary key.
#[derive(Debug, Clone)]
pub struct Column {
    pub name: String,
    pub ty: ScalarType,
    pub nullable: bool,
    pub key: bool,
}

/// A relationship field of a relation, leading to relation `target` of the
/// registry: the owner's column `column` holds the value that the target's
/// column `peer_column` must equal. A to-one relationship reads a foreign
/// key of the owner; a to-many one (`many`) reads a foreign key of the target.
#[derive(Debug, Clone)]
pub struct Relationship {
    pub name: String,
    pub target: usize,
    pub column: usize,
    pub peer_column: usize,
    pub many: bool,
}

/// A relation: a stored table, or a parameterised computation (a virtual
/// relation) when `parameters` is not empty. Parameters are nullable
/// integers, bound by name from a selection's arguments.
#[derive(Debug, Clone)]
pub struct Relation {
    pub name: String,
    pub columns: Vec<Column>,
    pub relationships: Vec<Relationship>,
    pub parameters: Vec<String>,
}

/// The position of the first name in `names`, from `from` on, equal to `name`.
pub open spec fn position_from(names: Seq<Seq<char>>, name: Seq<char>, from: int) -> Option<int>
    decreases names.len() - from,
{
    if from < 0 || from >= names.len() {
        None
    } else if names[from] == name {
        Some(from)
    } else {
        position_from(names, name, from + 1)
    }
}

/// The position of the first name in `names` equal to `name`.
pub open spec fn position(names: Seq<Seq<char>>, name: Seq<char>) -> Option<int> {
    position_from(names, name, 0)
}

/// A found position lies in range and holds the name; when none is found,
/// no name from `from` on equals it.
pub proof fn lemma_position(names: Seq<Seq<char>>, name: Seq<char>, from: int)
    requires
        0 <= from,
    ensures
        position_from(names, name, from) matches Some(j) ==> from <= j < names.len() && names[j]
            == name,
        position_from(names, name, from) is None ==> forall|k: int|
            from <= k < names.len() ==> #[trigger] names[k] != name,
    decreases names.len() - from,
{
    if from < names.len() && names[from] != name {
        lemma_position(names, name, from + 1);
    }
}

pub open spec fn column_names(cols: Seq<Column>) -> Seq<Seq<char>> {
    cols.map_values(|c: Column| c.name@)
}

/// Which columns are marked as key.
pub open spec fn key_marks(cols: Seq<Column>) -> Seq<bool> {
    cols.map_values(|c: Column| c.key)
}

/// Each relationship's target, owner column, target column and whether it
/// is to-many.
pub open spec fn link_shapes(rels: Seq<Relationship>) -> Seq<(usize, usize, usize, bool)> {
    rels.map_values(|r: Relationship| (r.target, r.column, r.peer_column, r.many))
}

pub open spec fn relationship_names(rels: Seq<Relationship>) -> Seq<Seq<char>> {
    rels.map_values(|r: Relationship| r.name@)
}

/// The positions, in order, of the first `n` columns that are marked as key.
pub open spec fn marked_upto(cols: Seq<Column>, n: int) -> Seq<usize>
    decreases n,
{
    if n <= 0 {
        Seq::empty()
    } else if cols[n - 1].key {
        marked_upto(cols, n - 1).push((n - 1) as usize)
    } else {
        marked_upto(cols, n - 1)
    }
}

/// The primary key of a relation with these columns: the marked column, or
/// the tuple of marked columns; when none is marked, the column named "id".
pub open spec fn primary_key_of(cols: Seq<Column>) -> Seq<usize> {
    let marked = marked_upto(cols, cols.len() as int);
    if marked.len() > 0 {
        marked
    } else {
        match position(column_names(cols), seq!['i', 'd']) {
            Some(i) => seq![i as usize],
            None => Seq::empty(),
        }
    }
}

impl Relation {
    /// The position of the column named `name`.
    pub fn column_index(&self, name: &String) -> (r: Option<usize>)
        ensures
            match r {
                Some(i) => i < self.columns@.len() && position(column_names(self.columns@), name@) == Some(i as int),
                None => position(column_names(self.columns@), name@) is None,
            },
    {
        let ghost ns = column_names(self.columns@);
        let mut i: usize = 0;
        while i < self.columns.len()
            invariant
                i <= self.columns@.len(),
                ns == column_names(self.columns@),
                position(ns, name@) == position_from(ns, name@, i as int),
            decreases self.columns@.len() - i,
        {
            if self.columns[i].name == *name {
                return Some(i);
            }
            i += 1;
        }
        None
    }

    /// The position of the relationship named `name`.
    pub fn relationship_index(&self, name: &String) -> (r: Option<usize>)
        ensures
            match r {
                Some(i) => i < self.relationships@.len() && position(relationship_names(self.relationships@), name@) == Some(i as int),
                None => position(relationship_names(self.relationships@), name@) is None,
            },
    {
        let ghost ns = relationship_names(self.relationships@);
        let mut i: usize = 0;
        while i < self.relationships.len()
            invariant
                i <= self.relationships@.len(),
                ns == relationship_names(self.relationships@),
                position(ns, name@) == position_from(ns, name@, i as int),
            decreases self.relationships@.len() - i,
        {
            if self.relationships[i].name == *name {
                return Some(i);
            }
            i += 1;
        }
        None
    }

    /// The primary key columns, by the marking rule of `primary_key_of`.
    pub fn primary_key(&self) -> (r: Vec<usize>)
        ensures
            r@ == primary_key_of(self.columns@),
    {
        let mut marked: Vec<usize> = Vec::new();
        let mut i: usize = 0;
        while i < self.columns.len()
            invariant
                i <= self.columns@.len(),
                marked@ == marked_upto(self.columns@, i as int),
            decreases self.columns@.len() - i,
        {
            if self.columns[i].key {
                marked.push(i);
            }
            i += 1;
        }
        if marked.len() > 0 {
            return marked;
        }
        let id = String::from_str("id");
        proof {
            reveal_strlit("id");
            assert(id@ =~= seq!['i', 'd']);
        }
        match self.column_index(&id) {
            Some(k) => {
                let mut r: Vec<usize> = Vec::new();
                r.push(k);
                assert(r@ =~= seq![k]);
                r
            },
            None => marked,
        }
    }
}

} // verus!
