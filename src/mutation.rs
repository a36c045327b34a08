use vstd::prelude::*;
use crate::database::{post_row, Database};
use crate::filter::{conditions, Check, Condition, Predicate, Test};
use crate::model::{Comment, CommentChangeset, NewComment, NewPost, NewUser, PostChangeset, User, UserChangeset};
use crate::loader::{reached, FieldError, all_compile, load_narrowed, load_result, validate, Loaded};
use crate::plan::rejection;
use crate::registry::{Entity, Registry};
use crate::selection::SelectionTree;
use crate::value::{row_view, Datum, Value};
use crate::versioning::{first_revision, is_open, successor, WriteError};

verus! {

/// Why a mutation failed. A selection error is found before anything is
/// written.
#[derive(Debug, Clone, Copy, PartialEq, Eq, Structural)]
pub enum MutationError {
    Invalid(FieldError),
    Write(WriteError),
}

/// The column of `posts` that holds the logical id.
pub const POST_ID: usize = 0;

/// The column of `posts` that holds the end of a revision's interval.
pub const POST_VERSION_END: usize = 7;

/// The conditions that narrow a read of `posts` to the live revision of
/// post `id`.
pub open spec fn live_revision_of(id: i32) -> Seq<Condition> {
    seq![
        Condition { column: POST_ID as int, check: Check::Equals(Datum::Int(id as int)) },
        Condition { column: POST_VERSION_END as int, check: Check::IsNull },
    ]
}

/// Every node of the selection that reads a relation, when loaded from
/// relation `relation`, compiles against it.
pub open spec fn valid_for(reg: Registry, t: SelectionTree, relation: usize) -> bool {
    all_compile(reg, t, relation)
}

/// Node `e.node` of the selection, loaded from relation `relation`, fails to
/// compile with `e.error`.
pub open spec fn invalid_at(reg: Registry, t: SelectionTree, relation: usize, e: FieldError) -> bool {
    e.node < t.nodes@.len() && (reached(reg, t, relation, e.node as int) matches Some(x)
        && rejection(reg.relations@[x as int], t, e.node as int) == Some(e.error))
}

/// The selection can be compiled against relation `posts`.
pub open spec fn selection_ok(reg: Registry, t: SelectionTree) -> bool {
    valid_for(reg, t, 1)
}

/// The condition that narrows a read of `users` or `comments` to the row of
/// id `id`.
pub open spec fn row_of(id: i32) -> Seq<Condition> {
    seq![Condition { column: 0, check: Check::Equals(Datum::Int(id as int)) }]
}

/// The first revisions of a batch of new posts, numbered from `first`.
pub open spec fn fresh_revisions(ps: Seq<NewPost>, first: int, now: i64) -> Seq<crate::model::Post> {
    ps.map(|k: int, p: NewPost| first_revision(p, (first + k) as i32, now))
}

fn live_revision(id: i32) -> (r: Vec<Predicate>)
    ensures
        conditions(r@) == live_revision_of(id),
{
    let mut r: Vec<Predicate> = Vec::new();
    r.push(Predicate { column: POST_ID, test: Test::Equals(Value::Int(id as i64)) });
    r.push(Predicate { column: POST_VERSION_END, test: Test::IsNull });
    assert(conditions(r@) =~= live_revision_of(id));
    r
}

fn with_id(id: i32) -> (r: Vec<Predicate>)
    ensures
        conditions(r@) == row_of(id),
{
    let mut r: Vec<Predicate> = Vec::new();
    r.push(Predicate { column: 0, test: Test::Equals(Value::Int(id as i64)) });
    assert(conditions(r@) =~= row_of(id));
    r
}

/// The live revision of post `id` already carries the largest version.
pub open spec fn live_at_last_version(rows: Seq<crate::model::Post>, id: i32) -> bool {
    exists|i: int|
        0 <= i < rows.len() && #[trigger] rows[i].id == id && is_open(rows[i])
            && rows[i].version_start == i32::MAX
}

/// A live revision of post `id` is stored.
pub open spec fn has_live(rows: Seq<crate::model::Post>, id: i32) -> bool {
    exists|i: int| 0 <= i < rows.len() && #[trigger] rows[i].id == id && is_open(rows[i])
}

/// After any write, the read-back narrowing of a well-formed history finds
/// at most one stored revision: the live revision of the written post.
pub proof fn lemma_read_back_unique(t: crate::versioning::PostTable, id: i32, i: int, j: int)
    requires
        t.wf(),
        0 <= i < t.rows@.len(),
        0 <= j < t.rows@.len(),
        crate::filter::satisfies(live_revision_of(id), post_row(t.rows@[i])),
        crate::filter::satisfies(live_revision_of(id), post_row(t.rows@[j])),
    ensures
        i == j,
        t.rows@[i].id == id,
        is_open(t.rows@[i]),
{
    let f = live_revision_of(id);
    assert(crate::filter::holds(f[0], post_row(t.rows@[i])));
    assert(crate::filter::holds(f[1], post_row(t.rows@[i])));
    assert(crate::filter::holds(f[0], post_row(t.rows@[j])));
    assert(crate::filter::holds(f[1], post_row(t.rows@[j])));
    if i != j {
        crate::versioning::lemma_version_intervals(t, i, j);
    }
}

impl Database {
    /// Loads the caller's selection from entity `root`, its root read
    /// narrowed by `extra` to what was just written, exactly as a query
    /// would load it.
    fn answer(&self, reg: &Registry, t: &SelectionTree, root: Entity, extra: Vec<Predicate>) -> (r:
        Loaded)
        requires
            reg.wf(),
            reg.relations@.len() == 4,
            t.wf(),
            all_compile(*reg, *t, root.index()),
        ensures
            load_result(*reg, *self, *t, root.index(), conditions(extra@), Ok::<Loaded, FieldError>(r)),
    {
        let r = load_narrowed(reg, self, t, root, extra);
        match r {
            Ok(l) => l,
            Err(_) => {
                // `all_compile` holds, so loading cannot fail.
                assert(false);
                Loaded {
                    relations: Vec::new(),
                    links: Vec::new(),
                    rows: Vec::new(),
                    queried: Vec::new(),
                    queries: 0,
                }
            },
        }
    }

    /// Creates a post: its first revision `[0, absent)` in state `Draft`,
    /// stamped `now`, under the next free id. The selection is checked
    /// before anything is written; the answer is the new post as the
    /// whole selection loads it, relationships included.
    pub fn create_post(&mut self, reg: &Registry, t: &SelectionTree, p: NewPost, now: i64) -> (r:
        Result<Loaded, MutationError>)
        requires
            old(self).posts.wf(),
            reg.wf(),
            reg.relations@.len() == 4,
            t.wf(),
        ensures
            final(self).posts.wf(),
            *final(self) == (Database { posts: final(self).posts, ..*old(self) }),
            match r {
                Ok(answer) => {
                    let id = old(self).posts.next_id;
                    &&& selection_ok(*reg, *t)
                    &&& final(self).posts.rows@ == old(self).posts.rows@.push(
                        first_revision(p, id, now),
                    )
                    &&& final(self).posts.next_id == id + 1
                    &&& load_result(*reg, *final(self), *t, 1, live_revision_of(id), Ok::<Loaded, FieldError>(answer))
                },
                Err(MutationError::Invalid(e)) => invalid_at(*reg, *t, 1, e) && !selection_ok(*reg, *t) && *final(self)
                    == *old(self),
                Err(MutationError::Write(e)) => {
                    &&& selection_ok(*reg, *t)
                    &&& e == WriteError::IdsExhausted
                    &&& old(self).posts.next_id == i32::MAX
                    &&& *final(self) == *old(self)
                },
            },
    {
        match validate(reg, t, Entity::Post) {
            Ok(()) => {},
            Err(e) => {
                return Err(MutationError::Invalid(e));
            },
        }
        let id = match self.posts.insert(p, now) {
            Ok(id) => id,
            Err(e) => {
                return Err(MutationError::Write(e));
            },
        };
        let answer = self.answer(reg, t, Entity::Post, live_revision(id));
        Ok(answer)
    }

    /// Updates a post: its live revision is closed and a new live revision
    /// carrying the changeset (and the superseded revision's publication
    /// time) is appended. The answer is the
    /// new revision as the whole selection loads it, relationships included; a post with no live revision
    /// is answered with nothing, and nothing is written.
    pub fn update_post(&mut self, reg: &Registry, t: &SelectionTree, c: PostChangeset) -> (r:
        Result<Option<Loaded>, MutationError>)
        requires
            old(self).posts.wf(),
            reg.wf(),
            reg.relations@.len() == 4,
            t.wf(),
        ensures
            final(self).posts.wf(),
            *final(self) == (Database { posts: final(self).posts, ..*old(self) }),
            match r {
                Ok(answer) => {
                    &&& selection_ok(*reg, *t)
                    &&& !has_live(old(self).posts.rows@, c.id) ==> answer is None && *final(self)
                        == *old(self)
                    &&& has_live(old(self).posts.rows@, c.id) ==> exists|i: int|
                        {
                            &&& 0 <= i < old(self).posts.rows@.len()
                            &&& #[trigger] old(self).posts.rows@[i].id == c.id
                            &&& is_open(old(self).posts.rows@[i])
                            &&& final(self).posts.rows@ == old(self).posts.rows@.update(
                                i,
                                crate::model::Post {
                                    version_end: Some(
                                        (old(self).posts.rows@[i].version_start + 1) as i32,
                                    ),
                                    ..old(self).posts.rows@[i]
                                },
                            ).push(
                                successor(
                                    c,
                                    old(self).posts.rows@[i].published_at,
                                    old(self).posts.rows@[i].version_start as int,
                                ),
                            )
                        }
                    &&& has_live(old(self).posts.rows@, c.id) ==> (answer matches Some(l) && load_result(*reg, *final(self), *t, 1, live_revision_of(c.id), Ok::<Loaded, FieldError>(l)))
                },
                Err(MutationError::Invalid(e)) => invalid_at(*reg, *t, 1, e) && !selection_ok(*reg, *t) && *final(self)
                    == *old(self),
                Err(MutationError::Write(e)) => {
                    &&& selection_ok(*reg, *t)
                    &&& e == WriteError::VersionOverflow
                    &&& live_at_last_version(old(self).posts.rows@, c.id)
                    &&& *final(self) == *old(self)
                },
            },
    {
        match validate(reg, t, Entity::Post) {
            Ok(()) => {},
            Err(e) => {
                return Err(MutationError::Invalid(e));
            },
        }
        let id = c.id;
        match self.posts.update(c) {
            Ok(_) => {},
            Err(WriteError::NotFound) => {
                return Ok(None);
            },
            Err(e) => {
                return Err(MutationError::Write(e));
            },
        }
        let answer = Some(self.answer(reg, t, Entity::Post, live_revision(id)));
        Ok(answer)
    }

    /// Creates a batch of posts as one unit: either every post gets its
    /// first revision, under consecutive fresh ids, or nothing is written.
    /// The answer loads the whole selection with its root narrowed to the
    /// written ids, relationships included.
    pub fn create_posts(&mut self, reg: &Registry, t: &SelectionTree, ps: Vec<NewPost>, now: i64) -> (r:
        Result<Loaded, MutationError>)
        requires
            old(self).posts.wf(),
            reg.wf(),
            reg.relations@.len() == 4,
            t.wf(),
        ensures
            final(self).posts.wf(),
            *final(self) == (Database { posts: final(self).posts, ..*old(self) }),
            match r {
                Ok(answer) => {
                    let first = old(self).posts.next_id as int;
                    &&& selection_ok(*reg, *t)
                    &&& final(self).posts.rows@ == old(self).posts.rows@ + fresh_revisions(
                        ps@,
                        first,
                        now,
                    )
                    &&& final(self).posts.next_id == first + ps@.len()
                    &&& load_result(*reg, *final(self), *t, 1, seq![Condition { column: POST_ID as int, check: Check::OneOf(Seq::new(ps@.len(), |k: int| Datum::Int(first + k))) }], Ok::<Loaded, FieldError>(answer))
                },
                Err(MutationError::Invalid(e)) => invalid_at(*reg, *t, 1, e) && !selection_ok(*reg, *t) && *final(self)
                    == *old(self),
                Err(MutationError::Write(e)) => {
                    &&& selection_ok(*reg, *t)
                    &&& e == WriteError::IdsExhausted
                    &&& old(self).posts.next_id + ps@.len() > i32::MAX
                    &&& *final(self) == *old(self)
                },
            },
    {
        match validate(reg, t, Entity::Post) {
            Ok(()) => {},
            Err(e) => {
                return Err(MutationError::Invalid(e));
            },
        }
        let n = ps.len();
        if (self.posts.next_id as u128) + (n as u128) > (i32::MAX as u128) {
            return Err(MutationError::Write(WriteError::IdsExhausted));
        }
        let ghost start = self.posts.rows@;
        let ghost first = self.posts.next_id as int;
        let ghost items = ps@;
        let mut ids: Vec<Value> = Vec::new();
        let mut ps = ps;
        let mut k: usize = 0;
        while k < n
            invariant
                n == items.len(),
                k <= n,
                self.posts.wf(),
                first + n <= i32::MAX,
                self.posts.next_id == first + k,
                ps@ == items.subrange(k as int, n as int),
                self.posts.rows@ == start + fresh_revisions(items, first, now).subrange(0, k as int),
                row_view(ids) == Seq::new(k as nat, |j: int| Datum::Int(first + j)),
                *self == (Database { posts: self.posts, ..*old(self) }),
            decreases n - k,
        {
            let p = ps.remove(0);
            assert(p == items[k as int]);
            assert(ps@ =~= items.subrange(k + 1, n as int));
            let ghost before = row_view(ids);
            match self.posts.insert(p, now) {
                Ok(id) => {
                    ids.push(Value::Int(id as i64));
                    assert(row_view(ids) =~= before.push(Datum::Int(id as int)));
                    assert(row_view(ids) =~= Seq::new((k + 1) as nat, |j: int| Datum::Int(first + j)));
                },
                Err(e) => {
                    return Err(MutationError::Write(e));
                },
            }
            assert(fresh_revisions(items, first, now).subrange(0, k + 1) =~= fresh_revisions(
                items,
                first,
                now,
            ).subrange(0, k as int).push(first_revision(items[k as int], (first + k) as i32, now)));
            k += 1;
        }
        assert(fresh_revisions(items, first, now).subrange(0, n as int) =~= fresh_revisions(
            items,
            first,
            now,
        ));
        let key = Predicate { column: POST_ID, test: Test::OneOf(ids) };
        let mut extra: Vec<Predicate> = Vec::new();
        extra.push(key);
        assert(conditions(extra@) =~= seq![key@]);
        let answer = self.answer(reg, t, Entity::Post, extra);
        Ok(answer)
    }

    /// Deletes a post: an update of its live revision that only sets the
    /// state to `Deleted`. Answers whether a live revision was found.
    pub fn delete_post(&mut self, id: i32) -> (r: Result<bool, WriteError>)
        requires
            old(self).posts.wf(),
        ensures
            final(self).posts.wf(),
            *final(self) == (Database { posts: final(self).posts, ..*old(self) }),
            r == Ok::<bool, WriteError>(false) <==> !has_live(old(self).posts.rows@, id),
            r matches Ok(false) ==> *final(self) == *old(self),
            r matches Err(e) ==> e == WriteError::VersionOverflow && live_at_last_version(
                old(self).posts.rows@,
                id,
            ) && *final(self) == *old(self),
            r matches Ok(true) ==> exists|i: int|
                {
                    &&& 0 <= i < old(self).posts.rows@.len()
                    &&& #[trigger] old(self).posts.rows@[i].id == id
                    &&& is_open(old(self).posts.rows@[i])
                    &&& final(self).posts.rows@ == old(self).posts.rows@.update(
                        i,
                        crate::model::Post {
                            version_end: Some((old(self).posts.rows@[i].version_start + 1) as i32),
                            ..old(self).posts.rows@[i]
                        },
                    ).push(
                        crate::model::Post {
                            post_state: crate::model::PostState::Deleted,
                            version_start: (old(self).posts.rows@[i].version_start + 1) as i32,
                            version_end: None,
                            ..old(self).posts.rows@[i]
                        },
                    )
                },
    {
        match self.posts.delete(id) {
            Ok(_) => Ok(true),
            Err(WriteError::NotFound) => Ok(false),
            Err(e) => Err(e),
        }
    }
    /// The position of the user of id `id`.
    fn user_position(&self, id: i32) -> (r: Option<usize>)
        ensures
            match r {
                Some(i) => i < self.users@.len() && self.users@[i as int].id == id,
                None => forall|i: int| 0 <= i < self.users@.len() ==> #[trigger] self.users@[i].id != id,
            },
    {
        let mut i: usize = 0;
        while i < self.users.len()
            invariant
                i <= self.users@.len(),
                forall|k: int| 0 <= k < i ==> #[trigger] self.users@[k].id != id,
            decreases self.users@.len() - i,
        {
            if self.users[i].id == id {
                return Some(i);
            }
            i += 1;
        }
        None
    }

    /// The position of the comment of id `id`.
    fn comment_position(&self, id: i32) -> (r: Option<usize>)
        ensures
            match r {
                Some(i) => i < self.comments@.len() && self.comments@[i as int].id == id,
                None => forall|i: int|
                    0 <= i < self.comments@.len() ==> #[trigger] self.comments@[i].id != id,
            },
    {
        let mut i: usize = 0;
        while i < self.comments.len()
            invariant
                i <= self.comments@.len(),
                forall|k: int| 0 <= k < i ==> #[trigger] self.comments@[k].id != id,
            decreases self.comments@.len() - i,
        {
            if self.comments[i].id == id {
                return Some(i);
            }
            i += 1;
        }
        None
    }

    /// Creates a user, joined `now`, under the next free id. The answer is
    /// the new user as the whole selection loads it, relationships included.
    pub fn create_user(&mut self, reg: &Registry, t: &SelectionTree, u: NewUser, now: i64) -> (r:
        Result<Loaded, MutationError>)
        requires
            old(self).users_wf(),
            reg.wf(),
            reg.relations@.len() == 4,
            t.wf(),
        ensures
            final(self).users_wf(),
            match r {
                Ok(answer) => {
                    let id = old(self).next_user_id;
                    &&& valid_for(*reg, *t, 0)
                    &&& *final(self) == (Database {
                        users: final(self).users,
                        next_user_id: (id + 1) as i32,
                        ..*old(self)
                    })
                    &&& final(self).users@ == old(self).users@.push(
                        User { id, name: u.name, joined_at: now },
                    )
                    &&& load_result(*reg, *final(self), *t, 0, row_of(id), Ok::<Loaded, FieldError>(answer))
                },
                Err(MutationError::Invalid(e)) => invalid_at(*reg, *t, 0, e) && !valid_for(*reg, *t, 0) && *final(self)
                    == *old(self),
                Err(MutationError::Write(e)) => {
                    &&& valid_for(*reg, *t, 0)
                    &&& e == WriteError::IdsExhausted
                    &&& old(self).next_user_id == i32::MAX
                    &&& *final(self) == *old(self)
                },
            },
    {
        match validate(reg, t, Entity::User) {
            Ok(()) => {},
            Err(e) => {
                return Err(MutationError::Invalid(e));
            },
        }
        if self.next_user_id == i32::MAX {
            return Err(MutationError::Write(WriteError::IdsExhausted));
        }
        let id = self.next_user_id;
        self.users.push(User { id, name: u.name, joined_at: now });
        self.next_user_id = id + 1;
        let answer = self.answer(reg, t, Entity::User, with_id(id));
        Ok(answer)
    }

    /// Renames the user `c.id`. The answer is the user as the whole selection
    /// loads it; an unknown id is answered with nothing, and nothing is
    /// written.
    pub fn update_user(&mut self, reg: &Registry, t: &SelectionTree, c: UserChangeset) -> (r: Result<Option<Loaded>, MutationError>)
        requires
            old(self).users_wf(),
            reg.wf(),
            reg.relations@.len() == 4,
            t.wf(),
        ensures
            final(self).users_wf(),
            match r {
                Ok(answer) => {
                    &&& valid_for(*reg, *t, 0)
                    &&& *final(self) == (Database { users: final(self).users, ..*old(self) })
                    &&& (forall|i: int| 0 <= i < old(self).users@.len() ==> #[trigger] old(self).users@[i].id != c.id)
                        ==> answer is None && *final(self) == *old(self)
                    &&& forall|i: int|
                        0 <= i < old(self).users@.len() && #[trigger] old(self).users@[i].id == c.id ==> {
                            &&& final(self).users@ == old(self).users@.update(
                                i,
                                User { name: c.name, ..old(self).users@[i] },
                            )
                            &&& (answer matches Some(l) && load_result(*reg, *final(self), *t, 0, row_of(c.id), Ok::<Loaded, FieldError>(l)))
                        }
                },
                Err(e) => (e matches MutationError::Invalid(f) && invalid_at(*reg, *t, 0, f)) && !valid_for(*reg, *t, 0) && *final(self) == *old(self),
            },
    {
        match validate(reg, t, Entity::User) {
            Ok(()) => {},
            Err(e) => {
                return Err(MutationError::Invalid(e));
            },
        }
        let i = match self.user_position(c.id) {
            Some(i) => i,
            None => {
                return Ok(None);
            },
        };
        let joined_at = self.users[i].joined_at;
        let id = c.id;
        self.users.set(i, User { id, name: c.name, joined_at });
        let answer = Some(self.answer(reg, t, Entity::User, with_id(id)));
        Ok(answer)
    }

    /// Removes the user of id `id`; answers whether there was one.
    pub fn delete_user(&mut self, id: i32) -> (r: bool)
        requires
            old(self).users_wf(),
        ensures
            final(self).users_wf(),
            *final(self) == (Database { users: final(self).users, ..*old(self) }),
            r == exists|i: int| 0 <= i < old(self).users@.len() && #[trigger] old(self).users@[i].id == id,
            forall|i: int|
                0 <= i < old(self).users@.len() && #[trigger] old(self).users@[i].id == id
                    ==> final(self).users@ == old(self).users@.remove(i),
            !r ==> final(self).users@ == old(self).users@,
    {
        match self.user_position(id) {
            Some(i) => {
                self.users.remove(i);
                assert forall|a: int, b: int|
                    0 <= a < self.users@.len() && 0 <= b < self.users@.len() && a != b implies #[trigger] self.users@[a].id
                        != #[trigger] self.users@[b].id by {
                    let oa = if a < i { a } else { a + 1 };
                    let ob = if b < i { b } else { b + 1 };
                    assert(old(self).users@[oa].id != old(self).users@[ob].id);
                }
                true
            },
            None => false,
        }
    }

    /// Creates a comment, published `now`, under the next free id. The
    /// answer is the new comment as the whole selection loads it, relationships included.
    pub fn create_comment(&mut self, reg: &Registry, t: &SelectionTree, c: NewComment, now: i64) -> (r:
        Result<Loaded, MutationError>)
        requires
            old(self).comments_wf(),
            reg.wf(),
            reg.relations@.len() == 4,
            t.wf(),
        ensures
            final(self).comments_wf(),
            match r {
                Ok(answer) => {
                    let id = old(self).next_comment_id;
                    &&& valid_for(*reg, *t, 2)
                    &&& *final(self) == (Database {
                        comments: final(self).comments,
                        next_comment_id: (id + 1) as i32,
                        ..*old(self)
                    })
                    &&& final(self).comments@ == old(self).comments@.push(
                        Comment { id, comment: c.comment, published_at: now, author: c.author, post: c.post },
                    )
                    &&& load_result(*reg, *final(self), *t, 2, row_of(id), Ok::<Loaded, FieldError>(answer))
                },
                Err(MutationError::Invalid(e)) => invalid_at(*reg, *t, 2, e) && !valid_for(*reg, *t, 2) && *final(self)
                    == *old(self),
                Err(MutationError::Write(e)) => {
                    &&& valid_for(*reg, *t, 2)
                    &&& e == WriteError::IdsExhausted
                    &&& old(self).next_comment_id == i32::MAX
                    &&& *final(self) == *old(self)
                },
            },
    {
        match validate(reg, t, Entity::Comment) {
            Ok(()) => {},
            Err(e) => {
                return Err(MutationError::Invalid(e));
            },
        }
        if self.next_comment_id == i32::MAX {
            return Err(MutationError::Write(WriteError::IdsExhausted));
        }
        let id = self.next_comment_id;
        self.comments.push(
            Comment { id, comment: c.comment, published_at: now, author: c.author, post: c.post },
        );
        self.next_comment_id = id + 1;
        let answer = self.answer(reg, t, Entity::Comment, with_id(id));
        Ok(answer)
    }

    /// Replaces the text, author and post of comment `c.id`. The answer is
    /// the comment as the whole selection loads it, relationships included; an unknown id is answered
    /// with nothing, and nothing is written.
    pub fn update_comment(&mut self, reg: &Registry, t: &SelectionTree, c: CommentChangeset) -> (r:
        Result<Option<Loaded>, MutationError>)
        requires
            old(self).comments_wf(),
            reg.wf(),
            reg.relations@.len() == 4,
            t.wf(),
        ensures
            final(self).comments_wf(),
            match r {
                Ok(answer) => {
                    &&& valid_for(*reg, *t, 2)
                    &&& *final(self) == (Database { comments: final(self).comments, ..*old(self) })
                    &&& (forall|i: int|
                        0 <= i < old(self).comments@.len() ==> #[trigger] old(self).comments@[i].id
                            != c.id) ==> answer is None && *final(self) == *old(self)
                    &&& forall|i: int|
                        0 <= i < old(self).comments@.len() && #[trigger] old(self).comments@[i].id
                            == c.id ==> {
                            &&& final(self).comments@ == old(self).comments@.update(
                                i,
                                Comment {
                                    comment: Some(c.comment),
                                    author: c.author,
                                    post: c.post,
                                    ..old(self).comments@[i]
                                },
                            )
                            &&& (answer matches Some(l) && load_result(*reg, *final(self), *t, 2, row_of(c.id), Ok::<Loaded, FieldError>(l)))
                        }
                },
                Err(e) => (e matches MutationError::Invalid(f) && invalid_at(*reg, *t, 2, f)) && !valid_for(*reg, *t, 2) && *final(self) == *old(self),
            },
    {
        match validate(reg, t, Entity::Comment) {
            Ok(()) => {},
            Err(e) => {
                return Err(MutationError::Invalid(e));
            },
        }
        let i = match self.comment_position(c.id) {
            Some(i) => i,
            None => {
                return Ok(None);
            },
        };
        let published_at = self.comments[i].published_at;
        let id = c.id;
        self.comments.set(
            i,
            Comment { id, comment: Some(c.comment), published_at, author: c.author, post: c.post },
        );
        let answer = Some(self.answer(reg, t, Entity::Comment, with_id(id)));
        Ok(answer)
    }

    /// Removes the comment of id `id`; answers whether there was one.
    pub fn delete_comment(&mut self, id: i32) -> (r: bool)
        requires
            old(self).comments_wf(),
        ensures
            final(self).comments_wf(),
            *final(self) == (Database { comments: final(self).comments, ..*old(self) }),
            r == exists|i: int|
                0 <= i < old(self).comments@.len() && #[trigger] old(self).comments@[i].id == id,
            forall|i: int|
                0 <= i < old(self).comments@.len() && #[trigger] old(self).comments@[i].id == id
                    ==> final(self).comments@ == old(self).comments@.remove(i),
            !r ==> final(self).comments@ == old(self).comments@,
    {
        match self.comment_position(id) {
            Some(i) => {
                self.comments.remove(i);
                assert forall|a: int, b: int|
                    0 <= a < self.comments@.len() && 0 <= b < self.comments@.len() && a != b implies #[trigger] self.comments@[a].id
                        != #[trigger] self.comments@[b].id by {
                    let oa = if a < i { a } else { a + 1 };
                    let ob = if b < i { b } else { b + 1 };
                    assert(old(self).comments@[oa].id != old(self).comments@[ob].id);
                }
                true
            },
            None => false,
        }
    }
}

} // verus!
