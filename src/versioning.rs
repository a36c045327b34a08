use vstd::prelude::*;
use crate::model::{NewPost, Post, PostChangeset, PostPatch, PostState};

verus! {

/// Why a write to the version history was refused.
#[derive(Debug, Clone, Copy, PartialEq, Eq, Structural)]
pub enum WriteError {
    /// No live revision exists for the addressed id.
    NotFound,
    /// Every id representable as `i32` has been handed out.
    IdsExhausted,
    /// The live revision already carries the largest representable version.
    VersionOverflow,
}

/// The revision interval is well formed: it starts at a non-negative version
/// and, when closed, ends strictly after it starts.
pub open spec fn interval_valid(p: Post) -> bool {
    &&& 0 <= p.version_start
    &&& (p.version_end matches Some(e) ==> p.version_start < e)
}

/// The revision is the live one.
pub open spec fn is_open(p: Post) -> bool {
    p.version_end is None
}

/// The two half-open intervals `[start, end)` do not share a version.
pub open spec fn disjoint(a: Post, b: Post) -> bool {
    ||| (a.version_end matches Some(e) && e <= b.version_start)
    ||| (b.version_end matches Some(e) && e <= a.version_start)
}

/// The revision is the one a snapshot read at `version` selects: the live
/// revision when no version is given, else the one whose interval holds it.
pub open spec fn covers(p: Post, version: Option<i64>) -> bool {
    match version {
        None => p.version_end is None,
        Some(q) => p.version_start <= q && match p.version_end {
            None => true,
            Some(e) => q < e,
        },
    }
}

/// The revision that an update of `c` appends on top of a live revision that
/// started at `start` and was published at `published_at`, which it keeps.
pub open spec fn successor(c: PostChangeset, published_at: i64, start: int) -> Post {
    Post {
        id: c.id,
        title: c.title,
        content: c.content,
        published_at,
        author: c.author,
        post_state: c.post_state,
        version_start: (start + 1) as i32,
        version_end: None,
    }
}

/// The full changeset that a patch makes of the live revision `cur`: the
/// patched fields from the patch, the rest (and the state) from `cur`.
pub open spec fn patched(cur: Post, patch: PostPatch) -> PostChangeset {
    PostChangeset {
        id: cur.id,
        title: match patch.title {
            Some(t) => t,
            None => cur.title,
        },
        content: match patch.content {
            Some(c) => c,
            None => cur.content,
        },
        author: match patch.author {
            Some(a) => a,
            None => cur.author,
        },
        post_state: cur.post_state,
    }
}

/// The first revision of a newly created post.
pub open spec fn first_revision(p: NewPost, id: i32, published_at: i64) -> Post {
    Post {
        id,
        title: p.title,
        content: p.content,
        published_at,
        author: p.author,
        post_state: PostState::Draft,
        version_start: 0,
        version_end: None,
    }
}

/// The append-only history of all posts.
pub struct PostTable {
    pub rows: Vec<Post>,
    pub next_id: i32,
}

fn clone_text(s: &Option<String>) -> (r: Option<String>)
    ensures
        r == *s,
{
    match s {
        Some(t) => Some(t.clone()),
        None => None,
    }
}

impl Post {
    /// A field-for-field copy of the record.
    pub fn duplicate(&self) -> (r: Post)
        ensures
            r == *self,
    {
        Post {
            id: self.id,
            title: self.title.clone(),
            content: clone_text(&self.content),
            published_at: self.published_at,
            author: self.author,
            post_state: self.post_state,
            version_start: self.version_start,
            version_end: self.version_end,
        }
    }
}

impl PostTable {
    /// Every interval is valid, every id is below the next id to hand out,
    /// and any two revisions of one post have disjoint intervals.
    pub open spec fn wf(&self) -> bool {
        &&& 1 <= self.next_id
        &&& forall|i: int|
            0 <= i < self.rows@.len() ==> {
                &&& interval_valid(#[trigger] self.rows@[i])
                &&& 1 <= self.rows@[i].id < self.next_id
            }
        &&& forall|i: int, j: int|
            0 <= i < self.rows@.len() && 0 <= j < self.rows@.len() && i != j
                && #[trigger] self.rows@[i].id == #[trigger] self.rows@[j].id ==> disjoint(
                self.rows@[i],
                self.rows@[j],
            )
    }

    /// An empty history; ids are handed out from 1.
    pub fn new() -> (r: PostTable)
        ensures
            r.wf(),
            r.rows@.len() == 0,
            r.next_id == 1,
    {
        PostTable { rows: Vec::new(), next_id: 1 }
    }

    /// The position of the live revision of post `id`, if there is one.
    pub fn find_open(&self, id: i32) -> (r: Option<usize>)
        requires
            self.wf(),
        ensures
            match r {
                Some(i) => i < self.rows@.len() && self.rows@[i as int].id == id && is_open(
                    self.rows@[i as int],
                ),
                None => forall|i: int|
                    0 <= i < self.rows@.len() ==> !(#[trigger] self.rows@[i].id == id && is_open(
                        self.rows@[i],
                    )),
            },
    {
        let mut i: usize = 0;
        while i < self.rows.len()
            invariant
                i <= self.rows@.len(),
                forall|k: int|
                    0 <= k < i ==> !(#[trigger] self.rows@[k].id == id && is_open(self.rows@[k])),
            decreases self.rows@.len() - i,
        {
            if self.rows[i].id == id && self.rows[i].version_end.is_none() {
                return Some(i);
            }
            i += 1;
        }
        None
    }

    /// Records a new post as its first revision: `[0, absent)`, in state
    /// `Draft`, under the next free id, which is returned.
    pub fn insert(&mut self, p: NewPost, published_at: i64) -> (r: Result<i32, WriteError>)
        requires
            old(self).wf(),
        ensures
            final(self).wf(),
            match r {
                Ok(id) => {
                    &&& id == old(self).next_id
                    &&& final(self).next_id == id + 1
                    &&& final(self).rows@ == old(self).rows@.push(
                        first_revision(p, id, published_at),
                    )
                },
                Err(e) => {
                    &&& e == WriteError::IdsExhausted
                    &&& old(self).next_id == i32::MAX
                    &&& *final(self) == *old(self)
                },
            },
    {
        if self.next_id == i32::MAX {
            return Err(WriteError::IdsExhausted);
        }
        let id = self.next_id;
        let rec = Post {
            id,
            title: p.title,
            content: p.content,
            published_at,
            author: p.author,
            post_state: PostState::Draft,
            version_start: 0,
            version_end: None,
        };
        self.rows.push(rec);
        self.next_id = id + 1;
        Ok(id)
    }
    /// Supersedes the live revision of post `c.id`: the live revision, which
    /// started at `v`, is closed at `v + 1`, and a new live revision
    /// `[v + 1, absent)` carrying the changeset's fields is appended. Returns
    /// the new revision's version.
    pub fn update(&mut self, c: PostChangeset) -> (r: Result<i32, WriteError>)
        requires
            old(self).wf(),
        ensures
            final(self).wf(),
            final(self).next_id == old(self).next_id,
            match r {
                Ok(v) => exists|i: int|
                    {
                        &&& 0 <= i < old(self).rows@.len()
                        &&& #[trigger] old(self).rows@[i].id == c.id
                        &&& is_open(old(self).rows@[i])
                        &&& v == old(self).rows@[i].version_start + 1
                        &&& final(self).rows@ == old(self).rows@.update(
                            i,
                            Post { version_end: Some(v), ..old(self).rows@[i] },
                        ).push(
                            successor(
                                c,
                                old(self).rows@[i].published_at,
                                old(self).rows@[i].version_start as int,
                            ),
                        )
                    },
                Err(WriteError::NotFound) => {
                    &&& forall|i: int|
                        0 <= i < old(self).rows@.len() ==> !(#[trigger] old(self).rows@[i].id
                            == c.id && is_open(old(self).rows@[i]))
                    &&& *final(self) == *old(self)
                },
                Err(WriteError::VersionOverflow) => {
                    &&& exists|i: int|
                        0 <= i < old(self).rows@.len() && #[trigger] old(self).rows@[i].id == c.id
                            && is_open(old(self).rows@[i]) && old(self).rows@[i].version_start
                            == i32::MAX
                    &&& *final(self) == *old(self)
                },
                Err(WriteError::IdsExhausted) => false,
            },
    {
        let found = self.find_open(c.id);
        let i = match found {
            Some(i) => i,
            None => {
                return Err(WriteError::NotFound);
            },
        };
        let v = self.rows[i].version_start;
        if v == i32::MAX {
            return Err(WriteError::VersionOverflow);
        }
        let ghost before = self.rows@;
        let mut closed = self.rows[i].duplicate();
        closed.version_end = Some(v + 1);
        self.rows.set(i, closed);
        let published_at = self.rows[i].published_at;
        let rec = Post {
            id: c.id,
            title: c.title,
            content: c.content,
            published_at,
            author: c.author,
            post_state: c.post_state,
            version_start: v + 1,
            version_end: None,
        };
        self.rows.push(rec);
        proof {
            let n = before.len() as int;
            assert forall|a: int, b: int|
                0 <= a < self.rows@.len() && 0 <= b < self.rows@.len() && a != b
                    && #[trigger] self.rows@[a].id == #[trigger] self.rows@[b].id implies disjoint(
                self.rows@[a],
                self.rows@[b],
            ) by {
                if a == n || b == n {
                    let o = if a == n { b } else { a };
                    if o != i as int {
                        assert(disjoint(before[o], before[i as int]));
                    }
                } else if a == i as int || b == i as int {
                    let o = if a == i as int { b } else { a };
                    assert(disjoint(before[o], before[i as int]));
                }
            }
        }
        Ok(v + 1)
    }

    /// Marks post `id` as removed: an update that keeps every field of the
    /// live revision but sets its state to `Deleted`. History is kept.
    pub fn delete(&mut self, id: i32) -> (r: Result<i32, WriteError>)
        requires
            old(self).wf(),
        ensures
            final(self).wf(),
            final(self).next_id == old(self).next_id,
            match r {
                Ok(v) => exists|i: int|
                    {
                        &&& 0 <= i < old(self).rows@.len()
                        &&& #[trigger] old(self).rows@[i].id == id
                        &&& is_open(old(self).rows@[i])
                        &&& v == old(self).rows@[i].version_start + 1
                        &&& final(self).rows@ == old(self).rows@.update(
                            i,
                            Post { version_end: Some(v), ..old(self).rows@[i] },
                        ).push(
                            Post {
                                post_state: PostState::Deleted,
                                version_start: v,
                                version_end: None,
                                ..old(self).rows@[i]
                            },
                        )
                    },
                Err(WriteError::NotFound) => {
                    &&& forall|i: int|
                        0 <= i < old(self).rows@.len() ==> !(#[trigger] old(self).rows@[i].id
                            == id && is_open(old(self).rows@[i]))
                    &&& *final(self) == *old(self)
                },
                Err(WriteError::VersionOverflow) => {
                    &&& exists|i: int|
                        0 <= i < old(self).rows@.len() && #[trigger] old(self).rows@[i].id == id
                            && is_open(old(self).rows@[i]) && old(self).rows@[i].version_start
                            == i32::MAX
                    &&& *final(self) == *old(self)
                },
                Err(WriteError::IdsExhausted) => false,
            },
    {
        match self.find_open(id) {
            Some(i) => {
                let cur = &self.rows[i];
                let c = PostChangeset {
                    id,
                    title: cur.title.clone(),
                    content: clone_text(&cur.content),
                    author: cur.author,
                    post_state: PostState::Deleted,
                };
                let r = self.update(c);
                proof {
                    if r is Ok {
                        let ghost o = old(self).rows@;
                        assert(o[i as int].id == id && is_open(o[i as int]));
                    }
                }
                r
            },
            None => Err(WriteError::NotFound),
        }
    }

    /// Applies a partial change to post `id`: an update whose fields come
    /// from the patch where it gives them and from the live revision
    /// otherwise.
    pub fn patch(&mut self, id: i32, patch: PostPatch) -> (r: Result<i32, WriteError>)
        requires
            old(self).wf(),
        ensures
            final(self).wf(),
            final(self).next_id == old(self).next_id,
            match r {
                Ok(v) => exists|i: int|
                    {
                        &&& 0 <= i < old(self).rows@.len()
                        &&& #[trigger] old(self).rows@[i].id == id
                        &&& is_open(old(self).rows@[i])
                        &&& v == old(self).rows@[i].version_start + 1
                        &&& final(self).rows@ == old(self).rows@.update(
                            i,
                            Post { version_end: Some(v), ..old(self).rows@[i] },
                        ).push(
                            successor(
                                patched(old(self).rows@[i], patch),
                                old(self).rows@[i].published_at,
                                old(self).rows@[i].version_start as int,
                            ),
                        )
                    },
                Err(WriteError::NotFound) => {
                    &&& forall|i: int|
                        0 <= i < old(self).rows@.len() ==> !(#[trigger] old(self).rows@[i].id
                            == id && is_open(old(self).rows@[i]))
                    &&& *final(self) == *old(self)
                },
                Err(WriteError::VersionOverflow) => {
                    &&& exists|i: int|
                        0 <= i < old(self).rows@.len() && #[trigger] old(self).rows@[i].id == id
                            && is_open(old(self).rows@[i]) && old(self).rows@[i].version_start
                            == i32::MAX
                    &&& *final(self) == *old(self)
                },
                Err(WriteError::IdsExhausted) => false,
            },
    {
        match self.find_open(id) {
            Some(i) => {
                let cur = &self.rows[i];
                let c = PostChangeset {
                    id,
                    title: match patch.title {
                        Some(t) => t,
                        None => cur.title.clone(),
                    },
                    content: match patch.content {
                        Some(c) => c,
                        None => clone_text(&cur.content),
                    },
                    author: match patch.author {
                        Some(a) => a,
                        None => cur.author,
                    },
                    post_state: cur.post_state,
                };
                assert(c == patched(self.rows@[i as int], patch));
                let r = self.update(c);
                proof {
                    if r is Ok {
                        let ghost o = old(self).rows@;
                        assert(o[i as int].id == id && is_open(o[i as int]));
                    }
                }
                r
            },
            None => Err(WriteError::NotFound),
        }
    }

    /// Snapshot read: every revision that `covers` selects at `version`, in
    /// stored order. With no version this is the live revision of each post.
    pub fn at_version(&self, version: Option<i64>) -> (r: Vec<Post>)
        ensures
            r@ == self.rows@.filter(|p: Post| covers(p, version)),
    {
        let mut out: Vec<Post> = Vec::new();
        let mut i: usize = 0;
        while i < self.rows.len()
            invariant
                i <= self.rows@.len(),
                out@ == self.rows@.subrange(0, i as int).filter(|p: Post| covers(p, version)),
            decreases self.rows@.len() - i,
        {
            let p = &self.rows[i];
            let hit = match version {
                None => p.version_end.is_none(),
                Some(q) => p.version_start as i64 <= q && match p.version_end {
                    None => true,
                    Some(e) => q < e as i64,
                },
            };
            assert(hit == covers(self.rows@[i as int], version));
            if hit {
                out.push(p.duplicate());
            }
            proof {
                let ghost s1 = self.rows@.subrange(0, i + 1);
                assert(s1.drop_last() == self.rows@.subrange(0, i as int));
                assert(s1.last() == self.rows@[i as int]);
                reveal_with_fuel(Seq::filter, 1);
            }
            i += 1;
        }
        assert(self.rows@.subrange(0, self.rows@.len() as int) == self.rows@);
        out
    }
}

/// In a well-formed history, any two revisions of one post have disjoint
/// version intervals, and at most one of them is live.
pub proof fn lemma_version_intervals(t: PostTable, i: int, j: int)
    requires
        t.wf(),
        0 <= i < t.rows@.len(),
        0 <= j < t.rows@.len(),
        i != j,
        t.rows@[i].id == t.rows@[j].id,
    ensures
        disjoint(t.rows@[i], t.rows@[j]),
        !(is_open(t.rows@[i]) && is_open(t.rows@[j])),
{
}

/// In a well-formed history, a snapshot read selects at most one revision of
/// each post, for any requested version or for none.
pub proof fn lemma_snapshot_unique(t: PostTable, version: Option<i64>, i: int, j: int)
    requires
        t.wf(),
        0 <= i < t.rows@.len(),
        0 <= j < t.rows@.len(),
        t.rows@[i].id == t.rows@[j].id,
        covers(t.rows@[i], version),
        covers(t.rows@[j], version),
    ensures
        i == j,
{
    if i != j {
        assert(disjoint(t.rows@[i], t.rows@[j]));
    }
}

} // verus!
