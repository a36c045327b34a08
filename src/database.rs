use vstd::prelude::*;
use crate::model::{Comment, Post, User};
use crate::value::{row_view, rows_view, Datum, Row, Value};
use crate::versioning::{covers, PostTable};

verus! {

pub open spec fn text_datum(o: Option<String>) -> Datum {
    match o {
        Some(s) => Datum::Text(s@),
        None => Datum::Null,
    }
}

pub open spec fn int_datum(o: Option<i32>) -> Datum {
    match o {
        Some(n) => Datum::Int(n as int),
        None => Datum::Null,
    }
}

/// A stored revision as a row of `posts`.
pub open spec fn post_row(p: Post) -> Seq<Datum> {
    seq![
        Datum::Int(p.id as int),
        Datum::Text(p.title@),
        text_datum(p.content),
        Datum::Int(p.published_at as int),
        Datum::Int(p.author as int),
        Datum::State(p.post_state),
        Datum::Int(p.version_start as int),
        int_datum(p.version_end),
    ]
}

/// A stored revision as a row of `posts_at_version`: the version columns
/// are not exposed.
pub open spec fn snapshot_row(p: Post) -> Seq<Datum> {
    post_row(p).subrange(0, 6)
}

pub open spec fn user_row(u: User) -> Seq<Datum> {
    seq![Datum::Int(u.id as int), Datum::Text(u.name@), Datum::Int(u.joined_at as int)]
}

pub open spec fn comment_row(c: Comment) -> Seq<Datum> {
    seq![
        Datum::Int(c.id as int),
        text_datum(c.comment),
        Datum::Int(c.published_at as int),
        Datum::Int(c.author as int),
        Datum::Int(c.post as int),
    ]
}

/// The version argument of a snapshot read: its first bound argument.
pub open spec fn version_argument(args: Seq<Option<i64>>) -> Option<i64> {
    if args.len() > 0 {
        args[0]
    } else {
        None
    }
}

fn text_value(o: &Option<String>) -> (r: Value)
    ensures
        r@ == text_datum(*o),
{
    match o {
        Some(s) => Value::Text(s.clone()),
        None => Value::Null,
    }
}

impl Post {
    /// The record as a row of `posts`.
    pub fn to_row(&self) -> (r: Row)
        ensures
            row_view(r) == post_row(*self),
    {
        let mut r: Row = Vec::new();
        r.push(Value::Int(self.id as i64));
        r.push(Value::Text(self.title.clone()));
        r.push(text_value(&self.content));
        r.push(Value::Int(self.published_at));
        r.push(Value::Int(self.author as i64));
        r.push(Value::State(self.post_state));
        r.push(Value::Int(self.version_start as i64));
        r.push(
            match self.version_end {
                Some(e) => Value::Int(e as i64),
                None => Value::Null,
            },
        );
        assert(row_view(r) =~= post_row(*self));
        r
    }

    /// The record as a row of `posts_at_version`.
    pub fn to_snapshot_row(&self) -> (r: Row)
        ensures
            row_view(r) == snapshot_row(*self),
    {
        let mut r: Row = Vec::new();
        r.push(Value::Int(self.id as i64));
        r.push(Value::Text(self.title.clone()));
        r.push(text_value(&self.content));
        r.push(Value::Int(self.published_at));
        r.push(Value::Int(self.author as i64));
        r.push(Value::State(self.post_state));
        assert(row_view(r) =~= snapshot_row(*self));
        r
    }
}

impl User {
    /// The user as a row of `users`.
    pub fn to_row(&self) -> (r: Row)
        ensures
            row_view(r) == user_row(*self),
    {
        let mut r: Row = Vec::new();
        r.push(Value::Int(self.id as i64));
        r.push(Value::Text(self.name.clone()));
        r.push(Value::Int(self.joined_at));
        assert(row_view(r) =~= user_row(*self));
        r
    }
}

impl Comment {
    /// The comment as a row of `comments`.
    pub fn to_row(&self) -> (r: Row)
        ensures
            row_view(r) == comment_row(*self),
    {
        let mut r: Row = Vec::new();
        r.push(Value::Int(self.id as i64));
        r.push(text_value(&self.comment));
        r.push(Value::Int(self.published_at));
        r.push(Value::Int(self.author as i64));
        r.push(Value::Int(self.post as i64));
        assert(row_view(r) =~= comment_row(*self));
        r
    }
}

/// The stored state of the blog: users, the version history of posts, and
/// comments.
pub struct Database {
    pub users: Vec<User>,
    pub posts: PostTable,
    pub comments: Vec<Comment>,
    pub next_user_id: i32,
    pub next_comment_id: i32,
}

impl Database {
    /// An empty store; ids are handed out from 1.
    pub fn new() -> (r: Database)
        ensures
            r.wf(),
            r.users@.len() == 0,
            r.posts.rows@.len() == 0,
            r.comments@.len() == 0,
            r.posts.next_id == 1,
            r.next_user_id == 1,
            r.next_comment_id == 1,
    {
        Database {
            users: Vec::new(),
            posts: PostTable::new(),
            comments: Vec::new(),
            next_user_id: 1,
            next_comment_id: 1,
        }
    }

    /// User ids are distinct and below the next id to hand out.
    pub open spec fn users_wf(&self) -> bool {
        &&& 1 <= self.next_user_id
        &&& forall|i: int|
            0 <= i < self.users@.len() ==> 1 <= #[trigger] self.users@[i].id < self.next_user_id
        &&& forall|i: int, j: int|
            0 <= i < self.users@.len() && 0 <= j < self.users@.len() && i != j ==> #[trigger] self.users@[i].id
                != #[trigger] self.users@[j].id
    }

    /// Comment ids are distinct and below the next id to hand out.
    pub open spec fn comments_wf(&self) -> bool {
        &&& 1 <= self.next_comment_id
        &&& forall|i: int|
            0 <= i < self.comments@.len() ==> 1 <= #[trigger] self.comments@[i].id
                < self.next_comment_id
        &&& forall|i: int, j: int|
            0 <= i < self.comments@.len() && 0 <= j < self.comments@.len() && i != j
                ==> #[trigger] self.comments@[i].id != #[trigger] self.comments@[j].id
    }

    pub open spec fn wf(&self) -> bool {
        self.posts.wf() && self.users_wf() && self.comments_wf()
    }

    /// The rows of relation `relation` of the blog registry, with its
    /// parameters bound to `args`: users, every stored post revision,
    /// comments, or the revisions a snapshot read at the version argument
    /// selects.
    pub open spec fn source_rows(&self, relation: usize, args: Seq<Option<i64>>) -> Seq<Seq<Datum>> {
        if relation == 0 {
            self.users@.map_values(|u: User| user_row(u))
        } else if relation == 1 {
            self.posts.rows@.map_values(|p: Post| post_row(p))
        } else if relation == 2 {
            self.comments@.map_values(|c: Comment| comment_row(c))
        } else if relation == 3 {
            self.posts.rows@.filter(|p: Post| covers(p, version_argument(args))).map_values(
                |p: Post| snapshot_row(p),
            )
        } else {
            Seq::empty()
        }
    }

    /// The rows of a relation, in stored order.
    pub fn rows_of(&self, relation: usize, args: &Vec<Option<i64>>) -> (r: Vec<Row>)
        ensures
            rows_view(r@) == self.source_rows(relation, args@),
    {
        let mut out: Vec<Row> = Vec::new();
        if relation == 0 {
            let mut i: usize = 0;
            while i < self.users.len()
                invariant
                    i <= self.users@.len(),
                    rows_view(out@) == self.users@.map_values(|u: User| user_row(u)).subrange(
                        0,
                        i as int,
                    ),
                decreases self.users@.len() - i,
            {
                let ghost before = out@;
                out.push(self.users[i].to_row());
                assert(rows_view(out@) =~= rows_view(before).push(user_row(self.users@[i as int])));
                assert(rows_view(out@) =~= self.users@.map_values(|u: User| user_row(u)).subrange(
                    0,
                    i + 1,
                ));
                i += 1;
            }
            assert(self.users@.map_values(|u: User| user_row(u)).subrange(
                0,
                self.users@.len() as int,
            ) =~= self.users@.map_values(|u: User| user_row(u)));
        } else if relation == 1 || relation == 3 {
            let snapshot = relation == 3;
            let version = if args.len() > 0 {
                args[0]
            } else {
                None
            };
            let ghost src = if snapshot {
                self.posts.rows@.filter(|p: Post| covers(p, version_argument(args@)))
            } else {
                self.posts.rows@
            };
            let records = if snapshot {
                self.posts.at_version(version)
            } else {
                let mut all: Vec<Post> = Vec::new();
                let mut i: usize = 0;
                while i < self.posts.rows.len()
                    invariant
                        i <= self.posts.rows@.len(),
                        all@ == self.posts.rows@.subrange(0, i as int),
                    decreases self.posts.rows@.len() - i,
                {
                    all.push(self.posts.rows[i].duplicate());
                    i += 1;
                }
                assert(all@ =~= self.posts.rows@);
                all
            };
            assert(records@ == src);
            let mut i: usize = 0;
            while i < records.len()
                invariant
                    i <= records@.len(),
                    rows_view(out@) == if snapshot {
                        records@.map_values(|p: Post| snapshot_row(p)).subrange(0, i as int)
                    } else {
                        records@.map_values(|p: Post| post_row(p)).subrange(0, i as int)
                    },
                decreases records@.len() - i,
            {
                let ghost before = out@;
                if snapshot {
                    out.push(records[i].to_snapshot_row());
                    assert(rows_view(out@) =~= rows_view(before).push(
                        snapshot_row(records@[i as int]),
                    ));
                    assert(rows_view(out@) =~= records@.map_values(
                        |p: Post| snapshot_row(p),
                    ).subrange(0, i + 1));
                } else {
                    out.push(records[i].to_row());
                    assert(rows_view(out@) =~= rows_view(before).push(post_row(records@[i as int])));
                    assert(rows_view(out@) =~= records@.map_values(|p: Post| post_row(p)).subrange(
                        0,
                        i + 1,
                    ));
                }
                i += 1;
            }
            assert(records@.map_values(|p: Post| snapshot_row(p)).subrange(
                0,
                records@.len() as int,
            ) =~= records@.map_values(|p: Post| snapshot_row(p)));
            assert(records@.map_values(|p: Post| post_row(p)).subrange(0, records@.len() as int)
                =~= records@.map_values(|p: Post| post_row(p)));
        } else if relation == 2 {
            let mut i: usize = 0;
            while i < self.comments.len()
                invariant
                    i <= self.comments@.len(),
                    rows_view(out@) == self.comments@.map_values(
                        |c: Comment| comment_row(c),
                    ).subrange(0, i as int),
                decreases self.comments@.len() - i,
            {
                let ghost before = out@;
                out.push(self.comments[i].to_row());
                assert(rows_view(out@) =~= rows_view(before).push(
                    comment_row(self.comments@[i as int]),
                ));
                assert(rows_view(out@) =~= self.comments@.map_values(
                    |c: Comment| comment_row(c),
                ).subrange(0, i + 1));
                i += 1;
            }
            assert(self.comments@.map_values(|c: Comment| comment_row(c)).subrange(
                0,
                self.comments@.len() as int,
            ) =~= self.comments@.map_values(|c: Comment| comment_row(c)));
        } else {
            assert(rows_view(out@) =~= Seq::<Seq<Datum>>::empty());
        }
        out
    }
}

} // verus!
