use vstd::prelude::*;
use crate::filter::{conditions, Check, Condition, Predicate, Test};
use crate::plan::{OrderBy, QueryPlan};
use crate::exec::{filter_rows, matching, page as page_of, page_rows};
use crate::value::{rows_view, Datum, Row, Value};

verus! {

/// A sortable column of `posts`.
#[derive(Debug, Clone, Copy, PartialEq, Eq, Structural)]
pub enum PostColumn {
    Id,
    Title,
    Content,
    PublishedAt,
    Author,
}

/// Sort direction of a post listing.
#[derive(Debug, Clone, Copy, PartialEq, Eq, Structural)]
pub enum OrderDirection {
    Asc,
    Desc,
}

/// The query parameters of a post listing: an optional order, and optional
/// filters that are conjoined. `title` and `content` are SQL `LIKE`
/// patterns; `later_than` is a timestamp in microseconds.
#[derive(Debug, Clone)]
pub struct PostQuery {
    pub order: Option<PostColumn>,
    pub order_direction: Option<OrderDirection>,
    pub id: Option<i32>,
    pub title: Option<String>,
    pub content: Option<String>,
    pub later_than: Option<i64>,
    pub author: Option<i32>,
}

/// Why a page could not be read.
#[derive(Debug, Clone, Copy, PartialEq, Eq, Structural)]
pub enum PageError {
    /// Pages are numbered from 1.
    ZeroPage,
    /// A page holds at least one post.
    ZeroPageSize,
}

/// The page size used when a listing names none.
pub const DEFAULT_PER_PAGE: u32 = 10;

/// The number of columns of `posts`.
pub const POST_COLUMNS: usize = 8;

impl PostColumn {
    /// The column's position in `posts`.
    pub open spec fn spec_position(self) -> usize {
        match self {
            PostColumn::Id => 0,
            PostColumn::Title => 1,
            PostColumn::Content => 2,
            PostColumn::PublishedAt => 3,
            PostColumn::Author => 4,
        }
    }

    #[verifier::when_used_as_spec(spec_position)]
    pub fn position(self) -> (r: usize)
        ensures
            r == self.spec_position(),
    {
        match self {
            PostColumn::Id => 0,
            PostColumn::Title => 1,
            PostColumn::Content => 2,
            PostColumn::PublishedAt => 3,
            PostColumn::Author => 4,
        }
    }
}

pub open spec fn when<A>(present: bool, a: A) -> Seq<A> {
    if present {
        seq![a]
    } else {
        Seq::empty()
    }
}

/// The conditions of a post listing, one per parameter given, in the order
/// id, title, content, later_than, author.
pub open spec fn query_conditions(q: PostQuery) -> Seq<Condition> {
    when(q.id is Some, Condition { column: 0, check: Check::Equals(Datum::Int(q.id->0 as int)) })
        + when(q.title is Some, Condition { column: 1, check: Check::Like(q.title->0@) })
        + when(q.content is Some, Condition { column: 2, check: Check::Like(q.content->0@) })
        + when(q.later_than is Some, Condition { column: 3, check: Check::AtLeast(q.later_than->0 as int) })
        + when(q.author is Some, Condition { column: 4, check: Check::Equals(Datum::Int(q.author->0 as int)) })
}

/// The order of a post listing: the named column, descending only when
/// asked, ascending otherwise.
pub open spec fn query_order(q: PostQuery) -> Option<OrderBy> {
    match q.order {
        Some(c) => Some(OrderBy { column: c.position(), descending: q.order_direction == Some(OrderDirection::Desc) }),
        None => None,
    }
}

fn push_when(f: &mut Vec<Predicate>, p: Option<Predicate>)
    ensures
        conditions(final(f)@) == conditions(old(f)@) + match p {
            Some(x) => seq![x@],
            None => Seq::empty(),
        },
{
    let ghost before = f@;
    match p {
        Some(x) => {
            f.push(x);
            assert(conditions(f@) =~= conditions(before) + seq![x@]);
        },
        None => {
            assert(conditions(f@) =~= conditions(before) + Seq::<Condition>::empty());
        },
    }
}

/// The plan of a post listing: every column of `posts`, the conjoined
/// filters, the order, and no page.
pub fn build_post_query(q: PostQuery) -> (r: QueryPlan)
    ensures
        conditions(r.filter@) == query_conditions(q),
        r.order == query_order(q),
        r.projection@ == Seq::new(POST_COLUMNS as nat, |i: int| i as usize),
        r.follow@.len() == 0,
        r.arguments@.len() == 0,
        r.limit is None,
        r.offset == 0,
{
    let ghost q0 = q;
    let order = match q.order {
        Some(c) => Some(
            OrderBy {
                column: c.position(),
                descending: match q.order_direction {
                    Some(OrderDirection::Desc) => true,
                    _ => false,
                },
            },
        ),
        None => None,
    };
    let mut filter: Vec<Predicate> = Vec::new();
    assert(conditions(filter@) =~= Seq::<Condition>::empty());
    push_when(
        &mut filter,
        match q.id {
            Some(id) => Some(Predicate { column: 0, test: Test::Equals(Value::Int(id as i64)) }),
            None => None,
        },
    );
    push_when(
        &mut filter,
        match q.title {
            Some(t) => Some(Predicate { column: 1, test: Test::Like(t) }),
            None => None,
        },
    );
    push_when(
        &mut filter,
        match q.content {
            Some(t) => Some(Predicate { column: 2, test: Test::Like(t) }),
            None => None,
        },
    );
    push_when(
        &mut filter,
        match q.later_than {
            Some(t) => Some(Predicate { column: 3, test: Test::AtLeast(t) }),
            None => None,
        },
    );
    push_when(
        &mut filter,
        match q.author {
            Some(a) => Some(Predicate { column: 4, test: Test::Equals(Value::Int(a as i64)) }),
            None => None,
        },
    );
    assert(conditions(filter@) =~= query_conditions(q0));
    let mut projection: Vec<usize> = Vec::new();
    let mut i: usize = 0;
    while i < POST_COLUMNS
        invariant
            i <= POST_COLUMNS,
            projection@ == Seq::new(i as nat, |k: int| k as usize),
        decreases POST_COLUMNS - i,
    {
        projection.push(i);
        assert(projection@ =~= Seq::new((i + 1) as nat, |k: int| k as usize));
        i += 1;
    }
    QueryPlan {
        arguments: Vec::new(),
        projection,
        follow: Vec::new(),
        filter,
        order,
        limit: None,
        offset: 0,
    }
}

/// The page size a listing uses: the one it names, or `DEFAULT_PER_PAGE`.
pub open spec fn page_size_of(page_size: Option<u32>) -> u32 {
    match page_size {
        Some(n) => n,
        None => DEFAULT_PER_PAGE,
    }
}

/// Narrows a listing to page `page` (from 1) of `page_size` posts, or of
/// `DEFAULT_PER_PAGE` when no size is named: it skips the posts of the
/// earlier pages and keeps at most one page.
pub fn paginate(plan: QueryPlan, page: u32, page_size: Option<u32>) -> (r: Result<QueryPlan, PageError>)
    ensures
        r == Err::<QueryPlan, PageError>(PageError::ZeroPage) <==> page == 0,
        r == Err::<QueryPlan, PageError>(PageError::ZeroPageSize) <==> page > 0 && page_size_of(
            page_size,
        ) == 0,
        r matches Ok(p) ==> {
            &&& p.limit == Some(page_size_of(page_size) as u64)
            &&& p.offset == (page - 1) * page_size_of(page_size)
            &&& p.filter == plan.filter
            &&& p.order == plan.order
            &&& p.projection == plan.projection
            &&& p.arguments == plan.arguments
            &&& p.follow == plan.follow
        },
{
    if page == 0 {
        return Err(PageError::ZeroPage);
    }
    let per_page: u32 = match page_size {
        Some(n) => n,
        None => DEFAULT_PER_PAGE,
    };
    if per_page == 0 {
        return Err(PageError::ZeroPageSize);
    }
    let a = (page - 1) as u64;
    let b = per_page as u64;
    assert(a * b <= u64::MAX) by (nonlinear_arith)
        requires
            a <= u32::MAX,
            b <= u32::MAX,
    ;
    let offset: u64 = a * b;
    Ok(QueryPlan { limit: Some(per_page as u64), offset, ..plan })
}

/// The number of columns of `comments`.
pub const COMMENT_COLUMNS: usize = 5;

/// The number of columns of `users`.
pub const USER_COLUMNS: usize = 3;

/// The column of `comments` that holds the commented post.
pub const COMMENT_POST: usize = 4;

/// The column of `comments` that holds the author.
pub const COMMENT_AUTHOR: usize = 3;

/// The column of `posts` that holds the author.
pub const POST_AUTHOR: usize = 4;

/// The column of `posts` that ends a revision's interval.
pub const POST_VERSION_END: usize = 7;

/// The plan that reads every column of a relation of `columns` columns,
/// with no filter, order or page.
pub fn whole_rows(columns: usize) -> (r: QueryPlan)
    ensures
        r.filter@.len() == 0,
        r.projection@ == Seq::new(columns as nat, |i: int| i as usize),
        r.order is None,
        r.follow@.len() == 0,
        r.arguments@.len() == 0,
        r.limit is None,
        r.offset == 0,
{
    let mut projection: Vec<usize> = Vec::new();
    let mut i: usize = 0;
    while i < columns
        invariant
            i <= columns,
            projection@ == Seq::new(i as nat, |k: int| k as usize),
        decreases columns - i,
    {
        projection.push(i);
        assert(projection@ =~= Seq::new((i + 1) as nat, |k: int| k as usize));
        i += 1;
    }
    QueryPlan {
        arguments: Vec::new(),
        projection,
        follow: Vec::new(),
        filter: Vec::new(),
        order: None,
        limit: None,
        offset: 0,
    }
}

/// The plan that reads every column of the rows, of a relation of
/// `columns` columns, whose column `column` equals `value`.
pub fn rows_where(columns: usize, column: usize, value: i32) -> (r: QueryPlan)
    ensures
        selects_where(r, columns, column, value),
{
    let mut r = whole_rows(columns);
    r.filter.push(Predicate { column, test: Test::Equals(Value::Int(value as i64)) });
    assert(conditions(r.filter@) =~= seq![
        Condition { column: column as int, check: Check::Equals(Datum::Int(value as int)) },
    ]);
    r
}

/// The plan that reads the comments of post `post`.
pub fn comments_for_post(post: i32) -> (r: QueryPlan)
    ensures
        selects_where(r, COMMENT_COLUMNS, COMMENT_POST, post),
{
    rows_where(COMMENT_COLUMNS, COMMENT_POST, post)
}

/// The plan that reads the comments written by user `user`.
pub fn comments_for_user(user: i32) -> (r: QueryPlan)
    ensures
        selects_where(r, COMMENT_COLUMNS, COMMENT_AUTHOR, user),
{
    rows_where(COMMENT_COLUMNS, COMMENT_AUTHOR, user)
}

/// The plan that reads the comment of id `id`.
pub fn comment_with_id(id: i32) -> (r: QueryPlan)
    ensures
        selects_where(r, COMMENT_COLUMNS, 0, id),
{
    rows_where(COMMENT_COLUMNS, 0, id)
}

/// The plan that reads the user of id `id`.
pub fn user_with_id(id: i32) -> (r: QueryPlan)
    ensures
        selects_where(r, USER_COLUMNS, 0, id),
{
    rows_where(USER_COLUMNS, 0, id)
}

/// The plan that reads every stored revision of the posts written by user
/// `user`.
pub fn posts_for_user(user: i32) -> (r: QueryPlan)
    ensures
        selects_where(r, POST_COLUMNS, POST_AUTHOR, user),
{
    rows_where(POST_COLUMNS, POST_AUTHOR, user)
}

/// The plan that reads the live revision of post `id`.
pub fn post_with_id(id: i32) -> (r: QueryPlan)
    ensures
        conditions(r.filter@) == seq![
            Condition { column: 0, check: Check::Equals(Datum::Int(id as int)) },
            Condition { column: POST_VERSION_END as int, check: Check::IsNull },
        ],
        r.projection@ == Seq::new(POST_COLUMNS as nat, |i: int| i as usize),
        r.order is None,
        r.follow@.len() == 0,
        r.arguments@.len() == 0,
        r.limit is None,
        r.offset == 0,
{
    let mut r = rows_where(POST_COLUMNS, 0, id);
    let ghost before = r.filter@;
    assert(conditions(before) == seq![Condition { column: 0, check: Check::Equals(Datum::Int(id as int)) }]);
    r.filter.push(Predicate { column: POST_VERSION_END, test: Test::IsNull });
    assert(conditions(r.filter@) =~= conditions(before).push(
        Condition { column: POST_VERSION_END as int, check: Check::IsNull },
    ));
    r
}

/// The plan reads every column of a relation of `columns` columns, keeps
/// the rows whose column `column` equals `value`, and has no order or page.
pub open spec fn selects_where(r: QueryPlan, columns: usize, column: usize, value: i32) -> bool {
    &&& conditions(r.filter@) == seq![
        Condition { column: column as int, check: Check::Equals(Datum::Int(value as int)) },
    ]
    &&& r.projection@ == Seq::new(columns as nat, |i: int| i as usize)
    &&& r.order is None
    &&& r.follow@.len() == 0
    &&& r.arguments@.len() == 0
    &&& r.limit is None
    &&& r.offset == 0
}

/// The number of pages of `per_page` posts that `total` posts fill; the
/// last one may be partial.
pub fn total_pages(total: u64, per_page: u32) -> (r: u64)
    requires
        per_page > 0,
    ensures
        r * per_page >= total,
        r == 0 || (r - 1) * per_page < total,
{
    let p = per_page as u64;
    let q = total / p;
    assert(q * p + total % p == total) by (nonlinear_arith)
        requires
            p > 0,
            q == total / p,
    ;
    assert(total % p != 0 ==> q < total) by (nonlinear_arith)
        requires
            p > 0,
            q * p + total % p == total,
            0 <= total % p,
    ;
    let r = if total % p == 0 {
        q
    } else {
        q + 1
    };
    assert(q * p + total % p == total) by (nonlinear_arith)
        requires
            p > 0,
            q == total / p,
    ;
    assert(r * per_page >= total && (r == 0 || (r - 1) * per_page < total)) by (nonlinear_arith)
        requires
            p == per_page,
            p > 0,
            q * p + total % p == total,
            0 <= total % p < p,
            total % p == 0 ==> r == q,
            total % p != 0 ==> r == q + 1,
    ;
    r
}

/// One page of a post listing: its number, its posts, and how many pages
/// the listing fills.
#[derive(Debug)]
pub struct PostPage {
    pub page_number: u32,
    pub posts: Vec<Row>,
    pub total_pages: u64,
}

/// Reads page `page` of a listing over `rows` (the posts, already arranged
/// by the listing's order): the page's posts, and the number of pages that
/// the matching posts fill.
pub fn post_page(plan: QueryPlan, page: u32, page_size: Option<u32>, rows: &Vec<Row>) -> (r: Result<PostPage, PageError>)
    ensures
        r == Err::<PostPage, PageError>(PageError::ZeroPage) <==> page == 0,
        r == Err::<PostPage, PageError>(PageError::ZeroPageSize) <==> page > 0 && page_size_of(page_size) == 0,
        r matches Ok(pp) ==> {
            let total = matching(conditions(plan.filter@), rows_view(rows@)).len();
            let per = page_size_of(page_size);
            &&& pp.page_number == page
            &&& rows_view(pp.posts@) == page_of(matching(conditions(plan.filter@), rows_view(rows@)), ((page - 1) * per) as u64, Some(per as u64))
            &&& pp.total_pages * per >= total
            &&& (pp.total_pages == 0 || (pp.total_pages - 1) * per < total)
        },
{
    let matched = filter_rows(&plan, rows);
    let paged = match paginate(plan, page, page_size) {
        Ok(p) => p,
        Err(e) => {
            return Err(e);
        },
    };
    let per: u32 = match page_size {
        Some(n) => n,
        None => DEFAULT_PER_PAGE,
    };
    let posts = page_rows(&matched, paged.offset, paged.limit);
    let total_pages = total_pages(matched.len() as u64, per);
    Ok(PostPage { page_number: page, posts, total_pages })
}

} // verus!
