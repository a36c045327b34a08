use rustfest::database::Database;
use rustfest::exec::{execute, project_rows};
use rustfest::filter::{conjoin, matches_all, Predicate, Test};
use rustfest::loader::{attach, distinct_keys, load, validate, FieldError};
use rustfest::shape::shape;
use rustfest::pattern::text_like;
use rustfest::model::{Comment, DecodeError, PostPatch, CommentChangeset, NewComment, NewPost, NewUser, Post, PostChangeset, PostState, User, UserChangeset};
use rustfest::mutation::MutationError;
use rustfest::order::{arrange, value_less};
use rustfest::plan::{compile, CompileError, OrderBy};
use rustfest::registry::{Entity, Registry};
use rustfest::rest::{build_post_query, comments_for_post, comments_for_user, post_page, post_with_id, posts_for_user, user_with_id, paginate, DEFAULT_PER_PAGE, total_pages, OrderDirection, PageError, PostColumn, PostQuery};
use rustfest::selection::{Arguments, Direction, FieldFilter, NamedArgument, OrderSpec, SelectionTree};
use rustfest::value::{Row, Value};
use rustfest::versioning::{PostTable, WriteError};

fn s(x: &str) -> String {
    x.to_string()
}

fn new_post(title: &str, author: i32) -> NewPost {
    NewPost { title: s(title), content: None, author }
}

fn selection(root: &str, fields: &[&str]) -> SelectionTree {
    let mut t = SelectionTree::root(s(root), Arguments::none());
    for f in fields {
        t.add(0, s(f), Arguments::none());
    }
    t
}

fn empty_db() -> Database {
    Database::new()
}

fn int_of(v: &Value) -> i64 {
    match v {
        Value::Int(n) => *n,
        _ => panic!("not an integer: {:?}", v),
    }
}

fn text(v: &Value) -> String {
    match v {
        Value::Text(t) => t.clone(),
        _ => panic!("not a text: {:?}", v),
    }
}

fn blog_db() -> Database {
    let mut db = empty_db();
    db.users.push(User { id: 1, name: s("ann"), joined_at: 0 });
    db.users.push(User { id: 2, name: s("bob"), joined_at: 5 });
    for (title, author) in [("Hello", 1), ("World", 2), ("Help", 1)] {
        db.posts.insert(new_post(title, author), 100).unwrap();
    }
    let mut cid = 1;
    for post in [1, 1, 2, 3, 3, 3] {
        db.comments.push(Comment { id: cid, comment: Some(format!("c{}", cid)), published_at: 7, author: 2, post });
        cid += 1;
    }
    db.next_user_id = 3;
    db.next_comment_id = cid;
    db
}

#[test]
fn column_pruning_projects_only_requested() {
    let reg = Registry::blog();
    let t = selection("Post", &["id"]);
    let plan = compile(reg.describe(Entity::Post), &t, 0).unwrap();
    assert_eq!(plan.projection, vec![0]);
    assert!(plan.follow.is_empty());

    let t = selection("Post", &["title", "id", "comments"]);
    let plan = compile(reg.describe(Entity::Post), &t, 0).unwrap();
    assert_eq!(plan.projection, vec![1, 0]);
    assert_eq!(plan.follow.len(), 1);
    assert_eq!(plan.follow[0].node, 3);
}

#[test]
fn batch_loading_runs_one_query_per_relationship() {
    let reg = Registry::blog();
    let db = blog_db();
    let mut t = selection("Post", &["id"]);
    let comments = t.add(0, s("comments"), Arguments::none());
    t.add(comments, s("comment"), Arguments::none());
    let loaded = load(&reg, &db, &t, Entity::Post).unwrap();
    assert_eq!(loaded.queries, 2);
    assert_eq!(loaded.queried, vec![true, false, true, false]);
    assert_eq!(loaded.rows[0].len(), 3);
    assert_eq!(loaded.rows[comments].len(), 6);
    assert_eq!(loaded.relations[comments], Some(2));
    let per_post: Vec<usize> = loaded.rows[0]
        .iter()
        .map(|p| attach(p, 0, &loaded.rows[comments], 4).len())
        .collect();
    assert_eq!(per_post, vec![2, 1, 3]);
}

#[test]
fn batch_loading_query_count_is_independent_of_rows() {
    let reg = Registry::blog();
    let mut db = blog_db();
    for i in 0..20 {
        db.posts.insert(new_post("more", 1), 200 + i).unwrap();
    }
    let mut t = selection("Post", &["id"]);
    let comments = t.add(0, s("comments"), Arguments::none());
    t.add(comments, s("comment"), Arguments::none());
    let author = t.add(0, s("author"), Arguments::none());
    t.add(author, s("name"), Arguments::none());
    let loaded = load(&reg, &db, &t, Entity::Post).unwrap();
    assert_eq!(loaded.rows[0].len(), 23);
    assert_eq!(loaded.queries, 3);
    assert_eq!(loaded.rows[author].len(), 2);
}

#[test]
fn batch_loading_skips_query_without_keys() {
    let reg = Registry::blog();
    let db = empty_db();
    let mut t = selection("Post", &["id"]);
    let comments = t.add(0, s("comments"), Arguments::none());
    let loaded = load(&reg, &db, &t, Entity::Post).unwrap();
    assert_eq!(loaded.queries, 1);
    assert_eq!(loaded.queried, vec![true, false, false]);
    assert_eq!(loaded.links[comments], Some(1));
    assert!(loaded.rows[comments].is_empty());
}

#[test]
fn distinct_keys_drops_nulls_and_repeats() {
    let rows: Vec<Row> = vec![
        vec![Value::Int(1)],
        vec![Value::Null],
        vec![Value::Int(2)],
        vec![Value::Int(1)],
    ];
    let keys = distinct_keys(&rows, 0);
    assert_eq!(keys.len(), 2);
    assert_eq!(int_of(&keys[0]), 1);
    assert_eq!(int_of(&keys[1]), 2);
}

#[test]
fn version_intervals_stay_disjoint() {
    let mut t = PostTable::new();
    let id = t.insert(new_post("a", 1), 0).unwrap();
    let other = t.insert(new_post("b", 1), 0).unwrap();
    for i in 0..3 {
        let c = PostChangeset { id, title: format!("a{}", i), content: None, author: 1, post_state: PostState::Published };
        t.update(c).unwrap();
    }
    let mine: Vec<&Post> = t.rows.iter().filter(|p| p.id == id).collect();
    assert_eq!(mine.len(), 4);
    assert_eq!(mine.iter().filter(|p| p.version_end.is_none()).count(), 1);
    for (k, p) in mine.iter().enumerate() {
        assert_eq!(p.version_start, k as i32);
        if k < 3 {
            assert_eq!(p.version_end, Some(k as i32 + 1));
        }
    }
    assert_eq!(t.rows.iter().filter(|p| p.id == other).count(), 1);
}

#[test]
fn snapshot_reads_the_covering_revision() {
    let mut t = PostTable::new();
    let id = t.insert(new_post("v0", 1), 0).unwrap();
    for title in ["v1", "v2"] {
        let c = PostChangeset { id, title: s(title), content: None, author: 1, post_state: PostState::Draft };
        t.update(c).unwrap();
    }
    for (v, title) in [(0, "v0"), (1, "v1"), (2, "v2"), (9, "v2")] {
        let found = t.at_version(Some(v));
        assert_eq!(found.len(), 1);
        assert_eq!(found[0].title, title);
    }
    let live = t.at_version(None);
    assert_eq!(live.len(), 1);
    assert_eq!(live[0].title, "v2");
    assert_eq!(live[0].version_start, 2);
    assert!(t.at_version(Some(-1)).is_empty());
}

#[test]
fn snapshot_relation_binds_version_argument() {
    let reg = Registry::blog();
    let mut db = empty_db();
    let id = db.posts.insert(new_post("v0", 1), 0).unwrap();
    for title in ["v1", "v2"] {
        let c = PostChangeset { id, title: s(title), content: None, author: 1, post_state: PostState::Draft };
        db.posts.update(c).unwrap();
    }
    let mut args = Arguments::none();
    args.parameters.push(NamedArgument { name: s("version"), value: Some(1) });
    let mut t = SelectionTree::root(s("PostAtVersion"), args);
    t.add(0, s("title"), Arguments::none());
    let plan = compile(reg.describe(Entity::PostAtVersion), &t, 0).unwrap();
    assert_eq!(plan.arguments, vec![Some(1)]);
    let loaded = load(&reg, &db, &t, Entity::PostAtVersion).unwrap();
    let shaped = project_rows(&loaded.rows[0], &plan.projection);
    assert_eq!(shaped.len(), 1);
    assert_eq!(text(&shaped[0][0]), "v1");

    let t = selection("PostAtVersion", &["title"]);
    let loaded = load(&reg, &db, &t, Entity::PostAtVersion).unwrap();
    assert_eq!(loaded.rows[0].len(), 1);
    assert_eq!(text(&loaded.rows[0][0][1]), "v2");
}

#[test]
fn create_post_stores_first_draft_revision() {
    let reg = Registry::blog();
    let mut db = empty_db();
    let t = selection("Post", &["id", "title", "post_state"]);
    let answer = db.create_post(&reg, &t, new_post("Hello", 1), 42).unwrap();
    assert_eq!(db.posts.rows.len(), 1);
    let p = &db.posts.rows[0];
    assert_eq!(p.id, 1);
    assert_eq!(p.title, "Hello");
    assert_eq!(p.content, None);
    assert_eq!(p.author, 1);
    assert_eq!(p.version_start, 0);
    assert_eq!(p.version_end, None);
    assert_eq!(p.post_state, PostState::Draft);
    assert_eq!(answer.rows[0].len(), 1);
    let row = &answer.rows[0][0];
    assert_eq!(int_of(&row[0]), 1);
    assert_eq!(text(&row[1]), "Hello");
    assert!(matches!(row[5], Value::State(PostState::Draft)));
    assert!(matches!(row[7], Value::Null));
}

#[test]
fn update_post_appends_revision_and_answers_new_one() {
    let reg = Registry::blog();
    let mut db = empty_db();
    let t = selection("Post", &["title"]);
    db.create_post(&reg, &t, new_post("Hello", 1), 1).unwrap();
    let c = PostChangeset { id: 1, title: s("Hello v2"), content: None, author: 1, post_state: PostState::Draft };
    let answer = db.update_post(&reg, &t, c).unwrap().unwrap();
    assert_eq!(db.posts.rows.len(), 2);
    let (a, b) = (&db.posts.rows[0], &db.posts.rows[1]);
    assert_eq!((a.id, a.version_start, a.version_end, a.title.as_str()), (1, 0, Some(1), "Hello"));
    assert_eq!((b.id, b.version_start, b.version_end, b.title.as_str()), (1, 1, None, "Hello v2"));
    assert_eq!(answer.rows[0].len(), 1);
    assert_eq!(text(&answer.rows[0][0][1]), "Hello v2");
    assert_eq!(int_of(&answer.rows[0][0][6]), 1);
}

#[test]
fn update_of_missing_post_answers_nothing() {
    let reg = Registry::blog();
    let mut db = empty_db();
    let t = selection("Post", &["id"]);
    let c = PostChangeset { id: 7, title: s("x"), content: None, author: 1, post_state: PostState::Draft };
    assert!(matches!(db.update_post(&reg, &t, c.clone()), Ok(None)));
    assert!(db.posts.rows.is_empty());
    let mut table = PostTable::new();
    assert_eq!(table.update(c), Err(WriteError::NotFound));
}

#[test]
fn users_are_created_renamed_and_removed() {
    let reg = Registry::blog();
    let mut db = empty_db();
    let t = selection("User", &["name", "id"]);
    let answer = db.create_user(&reg, &t, NewUser { name: s("ann") }, 11).unwrap();
    assert_eq!(text(&answer.rows[0][0][1]), "ann");
    assert_eq!(int_of(&answer.rows[0][0][0]), 1);
    assert_eq!(db.users[0].joined_at, 11);
    db.create_user(&reg, &t, NewUser { name: s("bob") }, 12).unwrap();
    let answer = db.update_user(&reg, &t, UserChangeset { id: 2, name: s("rob") }).unwrap().unwrap();
    assert_eq!(text(&answer.rows[0][0][1]), "rob");
    assert_eq!(db.users[1].joined_at, 12);
    assert!(matches!(db.update_user(&reg, &t, UserChangeset { id: 9, name: s("x") }), Ok(None)));
    assert!(db.delete_user(1));
    assert!(!db.delete_user(1));
    assert_eq!(db.users.len(), 1);
    assert_eq!(db.users[0].name, "rob");
    db.next_user_id = i32::MAX;
    assert_eq!(
        db.create_user(&reg, &t, NewUser { name: s("z") }, 0).unwrap_err(),
        MutationError::Write(WriteError::IdsExhausted)
    );
}

#[test]
fn comments_are_created_updated_and_removed() {
    let reg = Registry::blog();
    let mut db = empty_db();
    let t = selection("Comment", &["comment", "post"]);
    let new = NewComment { comment: Some(s("nice")), author: 1, post: 4 };
    let answer = db.create_comment(&reg, &t, new, 3).unwrap();
    assert_eq!(text(&answer.rows[0][0][1]), "nice");
    assert_eq!(answer.rows[0].len(), 1);
    let c = CommentChangeset { id: 1, comment: s("nicer"), author: 2, post: 5 };
    db.update_comment(&reg, &t, c).unwrap().unwrap();
    assert_eq!(db.comments[0].comment, Some(s("nicer")));
    assert_eq!((db.comments[0].author, db.comments[0].post, db.comments[0].published_at), (2, 5, 3));
    let missing = CommentChangeset { id: 8, comment: s("x"), author: 2, post: 5 };
    assert!(matches!(db.update_comment(&reg, &t, missing), Ok(None)));
    let bad = selection("Comment", &["title"]);
    let new = NewComment { comment: None, author: 1, post: 4 };
    assert_eq!(
        db.create_comment(&reg, &bad, new, 3).unwrap_err(),
        MutationError::Invalid(FieldError { node: 0, error: CompileError::UnknownField })
    );
    assert!(db.delete_comment(1));
    assert!(db.comments.is_empty());
    assert!(!db.delete_comment(1));
}

#[test]
fn loader_reports_links_for_stitching() {
    let reg = Registry::blog();
    let db = blog_db();
    let mut t = selection("Comment", &["id"]);
    let author = t.add(0, s("author"), Arguments::none());
    t.add(author, s("name"), Arguments::none());
    let loaded = load(&reg, &db, &t, Entity::Comment).unwrap();
    assert_eq!(loaded.queries, 2);
    let e = loaded.links[author].unwrap();
    let link = &reg.describe(Entity::Comment).relationships[e];
    assert_eq!(link.name, "author");
    assert!(!link.many);
    assert_eq!(loaded.rows[author].len(), 1);
    for c in &loaded.rows[0] {
        let found = attach(c, link.column, &loaded.rows[author], link.peer_column);
        assert_eq!(found, vec![0]);
    }
    assert_eq!(loaded.links[1], None);
}

#[test]
fn loader_rejects_invalid_child_selection() {
    let reg = Registry::blog();
    let db = blog_db();
    let mut t = selection("Post", &["id"]);
    let mut args = Arguments::none();
    args.limit = Some(0);
    t.add(0, s("comments"), args);
    assert!(matches!(load(&reg, &db, &t, Entity::Post), Err(FieldError { node: 2, error: CompileError::InvalidLimit })));
    let t = selection("User", &["nothing"]);
    assert!(matches!(load(&reg, &db, &t, Entity::User), Err(FieldError { node: 0, error: CompileError::UnknownField })));
}

#[test]
fn update_at_largest_version_overflows() {
    let mut t = PostTable::new();
    let id = t.insert(new_post("a", 1), 0).unwrap();
    t.rows[0].version_start = i32::MAX;
    let c = PostChangeset { id, title: s("b"), content: None, author: 1, post_state: PostState::Draft };
    assert_eq!(t.update(c), Err(WriteError::VersionOverflow));
    assert_eq!(t.rows.len(), 1);
}

#[test]
fn insert_fails_when_ids_run_out() {
    let reg = Registry::blog();
    let mut db = empty_db();
    db.posts.next_id = i32::MAX;
    let t = selection("Post", &["id"]);
    assert_eq!(
        db.create_post(&reg, &t, new_post("x", 1), 0).unwrap_err(),
        MutationError::Write(WriteError::IdsExhausted)
    );
    assert!(db.posts.rows.is_empty());
    db.posts.next_id = i32::MAX - 1;
    let batch = vec![new_post("a", 1), new_post("b", 1)];
    assert_eq!(
        db.create_posts(&reg, &t, batch, 0).unwrap_err(),
        MutationError::Write(WriteError::IdsExhausted)
    );
    assert!(db.posts.rows.is_empty());
}

#[test]
fn delete_post_marks_removed_and_keeps_history() {
    let mut db = empty_db();
    db.posts.insert(new_post("a", 1), 0).unwrap();
    assert_eq!(db.delete_post(1), Ok(true));
    assert_eq!(db.posts.rows.len(), 2);
    assert_eq!(db.posts.rows[0].post_state, PostState::Draft);
    assert_eq!(db.posts.rows[0].version_end, Some(1));
    assert_eq!(db.posts.rows[1].post_state, PostState::Deleted);
    assert_eq!(db.posts.rows[1].title, "a");
    assert_eq!(db.posts.rows[1].version_start, 1);
    assert_eq!(db.delete_post(5), Ok(false));
}

#[test]
fn create_posts_writes_batch_and_reads_once() {
    let reg = Registry::blog();
    let mut db = empty_db();
    db.posts.insert(new_post("old", 2), 0).unwrap();
    let t = selection("Post", &["id", "title"]);
    let answer = db.create_posts(&reg, &t, vec![new_post("a", 1), new_post("b", 1)], 9).unwrap();
    assert_eq!(db.posts.rows.len(), 3);
    assert_eq!(answer.rows[0].len(), 2);
    assert_eq!(int_of(&answer.rows[0][0][0]), 2);
    assert_eq!(text(&answer.rows[0][1][1]), "b");
}

#[test]
fn mutation_with_invalid_selection_writes_nothing() {
    let reg = Registry::blog();
    let mut db = empty_db();
    let t = selection("Post", &["nope"]);
    assert_eq!(
        db.create_post(&reg, &t, new_post("a", 1), 0).unwrap_err(),
        MutationError::Invalid(FieldError { node: 0, error: CompileError::UnknownField })
    );
    assert!(db.posts.rows.is_empty());
}

#[test]
fn filter_composition_commutes() {
    let title = Predicate { column: 1, test: Test::Contains(s("He")) };
    let author = Predicate { column: 4, test: Test::Equals(Value::Int(1)) };
    let ab = conjoin(vec![title.clone()], vec![author.clone()]);
    let ba = conjoin(vec![author.clone()], vec![title.clone()]);
    let db = blog_db();
    for p in &db.posts.rows {
        let row = p.to_row();
        let both = matches_all(&vec![title.clone()], &row) && matches_all(&vec![author.clone()], &row);
        assert_eq!(matches_all(&ab, &row), both);
        assert_eq!(matches_all(&ba, &row), both);
    }
    let rows: Vec<Row> = db.posts.rows.iter().map(|p| p.to_row()).collect();
    let t = SelectionTree::root(s("Post"), Arguments {
        filter: vec![
            FieldFilter { field: s("title"), test: Test::Contains(s("He")) },
            FieldFilter { field: s("author"), test: Test::Equals(Value::Int(1)) },
        ],
        order: None,
        limit: None,
        offset: None,
        parameters: vec![],
    });
    let reg = Registry::blog();
    let mut plan = compile(reg.describe(Entity::Post), &t, 0).unwrap();
    let found = execute(&plan, &rows);
    let titles: Vec<String> = found.iter().map(|r| text(&r[1])).collect();
    assert_eq!(titles, vec![s("Hello"), s("Help")]);
    plan.filter.reverse();
    assert_eq!(execute(&plan, &rows).len(), 2);
}

#[test]
fn tests_on_cells() {
    assert!(Test::Contains(s("ell")).check(&Value::Text(s("Hello"))));
    assert!(!Test::Contains(s("xyz")).check(&Value::Text(s("Hello"))));
    assert!(!Test::Contains(s("He")).check(&Value::Null));
    assert!(Test::AtLeast(5).check(&Value::Int(5)));
    assert!(!Test::AtLeast(6).check(&Value::Int(5)));
    assert!(Test::IsNull.check(&Value::Null));
    assert!(!Test::Equals(Value::Null).check(&Value::Null));
    assert!(Test::OneOf(vec![Value::Int(3), Value::Int(4)]).check(&Value::Int(4)));
    assert!(!Test::OneOf(vec![Value::Int(3)]).check(&Value::Int(4)));
}

#[test]
fn pagination_rejects_zero_limit_and_pages_rows() {
    let reg = Registry::blog();
    let mut args = Arguments::none();
    args.limit = Some(0);
    let t = SelectionTree::root(s("Post"), args);
    assert_eq!(compile(reg.describe(Entity::Post), &t, 0).unwrap_err(), CompileError::InvalidLimit);

    let mut args = Arguments::none();
    args.limit = Some(-3);
    let t = SelectionTree::root(s("Post"), args);
    assert_eq!(compile(reg.describe(Entity::Post), &t, 0).unwrap_err(), CompileError::InvalidLimit);

    let mut args = Arguments::none();
    args.offset = Some(-1);
    let t = SelectionTree::root(s("Post"), args);
    assert_eq!(compile(reg.describe(Entity::Post), &t, 0).unwrap_err(), CompileError::InvalidOffset);

    let mut args = Arguments::none();
    args.limit = Some(2);
    args.offset = Some(1);
    let mut t = SelectionTree::root(s("Post"), args);
    t.add(0, s("title"), Arguments::none());
    let plan = compile(reg.describe(Entity::Post), &t, 0).unwrap();
    let db = blog_db();
    let rows: Vec<Row> = db.posts.rows.iter().map(|p| p.to_row()).collect();
    let page = execute(&plan, &rows);
    assert_eq!(page.len(), 2);
    assert_eq!(text(&page[0][1]), "World");
    assert_eq!(text(&page[1][1]), "Help");
    let shaped = project_rows(&page, &plan.projection);
    assert_eq!(shaped[0].len(), 1);

    let mut args = Arguments::none();
    args.limit = Some(5);
    args.offset = Some(2);
    let t = SelectionTree::root(s("Post"), args);
    let plan = compile(reg.describe(Entity::Post), &t, 0).unwrap();
    assert_eq!(execute(&plan, &rows).len(), 1);
}

#[test]
fn unknown_names_are_rejected() {
    let reg = Registry::blog();
    let t = selection("Post", &["id", "missing"]);
    assert_eq!(compile(reg.describe(Entity::Post), &t, 0).unwrap_err(), CompileError::UnknownField);
    let mut args = Arguments::none();
    args.order = Some(OrderSpec { field: s("nope"), direction: Direction::Asc });
    let t = SelectionTree::root(s("Post"), args);
    assert_eq!(compile(reg.describe(Entity::Post), &t, 0).unwrap_err(), CompileError::UnknownField);
    let mut args = Arguments::none();
    args.filter.push(FieldFilter { field: s("nope"), test: Test::IsNull });
    let t = SelectionTree::root(s("Post"), args);
    assert_eq!(compile(reg.describe(Entity::Post), &t, 0).unwrap_err(), CompileError::UnknownField);
}

#[test]
fn order_argument_is_compiled() {
    let reg = Registry::blog();
    let mut args = Arguments::none();
    args.order = Some(OrderSpec { field: s("published_at"), direction: Direction::Desc });
    let t = SelectionTree::root(s("Post"), args);
    let plan = compile(reg.describe(Entity::Post), &t, 0).unwrap();
    let order = plan.order.unwrap();
    assert_eq!((order.column, order.descending), (3, true));
}

#[test]
fn primary_keys_follow_marking_rule() {
    let reg = Registry::blog();
    assert_eq!(reg.describe(Entity::Post).primary_key(), vec![0, 6]);
    assert_eq!(reg.describe(Entity::User).primary_key(), vec![0]);
    assert_eq!(reg.describe(Entity::PostAtVersion).primary_key(), vec![0]);
}

#[test]
fn post_listing_query_conjoins_filters() {
    let q = PostQuery {
        order: Some(PostColumn::Title),
        order_direction: Some(OrderDirection::Desc),
        id: None,
        title: Some(s("%He%")),
        content: None,
        later_than: Some(50),
        author: Some(1),
    };
    let plan = build_post_query(q);
    assert_eq!(plan.filter.len(), 3);
    assert_eq!(plan.projection, (0..8).collect::<Vec<usize>>());
    let order = plan.order.unwrap();
    assert_eq!((order.column, order.descending), (1, true));
    let db = blog_db();
    let rows: Vec<Row> = db.posts.rows.iter().map(|p| p.to_row()).collect();
    assert_eq!(execute(&plan, &rows).len(), 2);

    let q = PostQuery { order: Some(PostColumn::Id), order_direction: None, id: Some(2), title: None, content: None, later_than: None, author: None };
    let plan = build_post_query(q);
    assert!(!plan.order.unwrap().descending);
    let found = execute(&plan, &rows);
    assert_eq!(found.len(), 1);
    assert_eq!(text(&found[0][1]), "World");
}

#[test]
fn listing_pages() {
    let q = PostQuery { order: None, order_direction: None, id: None, title: None, content: None, later_than: None, author: None };
    let plan = build_post_query(q.clone());
    assert_eq!(paginate(plan, 0, Some(5)).unwrap_err(), PageError::ZeroPage);
    let plan = build_post_query(q.clone());
    assert_eq!(paginate(plan, 1, Some(0)).unwrap_err(), PageError::ZeroPageSize);
    let plan = paginate(build_post_query(q.clone()), 2, None).unwrap();
    assert_eq!((plan.offset, plan.limit), (DEFAULT_PER_PAGE as u64, Some(DEFAULT_PER_PAGE as u64)));
    let plan = paginate(build_post_query(q), 3, Some(10)).unwrap();
    assert_eq!(plan.offset, 20);
    assert_eq!(plan.limit, Some(10));
    assert_eq!(total_pages(0, 10), 0);
    assert_eq!(total_pages(10, 10), 1);
    assert_eq!(total_pages(11, 10), 2);
    assert_eq!(total_pages(u64::MAX, 1), u64::MAX);
}

#[test]
fn ordered_reads_arrange_rows() {
    let reg = Registry::blog();
    let db = blog_db();
    let mut args = Arguments::none();
    args.order = Some(OrderSpec { field: s("title"), direction: Direction::Desc });
    let mut t = SelectionTree::root(s("Post"), args);
    t.add(0, s("title"), Arguments::none());
    let loaded = load(&reg, &db, &t, Entity::Post).unwrap();
    let titles: Vec<String> = loaded.rows[0].iter().map(|r| text(&r[1])).collect();
    assert_eq!(titles, vec![s("World"), s("Help"), s("Hello")]);

    let mut args = Arguments::none();
    args.order = Some(OrderSpec { field: s("title"), direction: Direction::Asc });
    args.limit = Some(2);
    args.offset = Some(1);
    let t = SelectionTree::root(s("Post"), args);
    let loaded = load(&reg, &db, &t, Entity::Post).unwrap();
    let titles: Vec<String> = loaded.rows[0].iter().map(|r| text(&r[1])).collect();
    assert_eq!(titles, vec![s("Help"), s("World")]);
}

#[test]
fn arrange_puts_nulls_last_and_keeps_unordered_rows() {
    let rows: Vec<Row> = vec![
        vec![Value::Null],
        vec![Value::Int(3)],
        vec![Value::Int(-1)],
        vec![Value::Int(3)],
    ];
    let asc = arrange(&rows, Some(OrderBy { column: 0, descending: false }));
    let cells: Vec<Option<i64>> = asc.iter().map(|r| match r[0] { Value::Int(n) => Some(n), _ => None }).collect();
    assert_eq!(cells, vec![Some(-1), Some(3), Some(3), None]);
    let desc = arrange(&rows, Some(OrderBy { column: 0, descending: true }));
    let cells: Vec<Option<i64>> = desc.iter().map(|r| match r[0] { Value::Int(n) => Some(n), _ => None }).collect();
    assert_eq!(cells, vec![None, Some(3), Some(3), Some(-1)]);
    let same = arrange(&rows, None);
    assert_eq!(same.len(), 4);
    assert!(matches!(same[0][0], Value::Null));
    assert!(matches!(same[2][0], Value::Int(-1)));
}

#[test]
fn text_order_is_by_code_point() {
    assert!(value_less(&Value::Text(s("He")), &Value::Text(s("Hello"))));
    assert!(!value_less(&Value::Text(s("Hello")), &Value::Text(s("He"))));
    assert!(value_less(&Value::Text(s("Z")), &Value::Text(s("a"))));
    assert!(value_less(&Value::Text(s("a")), &Value::Text(s("é"))));
    assert!(!value_less(&Value::Text(s("x")), &Value::Text(s("x"))));
    assert!(value_less(&Value::Int(5), &Value::Null));
    assert!(value_less(&Value::State(PostState::Draft), &Value::State(PostState::Deleted)));
}

#[test]
fn post_state_codec_round_trips() {
    for st in [PostState::Draft, PostState::Published, PostState::Deleted] {
        let bytes = st.encode();
        assert_eq!(PostState::decode(&bytes), Ok(st));
    }
    assert_eq!(PostState::Published.encode(), b"Published".to_vec());
    assert_eq!(PostState::decode(b"Deleted"), Ok(PostState::Deleted));
    assert_eq!(PostState::decode(b"draft"), Err(DecodeError::UnknownVariant));
    assert_eq!(PostState::decode(b""), Err(DecodeError::UnknownVariant));
}

#[test]
fn like_patterns_match_whole_text() {
    assert!(text_like("Hello", "%He%"));
    assert!(text_like("Hello", "He%"));
    assert!(!text_like("Hello", "He"));
    assert!(text_like("Hello", "Hello"));
    assert!(text_like("Hello", "H_llo"));
    assert!(!text_like("Hello", "H_lo"));
    assert!(text_like("", "%"));
    assert!(!text_like("", "_"));
    assert!(text_like("50%", "50\\%"));
    assert!(!text_like("500", "50\\%"));
    assert!(text_like("héllo", "h_llo"));
    assert!(text_like("a%b", "%\\%%"));
}

#[test]
fn listing_title_is_a_like_pattern() {
    let db = blog_db();
    let rows: Vec<Row> = db.posts.rows.iter().map(|p| p.to_row()).collect();
    let mut q = PostQuery { order: None, order_direction: None, id: None, title: Some(s("%He%")), content: None, later_than: None, author: Some(1) };
    let found = execute(&build_post_query(q.clone()), &rows);
    let titles: Vec<String> = found.iter().map(|r| text(&r[1])).collect();
    assert_eq!(titles, vec![s("Hello"), s("Help")]);
    q.title = Some(s("Hello"));
    assert_eq!(execute(&build_post_query(q.clone()), &rows).len(), 1);
    q.title = Some(s("He"));
    assert_eq!(execute(&build_post_query(q), &rows).len(), 0);
}

#[test]
fn mutation_answer_resolves_relationships() {
    let reg = Registry::blog();
    let mut db = blog_db();
    let mut t = selection("Post", &["id"]);
    let comments = t.add(0, s("comments"), Arguments::none());
    t.add(comments, s("id"), Arguments::none());
    let author = t.add(0, s("author"), Arguments::none());
    t.add(author, s("name"), Arguments::none());
    let c = PostChangeset { id: 3, title: s("Help!"), content: None, author: 1, post_state: PostState::Published };
    let answer = db.update_post(&reg, &t, c).unwrap().unwrap();
    assert_eq!(answer.rows[0].len(), 1);
    assert_eq!(answer.rows[comments].len(), 3);
    assert_eq!(answer.rows[author].len(), 1);
    assert_eq!(text(&answer.rows[author][0][1]), "ann");
    assert_eq!(answer.queries, 3);

    let answer = db.create_posts(&reg, &t, vec![new_post("x", 2), new_post("y", 2), new_post("z", 1)], 9).unwrap();
    assert_eq!(answer.rows[0].len(), 3);
    assert_eq!(answer.queries, 3);
    assert!(answer.rows[comments].is_empty());
    assert_eq!(answer.rows[author].len(), 2);
}

#[test]
fn invalid_child_selection_is_rejected_before_writing() {
    let reg = Registry::blog();
    let mut db = blog_db();
    let mut t = selection("Post", &["id"]);
    let comments = t.add(0, s("comments"), Arguments::none());
    t.add(comments, s("nope"), Arguments::none());
    assert!(matches!(validate(&reg, &t, Entity::Post), Err(FieldError { node: 2, error: CompileError::UnknownField })));
    let before = db.posts.rows.len();
    assert_eq!(db.create_post(&reg, &t, new_post("x", 1), 0).unwrap_err(), MutationError::Invalid(FieldError { node: 2, error: CompileError::UnknownField }));
    assert_eq!(db.posts.rows.len(), before);
    assert!(validate(&reg, &selection("Post", &["id", "title"]), Entity::Post).is_ok());
}

#[test]
fn patch_keeps_unnamed_fields() {
    let mut t = PostTable::new();
    let id = t.insert(NewPost { title: s("a"), content: Some(s("body")), author: 1 }, 0).unwrap();
    let v = t.patch(id, PostPatch { title: Some(s("b")), content: None, author: None }).unwrap();
    assert_eq!(v, 1);
    let live = &t.rows[1];
    assert_eq!((live.title.as_str(), live.content.clone(), live.author), ("b", Some(s("body")), 1));
    t.patch(id, PostPatch { title: None, content: Some(None), author: Some(4) }).unwrap();
    let live = &t.rows[2];
    assert_eq!((live.title.as_str(), live.content.clone(), live.author), ("b", None, 4));
    assert_eq!(t.patch(99, PostPatch { title: None, content: None, author: None }), Err(WriteError::NotFound));
}

#[test]
fn comments_of_one_post() {
    let db = blog_db();
    let rows: Vec<Row> = db.comments.iter().map(|c| c.to_row()).collect();
    let found = execute(&comments_for_post(3), &rows);
    let ids: Vec<i64> = found.iter().map(|r| int_of(&r[0])).collect();
    assert_eq!(ids, vec![4, 5, 6]);
    assert!(execute(&comments_for_post(9), &rows).is_empty());
}

#[test]
fn revisions_keep_publication_time() {
    let mut t = PostTable::new();
    let id = t.insert(new_post("a", 1), 77).unwrap();
    let c = PostChangeset { id, title: s("b"), content: None, author: 1, post_state: PostState::Draft };
    t.update(c).unwrap();
    t.patch(id, PostPatch { title: Some(s("c")), content: None, author: None }).unwrap();
    t.delete(id).unwrap();
    assert_eq!(t.rows.len(), 4);
    assert!(t.rows.iter().all(|p| p.published_at == 77));
    assert_eq!(t.rows[3].post_state, PostState::Deleted);
    assert_eq!(t.rows[3].title, "c");
}

#[test]
fn shaped_answer_projects_and_stitches() {
    let reg = Registry::blog();
    let db = blog_db();
    let mut t = selection("Post", &["title"]);
    let comments = t.add(0, s("comments"), Arguments::none());
    t.add(comments, s("comment"), Arguments::none());
    let author = t.add(0, s("author"), Arguments::none());
    t.add(author, s("name"), Arguments::none());
    let loaded = load(&reg, &db, &t, Entity::Post).unwrap();
    let shaped = shape(&reg, &t, &loaded);
    assert_eq!(shaped.columns[0].len(), 3);
    assert_eq!(shaped.columns[0][0].len(), 1);
    assert_eq!(text(&shaped.columns[0][0][0]), "Hello");
    let per_post: Vec<usize> = shaped.children[comments].iter().map(|c| c.len()).collect();
    assert_eq!(per_post, vec![2, 1, 3]);
    let first = &shaped.children[comments][0];
    assert_eq!(text(&shaped.columns[comments][first[0]][0]), "c1");
    let authors: Vec<String> = shaped.children[author]
        .iter()
        .map(|c| text(&shaped.columns[author][c[0]][0]))
        .collect();
    assert_eq!(authors, vec![s("ann"), s("bob"), s("ann")]);
    assert!(shaped.children[1].is_empty());
    assert!(shaped.columns[1].is_empty());
}

#[test]
fn single_column_reads() {
    let db = blog_db();
    let comment_rows: Vec<Row> = db.comments.iter().map(|c| c.to_row()).collect();
    assert_eq!(execute(&comments_for_user(2), &comment_rows).len(), 6);
    assert!(execute(&comments_for_user(1), &comment_rows).is_empty());
    let post_rows: Vec<Row> = db.posts.rows.iter().map(|p| p.to_row()).collect();
    assert_eq!(execute(&posts_for_user(1), &post_rows).len(), 2);
    let found = execute(&post_with_id(2), &post_rows);
    assert_eq!(found.len(), 1);
    assert_eq!(text(&found[0][1]), "World");
    let user_rows: Vec<Row> = db.users.iter().map(|u| u.to_row()).collect();
    assert_eq!(text(&execute(&user_with_id(2), &user_rows)[0][1]), "bob");
}

#[test]
fn post_page_counts_pages() {
    let mut db = blog_db();
    for i in 0..9 {
        db.posts.insert(new_post("more", 2), i).unwrap();
    }
    let rows: Vec<Row> = db.posts.rows.iter().map(|p| p.to_row()).collect();
    let q = PostQuery { order: None, order_direction: None, id: None, title: None, content: None, later_than: None, author: None };
    let pp = post_page(build_post_query(q.clone()), 2, None, &rows).unwrap();
    assert_eq!((pp.page_number, pp.posts.len(), pp.total_pages), (2, 2, 2));
    let pp = post_page(build_post_query(q.clone()), 1, Some(5), &rows).unwrap();
    assert_eq!((pp.posts.len(), pp.total_pages), (5, 3));
    assert_eq!(post_page(build_post_query(q), 0, None, &rows).unwrap_err(), PageError::ZeroPage);
}
