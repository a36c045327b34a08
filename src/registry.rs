use vstd::prelude::*;
use crate::schema::{column_names, key_marks, link_shapes, relationship_names, Column, Relation, Relationship, ScalarType};

verus! {

/// The entity types of the blog, with their position in the registry.
#[derive(Debug, Clone, Copy, PartialEq, Eq, Structural)]
pub enum Entity {
    User,
    Post,
    Comment,
    PostAtVersion,
}

impl Entity {
    pub open spec fn spec_index(self) -> usize {
        match self {
            Entity::User => 0,
            Entity::Post => 1,
            Entity::Comment => 2,
            Entity::PostAtVersion => 3,
        }
    }

    /// The entity's position in the registry.
    #[verifier::when_used_as_spec(spec_index)]
    pub fn index(self) -> (r: usize)
        ensures
            r == self.spec_index(),
    {
        match self {
            Entity::User => 0,
            Entity::Post => 1,
            Entity::Comment => 2,
            Entity::PostAtVersion => 3,
        }
    }
}

/// The relation descriptors, built once and read-only afterwards.
pub struct Registry {
    pub relations: Vec<Relation>,
}

fn column(name: &str, ty: ScalarType, nullable: bool, key: bool) -> (r: Column)
    ensures
        r.name@ == name@,
        r.ty == ty,
        r.nullable == nullable,
        r.key == key,
{
    Column { name: String::from_str(name), ty, nullable, key }
}

fn relationship(name: &str, target: usize, column: usize, peer_column: usize, many: bool) -> (r:
    Relationship)
    ensures
        r.name@ == name@,
        r.target == target,
        r.column == column,
        r.peer_column == peer_column,
        r.many == many,
{
    Relationship { name: String::from_str(name), target, column, peer_column, many }
}

impl Registry {
    /// Every relationship leads to a registered relation, and both of its
    /// columns exist.
    pub open spec fn wf(&self) -> bool {
        forall|r: int, e: int|
            0 <= r < self.relations@.len() && 0 <= e < self.relations@[r].relationships@.len()
                ==> {
                let x = #[trigger] self.relations@[r].relationships@[e];
                &&& x.target < self.relations@.len()
                &&& x.column < self.relations@[r].columns@.len()
                &&& x.peer_column < self.relations@[x.target as int].columns@.len()
            }
    }

    /// The blog's registry: users, posts (with their version columns),
    /// comments, and the snapshot relation `posts_at_version(version)`.
    pub fn blog() -> (r: Registry)
        ensures
            r.wf(),
            r.relations@.len() == 4,
            r.relations@[0].name@ == "users"@,
            r.relations@[1].name@ == "posts"@,
            r.relations@[2].name@ == "comments"@,
            r.relations@[3].name@ == "posts_at_version"@,
            column_names(r.relations@[0].columns@) == seq!["id"@, "name"@, "joined_at"@],
            column_names(r.relations@[1].columns@) == seq![
                "id"@,
                "title"@,
                "content"@,
                "published_at"@,
                "author"@,
                "post_state"@,
                "version_start"@,
                "version_end"@,
            ],
            column_names(r.relations@[2].columns@) == seq![
                "id"@,
                "comment"@,
                "published_at"@,
                "author"@,
                "post"@,
            ],
            column_names(r.relations@[3].columns@) == seq![
                "id"@,
                "title"@,
                "content"@,
                "published_at"@,
                "author"@,
                "post_state"@,
            ],
            key_marks(r.relations@[0].columns@) == seq![true, false, false],
            key_marks(r.relations@[1].columns@) == seq![true, false, false, false, false, false, true, false],
            key_marks(r.relations@[2].columns@) == seq![true, false, false, false, false],
            key_marks(r.relations@[3].columns@) == seq![false, false, false, false, false, false],
            relationship_names(r.relations@[0].relationships@) == seq!["posts"@, "comments"@],
            relationship_names(r.relations@[1].relationships@) == seq!["author"@, "comments"@],
            relationship_names(r.relations@[2].relationships@) == seq![
                "author"@,
                "post"@,
                "posts_at_version"@,
            ],
            relationship_names(r.relations@[3].relationships@) == seq!["author"@, "comments"@],
            link_shapes(r.relations@[0].relationships@) == seq![
                (1usize, 0usize, 4usize, true),
                (2usize, 0usize, 3usize, true),
            ],
            link_shapes(r.relations@[1].relationships@) == seq![
                (0usize, 4usize, 0usize, false),
                (2usize, 0usize, 4usize, true),
            ],
            link_shapes(r.relations@[2].relationships@) == seq![
                (0usize, 3usize, 0usize, false),
                (1usize, 4usize, 0usize, false),
                (3usize, 4usize, 0usize, false),
            ],
            link_shapes(r.relations@[3].relationships@) == seq![
                (0usize, 4usize, 0usize, false),
                (2usize, 0usize, 4usize, true),
            ],
            r.relations@[0].parameters@.len() == 0,
            r.relations@[1].parameters@.len() == 0,
            r.relations@[2].parameters@.len() == 0,
            r.relations@[3].parameters@.map_values(|p: String| p@) == seq!["version"@],
    {
        let mut users: Vec<Column> = Vec::new();
        users.push(column("id", ScalarType::Integer, false, true));
        users.push(column("name", ScalarType::Text, false, false));
        users.push(column("joined_at", ScalarType::Timestamp, false, false));
        let mut user_links: Vec<Relationship> = Vec::new();
        user_links.push(relationship("posts", 1, 0, 4, true));
        user_links.push(relationship("comments", 2, 0, 3, true));

        let mut posts: Vec<Column> = Vec::new();
        posts.push(column("id", ScalarType::Integer, false, true));
        posts.push(column("title", ScalarType::Text, false, false));
        posts.push(column("content", ScalarType::Text, true, false));
        posts.push(column("published_at", ScalarType::Timestamp, false, false));
        posts.push(column("author", ScalarType::Integer, false, false));
        posts.push(column("post_state", ScalarType::State, false, false));
        posts.push(column("version_start", ScalarType::Integer, false, true));
        posts.push(column("version_end", ScalarType::Integer, true, false));
        let mut post_links: Vec<Relationship> = Vec::new();
        post_links.push(relationship("author", 0, 4, 0, false));
        post_links.push(relationship("comments", 2, 0, 4, true));

        let mut comments: Vec<Column> = Vec::new();
        comments.push(column("id", ScalarType::Integer, false, true));
        comments.push(column("comment", ScalarType::Text, true, false));
        comments.push(column("published_at", ScalarType::Timestamp, false, false));
        comments.push(column("author", ScalarType::Integer, false, false));
        comments.push(column("post", ScalarType::Integer, false, false));
        let mut comment_links: Vec<Relationship> = Vec::new();
        comment_links.push(relationship("author", 0, 3, 0, false));
        comment_links.push(relationship("post", 1, 4, 0, false));
        comment_links.push(relationship("posts_at_version", 3, 4, 0, false));

        let mut snapshot: Vec<Column> = Vec::new();
        snapshot.push(column("id", ScalarType::Integer, false, false));
        snapshot.push(column("title", ScalarType::Text, false, false));
        snapshot.push(column("content", ScalarType::Text, true, false));
        snapshot.push(column("published_at", ScalarType::Timestamp, false, false));
        snapshot.push(column("author", ScalarType::Integer, false, false));
        snapshot.push(column("post_state", ScalarType::State, false, false));
        let mut snapshot_links: Vec<Relationship> = Vec::new();
        snapshot_links.push(relationship("author", 0, 4, 0, false));
        snapshot_links.push(relationship("comments", 2, 0, 4, true));
        let mut parameters: Vec<String> = Vec::new();
        parameters.push(String::from_str("version"));

        let mut relations: Vec<Relation> = Vec::new();
        relations.push(
            Relation {
                name: String::from_str("users"),
                columns: users,
                relationships: user_links,
                parameters: Vec::new(),
            },
        );
        relations.push(
            Relation {
                name: String::from_str("posts"),
                columns: posts,
                relationships: post_links,
                parameters: Vec::new(),
            },
        );
        relations.push(
            Relation {
                name: String::from_str("comments"),
                columns: comments,
                relationships: comment_links,
                parameters: Vec::new(),
            },
        );
        relations.push(
            Relation {
                name: String::from_str("posts_at_version"),
                columns: snapshot,
                relationships: snapshot_links,
                parameters,
            },
        );
        let r = Registry { relations };
        assert(r.wf());
        assert(column_names(r.relations@[0].columns@) =~= seq!["id"@, "name"@, "joined_at"@]);
        assert(column_names(r.relations@[1].columns@) =~= seq![
            "id"@,
            "title"@,
            "content"@,
            "published_at"@,
            "author"@,
            "post_state"@,
            "version_start"@,
            "version_end"@,
        ]);
        assert(column_names(r.relations@[2].columns@) =~= seq![
            "id"@,
            "comment"@,
            "published_at"@,
            "author"@,
            "post"@,
        ]);
        assert(column_names(r.relations@[3].columns@) =~= seq![
            "id"@,
            "title"@,
            "content"@,
            "published_at"@,
            "author"@,
            "post_state"@,
        ]);
        assert(relationship_names(r.relations@[0].relationships@) =~= seq!["posts"@, "comments"@]);
        assert(relationship_names(r.relations@[1].relationships@) =~= seq!["author"@, "comments"@]);
        assert(relationship_names(r.relations@[2].relationships@) =~= seq![
            "author"@,
            "post"@,
            "posts_at_version"@,
        ]);
        assert(relationship_names(r.relations@[3].relationships@) =~= seq!["author"@, "comments"@]);
        assert(key_marks(r.relations@[0].columns@) =~= seq![true, false, false]);
        assert(key_marks(r.relations@[1].columns@) =~= seq![true, false, false, false, false, false, true, false]);
        assert(key_marks(r.relations@[2].columns@) =~= seq![true, false, false, false, false]);
        assert(key_marks(r.relations@[3].columns@) =~= seq![false, false, false, false, false, false]);
        assert(link_shapes(r.relations@[0].relationships@) =~= seq![
            (1usize, 0usize, 4usize, true),
            (2usize, 0usize, 3usize, true),
        ]);
        assert(link_shapes(r.relations@[1].relationships@) =~= seq![
            (0usize, 4usize, 0usize, false),
            (2usize, 0usize, 4usize, true),
        ]);
        assert(link_shapes(r.relations@[2].relationships@) =~= seq![
            (0usize, 3usize, 0usize, false),
            (1usize, 4usize, 0usize, false),
            (3usize, 4usize, 0usize, false),
        ]);
        assert(link_shapes(r.relations@[3].relationships@) =~= seq![
            (0usize, 4usize, 0usize, false),
            (2usize, 0usize, 4usize, true),
        ]);
        assert(r.relations@[3].parameters@.map_values(|p: String| p@) =~= seq!["version"@]);
        r
    }

    /// The descriptor of an entity type.
    pub fn describe(&self, e: Entity) -> (r: &Relation)
        requires
            self.relations@.len() == 4,
        ensures
            *r == self.relations@[e.index() as int],
    {
        &self.relations[e.index()]
    }
}

} // verus!
