use vstd::prelude::*;

verus! {

/// Lifecycle state of a post. Deletion is a transition to `Deleted`, never a
/// physical removal.
#[derive(Debug, Clone, Copy, PartialEq, Eq, Structural)]
pub enum PostState {
    Draft,
    Published,
    Deleted,
}

/// A stored state name that names no state.
#[derive(Debug, Clone, Copy, PartialEq, Eq, Structural)]
pub enum DecodeError {
    UnknownVariant,
}

/// The stored name of a state, as bytes: "Draft", "Published", "Deleted".
pub open spec fn state_name(s: PostState) -> Seq<u8> {
    match s {
        PostState::Draft => seq![68u8, 114, 97, 102, 116],
        PostState::Published => seq![80u8, 117, 98, 108, 105, 115, 104, 101, 100],
        PostState::Deleted => seq![68u8, 101, 108, 101, 116, 101, 100],
    }
}

fn same_bytes(a: &[u8], b: &Vec<u8>) -> (r: bool)
    ensures
        r == (a@ == b@),
{
    if a.len() != b.len() {
        return false;
    }
    let mut i: usize = 0;
    while i < a.len()
        invariant
            i <= a@.len(),
            a@.len() == b@.len(),
            forall|k: int| 0 <= k < i ==> a@[k] == b@[k],
        decreases a@.len() - i,
    {
        if a[i] != b[i] {
            return false;
        }
        i += 1;
    }
    assert(a@ =~= b@);
    true
}

impl PostState {
    /// The stored name of the state.
    pub fn encode(&self) -> (r: Vec<u8>)
        ensures
            r@ == state_name(*self),
    {
        let r: Vec<u8> = match self {
            PostState::Draft => vec![68u8, 114, 97, 102, 116],
            PostState::Published => vec![80u8, 117, 98, 108, 105, 115, 104, 101, 100],
            PostState::Deleted => vec![68u8, 101, 108, 101, 116, 101, 100],
        };
        assert(r@ =~= state_name(*self));
        r
    }

    /// The state a stored name names; any other bytes are an unknown
    /// variant.
    pub fn decode(b: &[u8]) -> (r: Result<PostState, DecodeError>)
        ensures
            match r {
                Ok(s) => state_name(s) == b@,
                Err(e) => forall|s: PostState| #[trigger] state_name(s) != b@,
            },
    {
        let draft = PostState::Draft.encode();
        let published = PostState::Published.encode();
        let deleted = PostState::Deleted.encode();
        if same_bytes(b, &draft) {
            Ok(PostState::Draft)
        } else if same_bytes(b, &published) {
            Ok(PostState::Published)
        } else if same_bytes(b, &deleted) {
            Ok(PostState::Deleted)
        } else {
            assert forall|s: PostState| #[trigger] state_name(s) != b@ by {
                match s {
                    PostState::Draft => {},
                    PostState::Published => {},
                    PostState::Deleted => {},
                }
            }
            Err(DecodeError::UnknownVariant)
        }
    }
}

/// Decoding an encoded state gives the state back: no two states share a
/// stored name.
pub proof fn lemma_state_round_trip(s: PostState, t: PostState)
    ensures
        state_name(s) == state_name(t) ==> s == t,
{
    if state_name(s) == state_name(t) {
        assert(state_name(s).len() == state_name(t).len());
        assert(state_name(s)[1] == state_name(t)[1]);
    }
}

/// One stored revision of a post: the logical id, the half-open version
/// interval `[version_start, version_end)` (an absent end marks the live
/// revision), and the field values as of that revision. `published_at` is a
/// timestamp in microseconds since the Unix epoch.
#[derive(Debug, Clone)]
pub struct Post {
    pub id: i32,
    pub title: String,
    pub content: Option<String>,
    pub published_at: i64,
    pub author: i32,
    pub post_state: PostState,
    pub version_start: i32,
    pub version_end: Option<i32>,
}

/// The fields a client supplies to create a post.
#[derive(Debug, Clone)]
pub struct NewPost {
    pub title: String,
    pub content: Option<String>,
    pub author: i32,
}

/// A full replacement of a post's editable fields, addressed by id.
#[derive(Debug, Clone)]
pub struct PostChangeset {
    pub id: i32,
    pub title: String,
    pub content: Option<String>,
    pub author: i32,
    pub post_state: PostState,
}

/// A partial change to a post: only the fields given are replaced
/// (`content: Some(None)` clears the content).
#[derive(Debug, Clone)]
pub struct PostPatch {
    pub title: Option<String>,
    pub content: Option<Option<String>>,
    pub author: Option<i32>,
}

/// A stored user (not versioned).
#[derive(Debug, Clone)]
pub struct User {
    pub id: i32,
    pub name: String,
    pub joined_at: i64,
}

/// The fields a client supplies to create a user.
#[derive(Debug, Clone)]
pub struct NewUser {
    pub name: String,
}

/// A replacement of a user's name, addressed by id.
#[derive(Debug, Clone)]
pub struct UserChangeset {
    pub id: i32,
    pub name: String,
}

/// A stored comment (not versioned).
#[derive(Debug, Clone)]
pub struct Comment {
    pub id: i32,
    pub comment: Option<String>,
    pub published_at: i64,
    pub author: i32,
    pub post: i32,
}

/// The fields a client supplies to create a comment.
#[derive(Debug, Clone)]
pub struct NewComment {
    pub comment: Option<String>,
    pub author: i32,
    pub post: i32,
}

/// A replacement of a comment's fields, addressed by id.
#[derive(Debug, Clone)]
pub struct CommentChangeset {
    pub id: i32,
    pub comment: String,
    pub author: i32,
    pub post: i32,
}

} // verus!
