use vstd::prelude::*;

verus! {

/// Milliseconds in one day: the width of a date bucket.
pub const DAY_MS: u64 = 86400000;

/// Longest nickname, in bytes.
pub const MAX_NICKNAME: usize = 64;

/// Longest avatar hash, in bytes.
pub const MAX_AVATAR: usize = 32;

/// Longest public key, in bytes.
pub const MAX_PUBLIC_KEY: usize = 256;

/// Longest post content, in bytes.
pub const MAX_CONTENT: usize = 2048;

/// Most replies one post can hold.
pub const MAX_REPLIES: usize = 256;

/// Most pointers one date bucket can hold.
pub const MAX_BUCKET: usize = 10000;

/// An account identifier, as handed over by the host's identity service.
pub type AccountId = u64;

/// A timestamp in milliseconds, as handed over by the host's clock.
pub type Moment = u64;

/// The day number of a timestamp.
pub open spec fn bucket_of(t: u64) -> u64 {
    t / DAY_MS
}

/// Computes the day bucket of a timestamp.
pub fn date_bucket(t: Moment) -> (r: u64)
    ensures
        r == bucket_of(t),
{
    t / DAY_MS
}

/// The composite key of a post: when it was created, and by whom.
#[derive(Clone, Copy, Debug, PartialEq, Eq, Structural, Hash)]
pub struct PostPointer {
    pub time: Moment,
    pub author: AccountId,
}

/// The single integer that a pointer is stored under: the time in the high
/// 64 bits, the author in the low 64 bits.
pub open spec fn key_of(p: PostPointer) -> u128 {
    (p.time as int * 0x1_0000_0000_0000_0000 + p.author as int) as u128
}

/// Two pointers share a storage key only if they are the same pointer.
pub proof fn lemma_key_injective(a: PostPointer, b: PostPointer)
    ensures
        key_of(a) == key_of(b) ==> a == b,
{
    let m: int = 0x1_0000_0000_0000_0000;
    let ta = a.time as int;
    let tb = b.time as int;
    let ua = a.author as int;
    let ub = b.author as int;
    assert(0 <= ta * m + ua < 0x1_0000_0000_0000_0000_0000_0000_0000_0000) by (nonlinear_arith)
        requires
            0 <= ta < m,
            0 <= ua < m,
            m == 0x1_0000_0000_0000_0000,
    ;
    assert(0 <= tb * m + ub < 0x1_0000_0000_0000_0000_0000_0000_0000_0000) by (nonlinear_arith)
        requires
            0 <= tb < m,
            0 <= ub < m,
            m == 0x1_0000_0000_0000_0000,
    ;
    if ta * m + ua == tb * m + ub {
        assert(ta == tb && ua == ub) by (nonlinear_arith)
            requires
                ta * m + ua == tb * m + ub,
                0 <= ua < m,
                0 <= ub < m,
                m > 0,
        ;
    }
}

impl PostPointer {
    /// The storage key of this pointer.
    pub fn key(&self) -> (r: u128)
        ensures
            r == key_of(*self),
    {
        let t = self.time as u128;
        let a = self.author as u128;
        assert(t * 0x1_0000_0000_0000_0000 + a < 0x1_0000_0000_0000_0000_0000_0000_0000_0000)
            by (nonlinear_arith)
            requires
                t < 0x1_0000_0000_0000_0000,
                a < 0x1_0000_0000_0000_0000,
        ;
        t * 0x1_0000_0000_0000_0000 + a
    }
}

/// A registered account's profile.
#[derive(Clone, Debug)]
pub struct UserSystemItem {
    /// When the profile was last written.
    pub last_change: Moment,
    pub nickname: Vec<u8>,
    /// Hash of the avatar image.
    pub avatar: Vec<u8>,
    /// Key that others use to write to this account privately.
    pub rsa_public_key: Vec<u8>,
}

/// A post, addressed by its `PostPointer`.
#[derive(Clone, Debug)]
pub struct Post {
    pub content: Vec<u8>,
    pub owner: AccountId,
    /// Replies in the order they arrived.
    pub replies: Vec<PostPointer>,
    pub likes: u128,
    pub dislikes: u128,
    pub attention: u128,
    pub posted_time: Moment,
    pub last_reply_time: Moment,
}

/// Why an operation was refused. A refused operation changes nothing.
#[derive(Clone, Copy, Debug, PartialEq, Eq, Structural)]
pub enum Error {
    /// A profile field is longer than its bound.
    FieldTooLarge,
    /// The caller has no profile.
    UnregisteredUser,
    /// The post content is longer than its bound.
    ContentTooLarge,
    /// The caller already posted at this exact timestamp.
    PostTooFrequent,
    /// No post has the given pointer.
    PostNotFound,
    LikeOwnPost,
    DislikeOwnPost,
    AttentionOwnPost,
    /// The registered-user counter cannot grow any further.
    CounterOverflow,
    /// A date bucket is full.
    TooManyPostsOnThisDate,
    /// The post replied to holds as many replies as it can.
    TooMuchReplyOnThis,
}

/// What the engine reports to its subscribers after a change.
#[derive(Clone, Copy, Debug, PartialEq, Eq, Structural)]
pub enum Event {
    UserCreated(AccountId),
    UserUpdated(AccountId),
    /// The author, and the new post.
    PostCreated(AccountId, PostPointer),
    /// Who reacted, and to which post.
    PostLiked(AccountId, PostPointer),
    PostDisliked(AccountId, PostPointer),
    PostAttended(AccountId, PostPointer),
    /// Sender and receiver of a private message.
    PrivateMsg(AccountId, AccountId),
}

} // verus!
