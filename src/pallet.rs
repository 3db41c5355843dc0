use std::collections::HashMap;
use vstd::prelude::*;
use crate::date_index::{DateIndex, lemma_push_count, lemma_remove_value_count};
use crate::monitor::{ActivityMonitor, count_after};
use crate::types::{
    AccountId, Error, Event, Moment, Post, PostPointer, UserSystemItem, bucket_of, date_bucket,
    key_of, lemma_key_injective, MAX_AVATAR, MAX_BUCKET, MAX_CONTENT, MAX_NICKNAME,
    MAX_PUBLIC_KEY, MAX_REPLIES,
};

verus! {

broadcast use vstd::std_specs::hash::group_hash_axioms, vstd::seq_lib::group_to_multiset_ensures;

/// Values the host loads before the first operation; an unset counter reads as zero.
pub struct GenesisConfig {
    pub user_sum: Option<u128>,
    pub monitoring: Option<u128>,
    pub monitored_day: Option<u64>,
}

impl GenesisConfig {
    /// Everything at zero.
    pub fn default() -> (r: GenesisConfig)
        ensures
            r.user_sum == Some(0u128),
            r.monitoring == Some(0u128),
            r.monitored_day == Some(0u64),
    {
        GenesisConfig { user_sum: Some(0), monitoring: Some(0), monitored_day: Some(0) }
    }

    /// A fresh store holding no user and no post, with the loaded scalars.
    pub fn build(&self) -> (r: Pallet)
        ensures
            r.wf(),
            r.users() == Map::<AccountId, UserSystemItem>::empty(),
            r.user_sum() == match self.user_sum {
                Some(n) => n,
                None => 0u128,
            },
            r.initial_users() == r.user_sum() as int,
            forall|p: PostPointer| !#[trigger] r.has_post(p),
            forall|d: u64| #[trigger] r.by_post_date(d) == Seq::<PostPointer>::empty(),
            forall|d: u64| #[trigger] r.by_reply_date(d) == Seq::<PostPointer>::empty(),
            r.monitoring() == match self.monitoring {
                Some(n) => n,
                None => 0u128,
            },
            r.monitored_day() == self.monitored_day,
            r.events() == Seq::<Event>::empty(),
    {
        let user_sum: u128 = match self.user_sum {
            Some(n) => n,
            None => 0,
        };
        let monitoring: u128 = match self.monitoring {
            Some(n) => n,
            None => 0,
        };
        let r = Pallet {
            users: HashMap::new(),
            user_sum,
            user_base: Ghost(user_sum as int),
            posts: HashMap::new(),
            posts_by_post_date: DateIndex::new(),
            posts_by_last_reply_date: DateIndex::new(),
            monitor: ActivityMonitor::new(monitoring, self.monitored_day),
            events: Vec::new(),
        };
        assert(r.users@.len() == 0);
        assert forall|d: u64, p: PostPointer|
            r.posts_by_post_date.occurrences(d, p) == 0 && r.posts_by_last_reply_date.occurrences(
                d,
                p,
            ) == 0 by {
            assert(!r.posts_by_post_date.entries(d).contains(p));
            assert(!r.posts_by_last_reply_date.entries(d).contains(p));
        }
        r
    }
}

/// The whole store: profiles, posts, the two date indexes, the daily monitor,
/// and the log of events handed to subscribers.
pub struct Pallet {
    users: HashMap<AccountId, UserSystemItem>,
    user_sum: u128,
    user_base: Ghost<int>,
    posts: HashMap<u128, Post>,
    posts_by_post_date: DateIndex,
    posts_by_last_reply_date: DateIndex,
    monitor: ActivityMonitor,
    events: Vec<Event>,
}

/// Which counter a reaction raises.
pub enum Reaction {
    Like,
    Dislike,
    Attention,
}

/// The error for reacting to one's own post.
pub open spec fn own_post_error(kind: Reaction) -> Error {
    match kind {
        Reaction::Like => Error::LikeOwnPost,
        Reaction::Dislike => Error::DislikeOwnPost,
        Reaction::Attention => Error::AttentionOwnPost,
    }
}

/// The event reporting a reaction.
pub open spec fn reaction_event(kind: Reaction, who: AccountId, p: PostPointer) -> Event {
    match kind {
        Reaction::Like => Event::PostLiked(who, p),
        Reaction::Dislike => Event::PostDisliked(who, p),
        Reaction::Attention => Event::PostAttended(who, p),
    }
}

/// `n + 1`, held at the largest `u128`.
pub open spec fn saturating_inc(n: u128) -> u128 {
    if n == u128::MAX {
        u128::MAX
    } else {
        (n + 1) as u128
    }
}

/// The post after a reaction of the given kind.
pub open spec fn reacted(kind: Reaction, post: Post) -> Post {
    match kind {
        Reaction::Like => Post { likes: saturating_inc(post.likes), ..post },
        Reaction::Dislike => Post { dislikes: saturating_inc(post.dislikes), ..post },
        Reaction::Attention => Post { attention: saturating_inc(post.attention), ..post },
    }
}

/// Fields a stored post always satisfies.
pub open spec fn post_ok(p: PostPointer, post: Post) -> bool {
    &&& post.owner == p.author
    &&& post.posted_time == p.time
    &&& post.content@.len() <= MAX_CONTENT
    &&& post.replies@.len() <= MAX_REPLIES
}

/// Fields a stored profile always satisfies.
pub open spec fn profile_ok(u: UserSystemItem) -> bool {
    &&& u.nickname@.len() <= MAX_NICKNAME
    &&& u.avatar@.len() <= MAX_AVATAR
    &&& u.rsa_public_key@.len() <= MAX_PUBLIC_KEY
}

impl Pallet {
    /// Profiles by account.
    pub closed spec fn users(&self) -> Map<AccountId, UserSystemItem> {
        self.users@
    }

    /// The registered-user counter.
    pub closed spec fn user_sum(&self) -> u128 {
        self.user_sum
    }

    /// The counter's value when the store was built.
    pub closed spec fn initial_users(&self) -> int {
        self.user_base@
    }

    pub closed spec fn has_post(&self, p: PostPointer) -> bool {
        self.posts@.contains_key(key_of(p))
    }

    pub closed spec fn post_view(&self, p: PostPointer) -> Post {
        self.posts@[key_of(p)]
    }

    /// Pointers filed under day `d` by creation date.
    pub closed spec fn by_post_date(&self, d: u64) -> Seq<PostPointer> {
        self.posts_by_post_date.entries(d)
    }

    /// Pointers filed under day `d` by date of last reply.
    pub closed spec fn by_reply_date(&self, d: u64) -> Seq<PostPointer> {
        self.posts_by_last_reply_date.entries(d)
    }

    /// Posts counted on the monitored day.
    pub closed spec fn monitoring(&self) -> u128 {
        self.monitor.count
    }

    pub closed spec fn monitored_day(&self) -> Option<u64> {
        self.monitor.day
    }

    /// Events emitted so far, oldest first.
    pub closed spec fn events(&self) -> Seq<Event> {
        self.events@
    }

    /// The store's invariant: bounded fields and lists, a counter that grew by
    /// one per profile, and each post filed exactly once in each index, under
    /// the day of its creation and the day of its last reply.
    pub closed spec fn wf(&self) -> bool {
        &&& self.posts_by_post_date.wf()
        &&& self.posts_by_last_reply_date.wf()
        &&& self.user_sum as int == self.user_base@ + self.users@.len()
        &&& forall|a: AccountId| #[trigger]
            self.users@.contains_key(a) ==> profile_ok(self.users@[a])
        &&& forall|p: PostPointer| #[trigger]
            self.has_post(p) ==> post_ok(p, self.post_view(p))
        &&& forall|d: u64, p: PostPointer| #[trigger]
            self.posts_by_post_date.occurrences(d, p) == if self.has_post(p) && bucket_of(p.time)
                == d {
                1nat
            } else {
                0nat
            }
        &&& forall|d: u64, p: PostPointer| #[trigger]
            self.posts_by_last_reply_date.occurrences(d, p) == if self.has_post(p) && bucket_of(
                self.post_view(p).last_reply_time,
            ) == d {
                1nat
            } else {
                0nat
            }
    }

    /// The store's parts that a profile write leaves alone.
    pub open spec fn same_posts(&self, other: &Pallet) -> bool {
        &&& forall|p: PostPointer| #[trigger] self.has_post(p) == other.has_post(p)
        &&& forall|p: PostPointer| #[trigger] self.post_view(p) == other.post_view(p)
        &&& self.same_indexes(other)
    }

    /// The indexes and the daily monitor are as in `other`.
    pub open spec fn same_indexes(&self, other: &Pallet) -> bool {
        &&& forall|d: u64| #[trigger] self.by_post_date(d) == other.by_post_date(d)
        &&& forall|d: u64| #[trigger] self.by_reply_date(d) == other.by_reply_date(d)
        &&& self.monitoring() == other.monitoring()
        &&& self.monitored_day() == other.monitored_day()
    }

    /// What a successful registration of `item` for `who` leaves: the profile
    /// written whole, the counter raised only for a new account, the matching
    /// event logged, and the posts untouched.
    pub open spec fn registered_from(&self, before: &Pallet, who: AccountId, item: UserSystemItem) -> bool {
        &&& self.users() == before.users().insert(who, item)
        &&& self.user_sum() == if before.users().contains_key(who) {
            before.user_sum()
        } else {
            (before.user_sum() + 1) as u128
        }
        &&& self.same_posts(before)
        &&& self.events() == before.events().push(
            if before.users().contains_key(who) {
                Event::UserUpdated(who)
            } else {
                Event::UserCreated(who)
            },
        )
    }

    /// The error a registration gets, if any.
    pub open spec fn register_error(
        &self,
        who: AccountId,
        nickname: Seq<u8>,
        avatar: Seq<u8>,
        rsa_public_key: Seq<u8>,
    ) -> Option<Error> {
        if nickname.len() > MAX_NICKNAME || avatar.len() > MAX_AVATAR || rsa_public_key.len()
            > MAX_PUBLIC_KEY {
            Some(Error::FieldTooLarge)
        } else if !self.users().contains_key(who) && self.user_sum() == u128::MAX {
            Some(Error::CounterOverflow)
        } else {
            None
        }
    }

    /// Creates the caller's profile, or overwrites it whole. A new profile
    /// raises the user counter by one; an overwrite leaves it alone.
    pub fn register_or_change_user_info(
        &mut self,
        who: AccountId,
        now: Moment,
        nickname: Vec<u8>,
        avatar: Vec<u8>,
        rsa_public_key: Vec<u8>,
    ) -> (r: Result<(), Error>)
        requires
            old(self).wf(),
        ensures
            final(self).wf(),
            final(self).initial_users() == old(self).initial_users(),
            r == match old(self).register_error(who, nickname@, avatar@, rsa_public_key@) {
                Some(e) => Err(e),
                None => Ok(()),
            },
            r is Err ==> *final(self) == *old(self),
            r is Ok ==> final(self).registered_from(
                old(self),
                who,
                (UserSystemItem { last_change: now, nickname, avatar, rsa_public_key }),
            ),
    {
        if nickname.len() > MAX_NICKNAME || avatar.len() > MAX_AVATAR || rsa_public_key.len()
            > MAX_PUBLIC_KEY {
            return Err(Error::FieldTooLarge);
        }
        let ghost s0 = *self;
        let item = UserSystemItem { last_change: now, nickname, avatar, rsa_public_key };
        if self.users.contains_key(&who) {
            let ghost before = self.users@;
            self.users.insert(who, item);
            assert(self.users@.dom() =~= before.dom());
            self.events.push(Event::UserUpdated(who));
        } else {
            if self.user_sum == u128::MAX {
                return Err(Error::CounterOverflow);
            }
            self.user_sum = self.user_sum + 1;
            let ghost before = self.users@;
            self.users.insert(who, item);
            assert(self.users@.dom() =~= before.dom().insert(who));
            self.events.push(Event::UserCreated(who));
        }
        assert(forall|a: AccountId| #[trigger]
            self.users@.contains_key(a) ==> profile_ok(self.users@[a]));
        assert forall|d: u64, p: PostPointer|
            #[trigger] self.posts_by_last_reply_date.occurrences(d, p) == s0.posts_by_last_reply_date.occurrences(d, p)
                && self.has_post(p) == s0.has_post(p) && self.post_view(p) == s0.post_view(p) by {}
        assert forall|p: PostPointer| #[trigger] self.has_post(p) implies post_ok(p, self.post_view(p)) by {
            assert(s0.has_post(p));
        }
        Ok(())
    }
}

/// A post just created by `who` at `now` with the given content.
pub open spec fn fresh_post(post: Post, who: AccountId, now: Moment, content: Seq<u8>) -> bool {
    &&& post.content@ == content
    &&& post.owner == who
    &&& post.replies@ == Seq::<PostPointer>::empty()
    &&& post.likes == 0
    &&& post.dislikes == 0
    &&& post.attention == 0
    &&& post.posted_time == now
    &&& post.last_reply_time == now
}

/// `after` is `before` with `child` appended to its replies at time `now`.
pub open spec fn replied_post(before: Post, after: Post, child: PostPointer, now: Moment) -> bool {
    &&& after.content == before.content
    &&& after.owner == before.owner
    &&& after.replies@ == before.replies@.push(child)
    &&& after.likes == before.likes
    &&& after.dislikes == before.dislikes
    &&& after.attention == before.attention
    &&& after.posted_time == before.posted_time
    &&& after.last_reply_time == now
}

impl Pallet {
    /// Whether the reply-date bucket `d` has room for a reply to `parent`:
    /// the parent moves there, and the new post is filed there too.
    pub open spec fn reply_room(&self, parent: PostPointer, d: u64) -> bool {
        if bucket_of(self.post_view(parent).last_reply_time) == d {
            self.by_reply_date(d).len() + 1 <= MAX_BUCKET
        } else {
            self.by_reply_date(d).len() + 2 <= MAX_BUCKET
        }
    }

    /// The error a new post gets, if any, checked in this order.
    pub open spec fn new_post_error(
        &self,
        who: AccountId,
        now: Moment,
        content_len: nat,
        reply_to: Option<PostPointer>,
    ) -> Option<Error> {
        let ptr = PostPointer { time: now, author: who };
        let d = bucket_of(now);
        if !self.users().contains_key(who) {
            Some(Error::UnregisteredUser)
        } else if content_len > MAX_CONTENT {
            Some(Error::ContentTooLarge)
        } else if self.has_post(ptr) {
            Some(Error::PostTooFrequent)
        } else if self.by_post_date(d).len() >= MAX_BUCKET {
            Some(Error::TooManyPostsOnThisDate)
        } else {
            match reply_to {
                None => if self.by_reply_date(d).len() >= MAX_BUCKET {
                    Some(Error::TooManyPostsOnThisDate)
                } else {
                    None
                },
                Some(parent) => if !self.has_post(parent) {
                    Some(Error::PostNotFound)
                } else if self.post_view(parent).replies@.len() >= MAX_REPLIES {
                    Some(Error::TooMuchReplyOnThis)
                } else if !self.reply_room(parent, d) {
                    Some(Error::TooManyPostsOnThisDate)
                } else {
                    None
                },
            }
        }
    }

    /// Bucket `e` of the reply-date index after a post on day `d` at `ptr`:
    /// a reply moves its parent from the parent's old day to `d`, then the new
    /// post is filed under `d`.
    pub open spec fn reply_index_after(
        &self,
        e: u64,
        d: u64,
        ptr: PostPointer,
        reply_to: Option<PostPointer>,
    ) -> Seq<PostPointer> {
        match reply_to {
            None => if e == d {
                self.by_reply_date(e).push(ptr)
            } else {
                self.by_reply_date(e)
            },
            Some(parent) => {
                let old_d = bucket_of(self.post_view(parent).last_reply_time);
                let moved = if e == old_d {
                    self.by_reply_date(e).remove_value(parent)
                } else {
                    self.by_reply_date(e)
                };
                if e == d {
                    moved.push(parent).push(ptr)
                } else {
                    moved
                }
            },
        }
    }

    /// Creates a post by `who` at time `now`, optionally as a reply to an
    /// existing post, and returns its pointer `(now, who)`. The pointer is
    /// filed by its day in both indexes, the daily monitor counts it, and a
    /// parent records the reply and moves to that day in the reply-date index.
    #[verifier::rlimit(40)]
    pub fn new_post(
        &mut self,
        who: AccountId,
        now: Moment,
        content: Vec<u8>,
        reply_to: Option<PostPointer>,
    ) -> (r: Result<PostPointer, Error>)
        requires
            old(self).wf(),
        ensures
            final(self).wf(),
            final(self).initial_users() == old(self).initial_users(),
            match old(self).new_post_error(who, now, content@.len(), reply_to) {
                Some(e) => r == Err::<PostPointer, Error>(e),
                None => r == Ok::<PostPointer, Error>(PostPointer { time: now, author: who }),
            },
            r is Err ==> *final(self) == *old(self),
            r is Ok ==> {
                let ptr = PostPointer { time: now, author: who };
                let d = bucket_of(now);
                &&& final(self).users() == old(self).users()
                &&& final(self).user_sum() == old(self).user_sum()
                &&& final(self).has_post(ptr)
                &&& fresh_post(final(self).post_view(ptr), who, now, content@)
                &&& forall|q: PostPointer| #[trigger]
                    final(self).has_post(q) == (old(self).has_post(q) || q == ptr)
                &&& forall|q: PostPointer|
                    q != ptr && Some(q) != reply_to ==> #[trigger] final(self).post_view(q)
                        == old(self).post_view(q)
                &&& match reply_to {
                    Some(parent) => replied_post(
                        old(self).post_view(parent),
                        final(self).post_view(parent),
                        ptr,
                        now,
                    ),
                    None => true,
                }
                &&& forall|e: u64| #[trigger]
                    final(self).by_post_date(e) == if e == d {
                        old(self).by_post_date(e).push(ptr)
                    } else {
                        old(self).by_post_date(e)
                    }
                &&& forall|e: u64| #[trigger]
                    final(self).by_reply_date(e) == old(self).reply_index_after(e, d, ptr, reply_to)
                &&& final(self).monitored_day() == Some(d)
                &&& final(self).monitoring() == count_after(
                    old(self).monitoring(),
                    old(self).monitored_day(),
                    d,
                )
                &&& final(self).events() == old(self).events().push(Event::PostCreated(who, ptr))
            },
    {
        let ghost s0 = *self;
        if !self.users.contains_key(&who) {
            return Err(Error::UnregisteredUser);
        }
        if content.len() > MAX_CONTENT {
            return Err(Error::ContentTooLarge);
        }
        let ptr = PostPointer { time: now, author: who };
        let key = ptr.key();
        if self.posts.contains_key(&key) {
            return Err(Error::PostTooFrequent);
        }
        let d = date_bucket(now);
        if self.posts_by_post_date.len_on(d) >= MAX_BUCKET {
            return Err(Error::TooManyPostsOnThisDate);
        }
        let reply_len = self.posts_by_last_reply_date.len_on(d);
        let mut parent_day: u64 = 0;
        match reply_to {
            None => {
                if reply_len >= MAX_BUCKET {
                    return Err(Error::TooManyPostsOnThisDate);
                }
            },
            Some(parent) => {
                let pk = parent.key();
                let (n_replies, last) = match self.posts.get(&pk) {
                    Some(pp) => (pp.replies.len(), pp.last_reply_time),
                    None => {
                        return Err(Error::PostNotFound);
                    },
                };
                if n_replies >= MAX_REPLIES {
                    return Err(Error::TooMuchReplyOnThis);
                }
                parent_day = date_bucket(last);
                if parent_day == d {
                    if reply_len + 1 > MAX_BUCKET {
                        return Err(Error::TooManyPostsOnThisDate);
                    }
                } else {
                    if reply_len + 2 > MAX_BUCKET {
                        return Err(Error::TooManyPostsOnThisDate);
                    }
                }
            },
        }
        // All validation is done: nothing below fails.

        let post = Post {
            content,
            owner: who,
            replies: Vec::new(),
            likes: 0,
            dislikes: 0,
            attention: 0,
            posted_time: now,
            last_reply_time: now,
        };
        self.posts.insert(key, post);
        let pushed = self.posts_by_post_date.try_push(d, ptr);
        assert(pushed is Ok);
        self.monitor.record_post(d);
        proof {
            assert forall|q: PostPointer| #[trigger] self.has_post(q) != s0.has_post(q) implies q
                == ptr by {
                lemma_key_injective(q, ptr);
            }
            assert forall|q: PostPointer| q != ptr implies #[trigger] self.post_view(q)
                == s0.post_view(q) by {
                lemma_key_injective(q, ptr);
            }
            assert(self.post_view(ptr).last_reply_time == now);
        }
        match reply_to {
            None => {
                let pushed = self.posts_by_last_reply_date.try_push(d, ptr);
                assert(pushed is Ok);
            },
            Some(parent) => {
                let pk = parent.key();
                let ghost s1 = *self;
                proof {
                    lemma_key_injective(parent, ptr);
                    assert(s0.has_post(parent));
                    assert(self.posts@.contains_key(pk));
                }
                let mut pp = match self.posts.remove(&pk) {
                    Some(pp) => pp,
                    None => {
                        return Err(Error::PostNotFound);
                    },
                };
                pp.replies.push(ptr);
                pp.last_reply_time = now;
                self.posts.insert(pk, pp);
                proof {
                    assert forall|q: PostPointer| #[trigger] self.has_post(q) == s1.has_post(q) && (q
                        != parent ==> self.post_view(q) == s1.post_view(q)) by {
                        lemma_key_injective(q, parent);
                    }
                }
                proof {
                    s0.posts_by_last_reply_date.entries(parent_day).index_of_first_ensures(parent);
                    assert(s0.posts_by_last_reply_date.occurrences(parent_day, parent) == 1);
                    assert(s0.by_reply_date(parent_day).contains(parent));
                }
                self.posts_by_last_reply_date.remove_one(parent_day, parent);
                let pushed = self.posts_by_last_reply_date.try_push(d, parent);
                assert(pushed is Ok);
                let pushed = self.posts_by_last_reply_date.try_push(d, ptr);
                assert(pushed is Ok);
            },
        }
        self.events.push(Event::PostCreated(who, ptr));
        proof {
            assert forall|q: PostPointer| #[trigger] self.has_post(q) implies post_ok(
                q,
                self.post_view(q),
            ) by {
                lemma_key_injective(q, ptr);
                if let Some(parent) = reply_to {
                    lemma_key_injective(q, parent);
                }
                if q != ptr {
                    assert(s0.has_post(q));
                }
            }
            assert forall|e: u64, q: PostPointer| #[trigger]
                self.posts_by_post_date.occurrences(e, q) == if self.has_post(q) && bucket_of(
                    q.time,
                ) == e {
                    1nat
                } else {
                    0nat
                } by {
                assert(s0.posts_by_post_date.occurrences(e, q) == if s0.has_post(q) && bucket_of(
                    q.time,
                ) == e {
                    1nat
                } else {
                    0nat
                });
                lemma_push_count(s0.by_post_date(e), ptr, q);
                lemma_key_injective(q, ptr);
                assert(self.has_post(q) == (s0.has_post(q) || q == ptr));
                assert(self.by_post_date(e) == if e == d {
                    s0.by_post_date(e).push(ptr)
                } else {
                    s0.by_post_date(e)
                });
            }
            assert forall|e: u64, q: PostPointer| #[trigger]
                self.posts_by_last_reply_date.occurrences(e, q) == if self.has_post(q) && bucket_of(
                    self.post_view(q).last_reply_time,
                ) == e {
                    1nat
                } else {
                    0nat
                } by {
                assert(s0.posts_by_last_reply_date.occurrences(e, q) == if s0.has_post(q)
                    && bucket_of(s0.post_view(q).last_reply_time) == e {
                    1nat
                } else {
                    0nat
                });
                lemma_key_injective(q, ptr);
                assert(self.has_post(q) == (s0.has_post(q) || q == ptr));
                match reply_to {
                    None => {
                        lemma_push_count(s0.by_reply_date(e), ptr, q);
                        assert(self.by_reply_date(e).to_multiset().count(q) == s0.by_reply_date(
                            e,
                        ).to_multiset().count(q) + if q == ptr && e == d {
                            1nat
                        } else {
                            0nat
                        });
                        assert(q != ptr ==> self.post_view(q) == s0.post_view(q));
                    },
                    Some(parent) => {
                        lemma_key_injective(q, parent);
                        assert(parent_day == bucket_of(s0.post_view(parent).last_reply_time));
                        assert(self.post_view(parent).last_reply_time == now);
                        assert(self.post_view(ptr).last_reply_time == now);
                        assert(q != ptr && q != parent ==> self.post_view(q) == s0.post_view(q));
                        assert(self.by_reply_date(e) == s0.reply_index_after(e, d, ptr, reply_to));
                        let moved = if e == parent_day {
                            s0.by_reply_date(e).remove_value(parent)
                        } else {
                            s0.by_reply_date(e)
                        };
                        lemma_remove_value_count(s0.by_reply_date(e), parent, q);
                        lemma_push_count(moved, parent, q);
                        lemma_push_count(moved.push(parent), ptr, q);
                        assert(s0.posts_by_last_reply_date.occurrences(parent_day, parent) == 1);
                        assert(self.by_reply_date(e).to_multiset().count(q) == moved.to_multiset().count(q) + (if q == ptr && e == d {
                            1nat
                        } else {
                            0nat
                        }) + (if q == parent && e == d {
                            1nat
                        } else {
                            0nat
                        }));
                    },
                }
            }
        }
        Ok(ptr)
    }
}

impl Pallet {
    /// The error a reaction gets, if any, checked in this order.
    pub open spec fn react_error(&self, kind: Reaction, who: AccountId, p: PostPointer) -> Option<
        Error,
    > {
        if !self.users().contains_key(who) {
            Some(Error::UnregisteredUser)
        } else if !self.has_post(p) {
            Some(Error::PostNotFound)
        } else if self.post_view(p).owner == who {
            Some(own_post_error(kind))
        } else {
            None
        }
    }

    /// What a successful reaction leaves: only the one counter of the one post
    /// has moved, and the matching event is logged.
    pub open spec fn reacted_from(
        &self,
        before: &Pallet,
        kind: Reaction,
        who: AccountId,
        p: PostPointer,
    ) -> bool {
        &&& self.users() == before.users()
        &&& self.user_sum() == before.user_sum()
        &&& forall|q: PostPointer| #[trigger] self.has_post(q) == before.has_post(q)
        &&& self.post_view(p) == reacted(kind, before.post_view(p))
        &&& forall|q: PostPointer| q != p ==> #[trigger] self.post_view(q) == before.post_view(q)
        &&& self.same_indexes(before)
        &&& self.events() == before.events().push(reaction_event(kind, who, p))
    }

    /// Raises the counter of `kind` on post `p` by one, saturating, on behalf
    /// of `who`, who must be registered and must not own the post.
    pub fn react(&mut self, kind: Reaction, who: AccountId, p: PostPointer) -> (r: Result<(), Error>)
        requires
            old(self).wf(),
        ensures
            final(self).wf(),
            final(self).initial_users() == old(self).initial_users(),
            r == match old(self).react_error(kind, who, p) {
                Some(e) => Err(e),
                None => Ok(()),
            },
            r is Err ==> *final(self) == *old(self),
            r is Ok ==> final(self).reacted_from(old(self), kind, who, p),
    {
        let ghost s0 = *self;
        if !self.users.contains_key(&who) {
            return Err(Error::UnregisteredUser);
        }
        let key = p.key();
        let owner = match self.posts.get(&key) {
            Some(post) => post.owner,
            None => {
                return Err(Error::PostNotFound);
            },
        };
        if owner == who {
            return Err(
                match kind {
                    Reaction::Like => Error::LikeOwnPost,
                    Reaction::Dislike => Error::DislikeOwnPost,
                    Reaction::Attention => Error::AttentionOwnPost,
                },
            );
        }
        let mut post = match self.posts.remove(&key) {
            Some(post) => post,
            None => {
                return Err(Error::PostNotFound);
            },
        };
        let event = match kind {
            Reaction::Like => {
                post.likes = post.likes.saturating_add(1);
                Event::PostLiked(who, p)
            },
            Reaction::Dislike => {
                post.dislikes = post.dislikes.saturating_add(1);
                Event::PostDisliked(who, p)
            },
            Reaction::Attention => {
                post.attention = post.attention.saturating_add(1);
                Event::PostAttended(who, p)
            },
        };
        self.posts.insert(key, post);
        self.events.push(event);
        proof {
            assert forall|q: PostPointer|
                #![trigger self.has_post(q)]
                #![trigger self.post_view(q)]
                self.has_post(q) == s0.has_post(q) && (q != p ==> self.post_view(q)
                    == s0.post_view(q)) by {
                lemma_key_injective(q, p);
            }
            assert forall|q: PostPointer| #[trigger] self.has_post(q) implies post_ok(
                q,
                self.post_view(q),
            ) by {
                assert(s0.has_post(q));
            }
            assert forall|e: u64, q: PostPointer| #[trigger]
                self.posts_by_post_date.occurrences(e, q) == s0.posts_by_post_date.occurrences(e, q)
                by {}
            assert forall|e: u64, q: PostPointer| #[trigger]
                self.posts_by_last_reply_date.occurrences(e, q)
                    == s0.posts_by_last_reply_date.occurrences(e, q) by {
                assert(self.post_view(q).last_reply_time == s0.post_view(q).last_reply_time);
            }
        }
        Ok(())
    }

    /// Likes post `p` on behalf of `who`.
    pub fn like_post(&mut self, who: AccountId, p: PostPointer) -> (r: Result<(), Error>)
        requires
            old(self).wf(),
        ensures
            final(self).wf(),
            final(self).initial_users() == old(self).initial_users(),
            r == match old(self).react_error(Reaction::Like, who, p) {
                Some(e) => Err(e),
                None => Ok(()),
            },
            r is Err ==> *final(self) == *old(self),
            r is Ok ==> final(self).reacted_from(old(self), Reaction::Like, who, p),
    {
        self.react(Reaction::Like, who, p)
    }

    /// Dislikes post `p` on behalf of `who`.
    pub fn dislike_post(&mut self, who: AccountId, p: PostPointer) -> (r: Result<(), Error>)
        requires
            old(self).wf(),
        ensures
            final(self).wf(),
            final(self).initial_users() == old(self).initial_users(),
            r == match old(self).react_error(Reaction::Dislike, who, p) {
                Some(e) => Err(e),
                None => Ok(()),
            },
            r is Err ==> *final(self) == *old(self),
            r is Ok ==> final(self).reacted_from(old(self), Reaction::Dislike, who, p),
    {
        self.react(Reaction::Dislike, who, p)
    }

    /// Marks post `p` as worth attention on behalf of `who`.
    pub fn attention_post(&mut self, who: AccountId, p: PostPointer) -> (r: Result<(), Error>)
        requires
            old(self).wf(),
        ensures
            final(self).wf(),
            final(self).initial_users() == old(self).initial_users(),
            r == match old(self).react_error(Reaction::Attention, who, p) {
                Some(e) => Err(e),
                None => Ok(()),
            },
            r is Err ==> *final(self) == *old(self),
            r is Ok ==> final(self).reacted_from(old(self), Reaction::Attention, who, p),
    {
        self.react(Reaction::Attention, who, p)
    }
}

impl Pallet {
    /// The profile of `who`, if registered.
    pub fn get_user(&self, who: AccountId) -> (r: Option<&UserSystemItem>)
        ensures
            match r {
                Some(u) => self.users().contains_key(who) && *u == self.users()[who],
                None => !self.users().contains_key(who),
            },
    {
        self.users.get(&who)
    }

    /// The registered-user counter.
    pub fn get_user_sum(&self) -> (r: u128)
        ensures
            r == self.user_sum(),
    {
        self.user_sum
    }

    /// The post at `p`, if any.
    pub fn get_post(&self, p: PostPointer) -> (r: Option<&Post>)
        ensures
            match r {
                Some(post) => self.has_post(p) && *post == self.post_view(p),
                None => !self.has_post(p),
            },
    {
        let key = p.key();
        self.posts.get(&key)
    }

    /// The pointers created on day `d`, oldest first.
    pub fn get_posts_by_post_date(&self, d: u64) -> (r: Vec<PostPointer>)
        ensures
            r@ == self.by_post_date(d),
    {
        self.posts_by_post_date.posts_on(d)
    }

    /// The pointers whose last reply (or creation, without a reply) fell on day `d`.
    pub fn get_posts_by_reply_date(&self, d: u64) -> (r: Vec<PostPointer>)
        ensures
            r@ == self.by_reply_date(d),
    {
        self.posts_by_last_reply_date.posts_on(d)
    }

    /// Posts counted on the monitored day.
    pub fn get_monitoring(&self) -> (r: u128)
        ensures
            r == self.monitoring(),
    {
        self.monitor.count
    }

    /// The day the monitor counts.
    pub fn get_monitored_day(&self) -> (r: Option<u64>)
        ensures
            r == self.monitored_day(),
    {
        self.monitor.day
    }

    /// Events emitted so far, oldest first.
    pub fn get_events(&self) -> (r: &Vec<Event>)
        ensures
            r@ == self.events(),
    {
        &self.events
    }
}

/// Registering writes the nickname given; registering again with another
/// nickname replaces it and leaves the user counter where it was.
pub proof fn lemma_register_then_update(
    s0: &Pallet,
    s1: &Pallet,
    s2: &Pallet,
    who: AccountId,
    first: UserSystemItem,
    second: UserSystemItem,
)
    requires
        s1.registered_from(s0, who, first),
        s2.registered_from(s1, who, second),
    ensures
        s1.users().contains_key(who),
        s1.users()[who].nickname == first.nickname,
        s2.users()[who].nickname == second.nickname,
        s2.user_sum() == s1.user_sum(),
        s2.events().last() == Event::UserUpdated(who),
{
}

/// The user counter is its starting value plus the number of profiles: after
/// k distinct accounts registered into a store that started at zero, it is k.
pub proof fn lemma_user_count(s: &Pallet)
    requires
        s.wf(),
    ensures
        s.user_sum() == s.initial_users() + s.users().len(),
{
}

/// A post at a pointer already in use is refused as too frequent; since a
/// refused operation changes nothing, the store stays as it was.
pub proof fn lemma_duplicate_pointer_refused(
    s: &Pallet,
    who: AccountId,
    now: Moment,
    content_len: nat,
    reply_to: Option<PostPointer>,
)
    requires
        s.users().contains_key(who),
        content_len <= MAX_CONTENT,
        s.has_post(PostPointer { time: now, author: who }),
    ensures
        s.new_post_error(who, now, content_len, reply_to) == Some(Error::PostTooFrequent),
{
}

/// Content longer than the bound is refused; content at the bound passes that check.
pub proof fn lemma_content_bound(
    s: &Pallet,
    who: AccountId,
    now: Moment,
    content_len: nat,
    reply_to: Option<PostPointer>,
)
    requires
        s.users().contains_key(who),
    ensures
        content_len > MAX_CONTENT ==> s.new_post_error(who, now, content_len, reply_to) == Some(
            Error::ContentTooLarge,
        ),
        content_len <= MAX_CONTENT ==> s.new_post_error(who, now, content_len, reply_to) != Some(
            Error::ContentTooLarge,
        ),
{
}

/// In a valid store a post is filed under the day of its last reply exactly
/// once and under no other day: once replied to on a later day, it is gone
/// from the earlier day's bucket.
pub proof fn lemma_reply_index_exact(s: &Pallet, p: PostPointer, d: u64)
    requires
        s.wf(),
        s.has_post(p),
    ensures
        s.by_reply_date(d).to_multiset().count(p) == if d == bucket_of(
            s.post_view(p).last_reply_time,
        ) {
            1nat
        } else {
            0nat
        },
        d != bucket_of(s.post_view(p).last_reply_time) ==> !s.by_reply_date(d).contains(p),
{
    assert(s.posts_by_last_reply_date.occurrences(d, p) == s.by_reply_date(d).to_multiset().count(
        p,
    ));
}

/// In a valid store a post is filed exactly once under the day it was created.
pub proof fn lemma_post_index_exact(s: &Pallet, p: PostPointer, d: u64)
    requires
        s.wf(),
        s.has_post(p),
    ensures
        s.by_post_date(d).to_multiset().count(p) == if d == bucket_of(p.time) {
            1nat
        } else {
            0nat
        },
{
    assert(s.posts_by_post_date.occurrences(d, p) == s.by_post_date(d).to_multiset().count(p));
}

/// A registered account liking its own post is refused, and the like counter
/// stays; another registered account raises it by exactly one, held at the
/// largest value.
pub proof fn lemma_like_rules(s0: &Pallet, s1: &Pallet, who: AccountId, p: PostPointer)
    requires
        s0.users().contains_key(who),
        s0.has_post(p),
        s1.reacted_from(s0, Reaction::Like, who, p),
    ensures
        s0.post_view(p).owner == who ==> s0.react_error(Reaction::Like, who, p) == Some(
            Error::LikeOwnPost,
        ),
        s0.post_view(p).owner != who ==> s0.react_error(Reaction::Like, who, p) == None::<Error>,
        s1.post_view(p).likes == saturating_inc(s0.post_view(p).likes),
        s0.post_view(p).likes < u128::MAX ==> s1.post_view(p).likes == s0.post_view(p).likes + 1,
        s1.post_view(p).dislikes == s0.post_view(p).dislikes,
        s1.post_view(p).attention == s0.post_view(p).attention,
{
}

} // verus!
