use social_ledger::date_index::DateIndex;
use social_ledger::monitor::ActivityMonitor;
use social_ledger::types::{date_bucket, DAY_MS};
use social_ledger::{Error, Event, GenesisConfig, Pallet, PostPointer, Reaction};

const A: u64 = 1;
const B: u64 = 2;
const C: u64 = 3;

fn fresh() -> Pallet {
    GenesisConfig::default().build()
}

fn register(s: &mut Pallet, who: u64, nick: &str) {
    s.register_or_change_user_info(who, 0, nick.as_bytes().to_vec(), vec![7u8; 32], vec![9u8; 256])
        .unwrap();
}

fn ptr(time: u64, author: u64) -> PostPointer {
    PostPointer { time, author }
}

#[test]
fn register_then_read_nickname() {
    let mut s = fresh();
    register(&mut s, A, "alice");
    let u = s.get_user(A).unwrap();
    assert_eq!(u.nickname, b"alice".to_vec());
    assert_eq!(u.avatar, vec![7u8; 32]);
    assert_eq!(s.get_user_sum(), 1);
    assert_eq!(s.get_events(), &vec![Event::UserCreated(A)]);
}

#[test]
fn reregister_overwrites_and_keeps_counter() {
    let mut s = fresh();
    register(&mut s, A, "alice");
    s.register_or_change_user_info(A, 500, b"alicia".to_vec(), vec![], vec![]).unwrap();
    let u = s.get_user(A).unwrap();
    assert_eq!(u.nickname, b"alicia".to_vec());
    assert_eq!(u.avatar, Vec::<u8>::new());
    assert_eq!(u.last_change, 500);
    assert_eq!(s.get_user_sum(), 1);
    assert_eq!(s.get_events().last(), Some(&Event::UserUpdated(A)));
}

#[test]
fn distinct_accounts_are_counted() {
    let mut s = fresh();
    for who in 10..15u64 {
        register(&mut s, who, "x");
    }
    assert_eq!(s.get_user_sum(), 5);
    register(&mut s, 12, "again");
    assert_eq!(s.get_user_sum(), 5);
}

#[test]
fn counter_starts_from_loaded_value() {
    let cfg = GenesisConfig { user_sum: Some(40), monitoring: None, monitored_day: None };
    let mut s = cfg.build();
    assert_eq!(s.get_monitoring(), 0);
    assert_eq!(s.get_monitored_day(), None);
    register(&mut s, A, "a");
    assert_eq!(s.get_user_sum(), 41);
}

#[test]
fn counter_overflow_is_an_error() {
    let cfg = GenesisConfig { user_sum: Some(u128::MAX), monitoring: Some(0), monitored_day: Some(0) };
    let mut s = cfg.build();
    let r = s.register_or_change_user_info(A, 0, b"a".to_vec(), vec![], vec![]);
    assert_eq!(r, Err(Error::CounterOverflow));
    assert!(s.get_user(A).is_none());
    assert_eq!(s.get_user_sum(), u128::MAX);
    assert!(s.get_events().is_empty());
}

#[test]
fn profile_fields_are_bounded() {
    let mut s = fresh();
    assert_eq!(
        s.register_or_change_user_info(A, 0, vec![1u8; 65], vec![], vec![]),
        Err(Error::FieldTooLarge)
    );
    assert_eq!(
        s.register_or_change_user_info(A, 0, vec![], vec![1u8; 33], vec![]),
        Err(Error::FieldTooLarge)
    );
    assert_eq!(
        s.register_or_change_user_info(A, 0, vec![], vec![], vec![1u8; 257]),
        Err(Error::FieldTooLarge)
    );
    assert!(s.get_user(A).is_none());
    assert_eq!(s.get_user_sum(), 0);
    assert_eq!(
        s.register_or_change_user_info(A, 0, vec![1u8; 64], vec![1u8; 32], vec![1u8; 256]),
        Ok(())
    );
}

#[test]
fn duplicate_pointer_is_too_frequent() {
    let mut s = fresh();
    register(&mut s, A, "a");
    assert_eq!(s.new_post(A, 1000, b"one".to_vec(), None), Ok(ptr(1000, A)));
    let events = s.get_events().len();
    let r = s.new_post(A, 1000, b"two".to_vec(), None);
    assert_eq!(r, Err(Error::PostTooFrequent));
    assert_eq!(s.get_post(ptr(1000, A)).unwrap().content, b"one".to_vec());
    assert_eq!(s.get_posts_by_post_date(0), vec![ptr(1000, A)]);
    assert_eq!(s.get_posts_by_reply_date(0), vec![ptr(1000, A)]);
    assert_eq!(s.get_monitoring(), 1);
    assert_eq!(s.get_events().len(), events);
}

#[test]
fn content_length_bound() {
    let mut s = fresh();
    register(&mut s, A, "a");
    assert_eq!(s.new_post(A, 1, vec![b'x'; 2049], None), Err(Error::ContentTooLarge));
    assert!(s.get_post(ptr(1, A)).is_none());
    assert_eq!(s.new_post(A, 1, vec![b'x'; 2048], None), Ok(ptr(1, A)));
    assert_eq!(s.get_post(ptr(1, A)).unwrap().content.len(), 2048);
}

#[test]
fn unregistered_cannot_post_or_react() {
    let mut s = fresh();
    assert_eq!(s.new_post(A, 1, vec![], None), Err(Error::UnregisteredUser));
    register(&mut s, A, "a");
    s.new_post(A, 1, vec![], None).unwrap();
    assert_eq!(s.like_post(B, ptr(1, A)), Err(Error::UnregisteredUser));
    assert_eq!(s.dislike_post(B, ptr(1, A)), Err(Error::UnregisteredUser));
    assert_eq!(s.attention_post(B, ptr(1, A)), Err(Error::UnregisteredUser));
}

#[test]
fn missing_posts_are_not_found() {
    let mut s = fresh();
    register(&mut s, A, "a");
    register(&mut s, B, "b");
    assert_eq!(s.like_post(B, ptr(5, A)), Err(Error::PostNotFound));
    assert_eq!(s.new_post(B, 10, vec![], Some(ptr(5, A))), Err(Error::PostNotFound));
    assert!(s.get_post(ptr(10, B)).is_none());
    assert!(s.get_posts_by_post_date(0).is_empty());
    assert_eq!(s.get_monitoring(), 0);
}

#[test]
fn post_fields_on_creation() {
    let mut s = fresh();
    register(&mut s, A, "a");
    let p = s.new_post(A, 3 * DAY_MS + 7, b"hello".to_vec(), None).unwrap();
    let post = s.get_post(p).unwrap();
    assert_eq!(post.owner, A);
    assert_eq!(post.posted_time, 3 * DAY_MS + 7);
    assert_eq!(post.last_reply_time, 3 * DAY_MS + 7);
    assert!(post.replies.is_empty());
    assert_eq!((post.likes, post.dislikes, post.attention), (0, 0, 0));
    assert_eq!(s.get_posts_by_post_date(3), vec![p]);
    assert_eq!(s.get_posts_by_reply_date(3), vec![p]);
    assert_eq!(s.get_events().last(), Some(&Event::PostCreated(A, p)));
}

#[test]
fn reply_moves_parent_to_new_day() {
    let mut s = fresh();
    register(&mut s, A, "a");
    register(&mut s, B, "b");
    register(&mut s, C, "c");
    let parent = s.new_post(A, 1000, b"p".to_vec(), None).unwrap();
    let r1 = s.new_post(B, 2000, b"r1".to_vec(), Some(parent)).unwrap();
    // Same day: the parent is moved behind the existing entries, once.
    assert_eq!(s.get_posts_by_reply_date(0), vec![parent, r1]);
    let r2 = s.new_post(C, DAY_MS + 5, b"r2".to_vec(), Some(parent)).unwrap();
    assert_eq!(s.get_posts_by_reply_date(0), vec![r1]);
    assert_eq!(s.get_posts_by_reply_date(1), vec![parent, r2]);
    let post = s.get_post(parent).unwrap();
    assert_eq!(post.replies, vec![r1, r2]);
    assert_eq!(post.last_reply_time, DAY_MS + 5);
    assert_eq!(post.posted_time, 1000);
    assert_eq!(s.get_posts_by_post_date(0), vec![parent, r1]);
    assert_eq!(s.get_posts_by_post_date(1), vec![r2]);
}

#[test]
fn reply_list_is_bounded() {
    let mut s = fresh();
    register(&mut s, A, "a");
    register(&mut s, B, "b");
    let parent = s.new_post(A, 0, vec![], None).unwrap();
    for t in 1..=256u64 {
        s.new_post(B, t, vec![], Some(parent)).unwrap();
    }
    assert_eq!(s.get_post(parent).unwrap().replies.len(), 256);
    let before = s.get_posts_by_reply_date(0);
    assert_eq!(s.new_post(B, 300, vec![], Some(parent)), Err(Error::TooMuchReplyOnThis));
    assert!(s.get_post(ptr(300, B)).is_none());
    assert_eq!(s.get_posts_by_reply_date(0), before);
    assert_eq!(s.get_posts_by_post_date(0).len(), 257);
    assert_eq!(s.get_monitoring(), 257);
}

#[test]
fn day_bucket_is_bounded() {
    let mut s = fresh();
    register(&mut s, A, "a");
    for t in 0..10000u64 {
        s.new_post(A, t, vec![], None).unwrap();
    }
    assert_eq!(s.new_post(A, 10000, vec![], None), Err(Error::TooManyPostsOnThisDate));
    assert_eq!(s.get_posts_by_post_date(0).len(), 10000);
    assert!(s.get_post(ptr(10000, A)).is_none());
    assert_eq!(s.new_post(A, DAY_MS, vec![], None), Ok(ptr(DAY_MS, A)));
}

#[test]
fn own_post_reactions_are_refused() {
    let mut s = fresh();
    register(&mut s, A, "a");
    let p = s.new_post(A, 1, vec![], None).unwrap();
    assert_eq!(s.like_post(A, p), Err(Error::LikeOwnPost));
    assert_eq!(s.dislike_post(A, p), Err(Error::DislikeOwnPost));
    assert_eq!(s.attention_post(A, p), Err(Error::AttentionOwnPost));
    let post = s.get_post(p).unwrap();
    assert_eq!((post.likes, post.dislikes, post.attention), (0, 0, 0));
}

#[test]
fn reactions_raise_their_own_counter() {
    let mut s = fresh();
    register(&mut s, A, "a");
    register(&mut s, B, "b");
    let p = s.new_post(A, 1, vec![], None).unwrap();
    s.like_post(B, p).unwrap();
    s.dislike_post(B, p).unwrap();
    s.dislike_post(B, p).unwrap();
    s.react(Reaction::Attention, B, p).unwrap();
    s.attention_post(B, p).unwrap();
    s.attention_post(B, p).unwrap();
    let post = s.get_post(p).unwrap();
    assert_eq!((post.likes, post.dislikes, post.attention), (1, 2, 3));
    let ev = s.get_events();
    assert_eq!(ev[ev.len() - 6], Event::PostLiked(B, p));
    assert_eq!(ev[ev.len() - 5], Event::PostDisliked(B, p));
    assert_eq!(ev[ev.len() - 1], Event::PostAttended(B, p));
}

#[test]
fn monitor_counts_one_day() {
    let mut s = fresh();
    register(&mut s, A, "a");
    s.new_post(A, 10, vec![], None).unwrap();
    s.new_post(A, 20, vec![], None).unwrap();
    assert_eq!(s.get_monitoring(), 2);
    assert_eq!(s.get_monitored_day(), Some(0));
    s.new_post(A, DAY_MS + 1, vec![], None).unwrap();
    assert_eq!(s.get_monitoring(), 1);
    assert_eq!(s.get_monitored_day(), Some(1));
}

#[test]
fn monitor_saturates() {
    let mut m = ActivityMonitor::new(u128::MAX, Some(4));
    m.record_post(4);
    assert_eq!(m.count, u128::MAX);
    m.record_post(5);
    assert_eq!((m.count, m.day), (1, Some(5)));
}

#[test]
fn alice_scenario() {
    let mut s = fresh();
    register(&mut s, A, "alice");
    let p = s.new_post(A, 1000, b"hi".to_vec(), None).unwrap();
    assert_eq!(p, ptr(1000, A));
    register(&mut s, B, "bob");
    s.like_post(B, p).unwrap();
    assert_eq!(s.get_post(p).unwrap().likes, 1);
    s.like_post(B, p).unwrap();
    assert_eq!(s.get_post(p).unwrap().likes, 2);
    assert_eq!(s.like_post(A, p), Err(Error::LikeOwnPost));
    assert_eq!(s.get_post(p).unwrap().likes, 2);
}

#[test]
fn date_bucket_boundaries() {
    assert_eq!(date_bucket(0), 0);
    assert_eq!(date_bucket(86_399_999), 0);
    assert_eq!(date_bucket(86_400_000), 1);
    assert_eq!(date_bucket(u64::MAX), u64::MAX / 86_400_000);
}

#[test]
fn pointer_keys_are_distinct() {
    assert_eq!(ptr(0, 5).key(), 5);
    assert_eq!(ptr(1, 0).key(), 1u128 << 64);
    assert_ne!(ptr(1, 2).key(), ptr(2, 1).key());
    assert_eq!(ptr(u64::MAX, u64::MAX).key(), u128::MAX);
}

#[test]
fn date_index_removes_first_occurrence_only() {
    let mut ix = DateIndex::new();
    let p = ptr(1, 1);
    let q = ptr(2, 2);
    ix.try_push(3, p).unwrap();
    ix.try_push(3, q).unwrap();
    ix.try_push(3, p).unwrap();
    ix.remove_one(3, p);
    assert_eq!(ix.posts_on(3), vec![q, p]);
    ix.remove_one(3, ptr(9, 9));
    assert_eq!(ix.posts_on(3), vec![q, p]);
    ix.remove_one(4, p);
    assert_eq!(ix.len_on(4), 0);
    assert_eq!(ix.len_on(3), 2);
}
