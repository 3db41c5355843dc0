use std::collections::HashMap;
use vstd::prelude::*;
use crate::types::{PostPointer, Error, MAX_BUCKET};

verus! {

broadcast use vstd::std_specs::hash::group_hash_axioms, vstd::seq_lib::group_to_multiset_ensures;

/// Maps a day bucket to the pointers filed under it, in insertion order.
pub struct DateIndex {
    buckets: HashMap<u64, Vec<PostPointer>>,
}

impl View for DateIndex {
    type V = Map<u64, Vec<PostPointer>>;

    closed spec fn view(&self) -> Map<u64, Vec<PostPointer>> {
        self.buckets@
    }
}

/// The list held under bucket `d`; a bucket never written is empty.
pub open spec fn entries(m: Map<u64, Vec<PostPointer>>, d: u64) -> Seq<PostPointer> {
    if m.contains_key(d) {
        m[d]@
    } else {
        Seq::empty()
    }
}

/// How many times `p` is filed under bucket `d`.
pub open spec fn occurrences(m: Map<u64, Vec<PostPointer>>, d: u64, p: PostPointer) -> nat {
    entries(m, d).to_multiset().count(p)
}

impl DateIndex {
    /// Every bucket respects its capacity.
    pub open spec fn wf(&self) -> bool {
        forall|d: u64| #[trigger] entries(self@, d).len() <= MAX_BUCKET
    }

    pub open spec fn entries(&self, d: u64) -> Seq<PostPointer> {
        entries(self@, d)
    }

    pub open spec fn occurrences(&self, d: u64, p: PostPointer) -> nat {
        occurrences(self@, d, p)
    }

    /// An index with no entries.
    pub fn new() -> (r: DateIndex)
        ensures
            r.wf(),
            forall|d: u64| #[trigger] r.entries(d) == Seq::<PostPointer>::empty(),
    {
        DateIndex { buckets: HashMap::new() }
    }

    /// Number of pointers filed under bucket `d`.
    pub fn len_on(&self, d: u64) -> (r: usize)
        ensures
            r == self.entries(d).len(),
    {
        match self.buckets.get(&d) {
            Some(v) => v.len(),
            None => 0,
        }
    }

    /// The pointers filed under bucket `d`, in insertion order.
    pub fn posts_on(&self, d: u64) -> (r: Vec<PostPointer>)
        ensures
            r@ == self.entries(d),
    {
        let mut out: Vec<PostPointer> = Vec::new();
        match self.buckets.get(&d) {
            Some(v) => {
                let mut i: usize = 0;
                while i < v.len()
                    invariant
                        i <= v.len(),
                        v@ == self.entries(d),
                        out@ == v@.subrange(0, i as int),
                    decreases v.len() - i,
                {
                    out.push(v[i]);
                    assert(out@ =~= v@.subrange(0, i + 1));
                    i += 1;
                }
                assert(out@ =~= v@);
            },
            None => {},
        }
        out
    }

    /// Appends `p` to bucket `d`, refusing when the bucket is full.
    pub fn try_push(&mut self, d: u64, p: PostPointer) -> (r: Result<(), Error>)
        requires
            old(self).wf(),
        ensures
            final(self).wf(),
            r is Ok <==> old(self).entries(d).len() < MAX_BUCKET,
            r is Ok ==> forall|e: u64| #[trigger]
                final(self).entries(e) == if e == d {
                    old(self).entries(e).push(p)
                } else {
                    old(self).entries(e)
                },
            r is Err ==> r == Err::<(), Error>(Error::TooManyPostsOnThisDate) && *final(self) == *old(self),
    {
        let len = self.len_on(d);
        if len >= MAX_BUCKET {
            return Err(Error::TooManyPostsOnThisDate);
        }
        let ghost before = self@;
        let mut list = match self.buckets.remove(&d) {
            Some(v) => v,
            None => Vec::new(),
        };
        assert(list@ == entries(before, d));
        list.push(p);
        self.buckets.insert(d, list);
        assert forall|e: u64| #[trigger] entries(self@, e).len() <= MAX_BUCKET by {
            if e != d {
                assert(entries(self@, e) == entries(before, e));
            }
        }
        Ok(())
    }

    /// Takes the first occurrence of `p` out of bucket `d`; a bucket that does
    /// not hold `p` is left as it is.
    pub fn remove_one(&mut self, d: u64, p: PostPointer)
        requires
            old(self).wf(),
        ensures
            final(self).wf(),
            forall|e: u64| #[trigger]
                final(self).entries(e) == if e == d {
                    old(self).entries(e).remove_value(p)
                } else {
                    old(self).entries(e)
                },
    {
        let ghost before = self@;
        match self.buckets.remove(&d) {
            Some(mut list) => {
                assert(list@ == entries(before, d));
                let mut i: usize = 0;
                while i < list.len() && list[i] != p
                    invariant
                        i <= list.len(),
                        forall|j: int| 0 <= j < i ==> list@[j] != p,
                    decreases list.len() - i,
                {
                    i += 1;
                }
                proof {
                    list@.index_of_first_ensures(p);
                }
                if i < list.len() {
                    proof {
                        assert(list@[i as int] == p);
                        assert(list@.contains(p));
                        let k = list@.index_of_first(p)->Some_0;
                        assert(k == i as int);
                    }
                    list.remove(i);
                } else {
                    proof {
                        assert(!list@.contains(p));
                    }
                }
                self.buckets.insert(d, list);
            },
            None => {
                proof {
                    Seq::<PostPointer>::empty().index_of_first_ensures(p);
                }
            },
        }
        assert forall|e: u64| #[trigger] entries(self@, e).len() <= MAX_BUCKET by {
            if e != d {
                assert(entries(self@, e) == entries(before, e));
            }
        }
    }
}

/// Adding `p` once to a list adds one to its count and leaves other pointers' counts alone.
pub proof fn lemma_push_count(s: Seq<PostPointer>, p: PostPointer, q: PostPointer)
    ensures
        s.push(p).to_multiset().count(q) == s.to_multiset().count(q) + if q == p {
            1nat
        } else {
            0nat
        },
{
}

/// Taking the first `p` out of a list takes one from its count, if it was there.
pub proof fn lemma_remove_value_count(s: Seq<PostPointer>, p: PostPointer, q: PostPointer)
    ensures
        s.remove_value(p).to_multiset().count(q) == if q == p && s.to_multiset().count(p) > 0 {
            (s.to_multiset().count(q) - 1) as nat
        } else {
            s.to_multiset().count(q)
        },
{
    s.index_of_first_ensures(p);
    match s.index_of_first(p) {
        Some(i) => {
            assert(s.remove(i).to_multiset() =~= s.to_multiset().remove(s[i]));
        },
        None => {
            assert(s.to_multiset().count(p) == 0);
        },
    }
}

} // verus!
