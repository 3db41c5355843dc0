use vstd::prelude::*;

verus! {

/// The count after one post on day `d`, from `count` posts on day `day`.
pub open spec fn count_after(count: u128, day: Option<u64>, d: u64) -> u128 {
    if day == Some(d) {
        if count == u128::MAX {
            u128::MAX
        } else {
            (count + 1) as u128
        }
    } else {
        1u128
    }
}

/// Two posts on a day the monitor was not yet watching count two; a post on
/// any other day brings the count back to one.
pub proof fn lemma_count_resets(count: u128, day: Option<u64>, d: u64, e: u64)
    requires
        day != Some(d),
        e != d,
    ensures
        count_after(count_after(count, day, d), Some(d), d) == 2,
        count_after(count_after(count_after(count, day, d), Some(d), d), Some(d), e) == 1,
{
}

/// Counts the posts of the most recently seen day.
pub struct ActivityMonitor {
    pub count: u128,
    /// The day being counted; `None` before any day was set.
    pub day: Option<u64>,
}

impl ActivityMonitor {
    /// A monitor that starts from the given count and day.
    pub fn new(count: u128, day: Option<u64>) -> (r: ActivityMonitor)
        ensures
            r.count == count,
            r.day == day,
    {
        ActivityMonitor { count, day }
    }

    /// Records one post made on day `d`: the count goes up by one on the same
    /// day (saturating), and starts again at one on another day.
    pub fn record_post(&mut self, d: u64)
        ensures
            final(self).day == Some(d),
            final(self).count == count_after(old(self).count, old(self).day, d),
    {
        if self.day == Some(d) {
            self.count = self.count.saturating_add(1);
        } else {
            self.count = 1;
            self.day = Some(d);
        }
    }
}

} // verus!
