use vstd::prelude::*;

verus! {

/// A token holder as tracked by the eligibility view of the data: when it
/// was first seen (a Unix timestamp in seconds) and whether it has moved
/// its tokens since.
pub struct Holder {
    pub wallet: String,
    pub balance: u64,
    pub first_seen: i64,
    pub never_sold: bool,
    pub never_transferred: bool,
}

impl Holder {
    /// How many whole hours the holder has held the token as of `now`.
    pub fn holding_duration_hours(&self, now: i64) -> (r: i64)
        requires
            self.first_seen <= now,
        ensures
            r == (now - self.first_seen) / 3600,
    {
        let d: i128 = (now as i128) - (self.first_seen as i128);
        (d / 3600) as i64
    }

    /// Whether the holder's raw balance reaches the eligibility threshold.
    pub fn is_eligible(&self, threshold: u64) -> (r: bool)
        ensures
            r == (self.balance >= threshold),
    {
        self.balance >= threshold
    }
}

} // verus!
