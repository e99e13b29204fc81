//! A vote on a proposed change: yes/no tallies split by role category,
//! with an expiry time. Only the data shape exists; no component creates,
//! mutates, or expires one yet.

use vstd::prelude::*;

verus! {

/// A vote on a proposed change.
pub struct Vote {
    /// Vote ID.
    pub id: u64,
    /// Number of yes votes from holders of the casual role.
    pub casual_yes: u64,
    /// Number of no votes from holders of the casual role.
    pub casual_no: u64,
    /// Number of yes votes from holders of the competitive role.
    pub comp_yes: u64,
    /// Number of no votes from holders of the competitive role.
    pub comp_no: u64,
    /// The time at which voting closes and the results are final.
    pub end_time: u64,
}

impl Vote {
    /// Creates a new vote with the ID `id`, which ends at `end_time`.
    /// All four tallies start at zero.
    pub fn new(id: u64, end_time: u64) -> (v: Vote)
        ensures
            v.id == id,
            v.end_time == end_time,
            v.casual_yes == 0,
            v.casual_no == 0,
            v.comp_yes == 0,
            v.comp_no == 0,
    {
        Vote { id, casual_yes: 0, casual_no: 0, comp_yes: 0, comp_no: 0, end_time }
    }

    /// The total yes and no tallies, regardless of role category.
    pub fn total(&self) -> (t: (u64, u64))
        requires
            self.casual_yes + self.comp_yes <= u64::MAX,
            self.casual_no + self.comp_no <= u64::MAX,
        ensures
            t.0 == self.casual_yes + self.comp_yes,
            t.1 == self.casual_no + self.comp_no,
    {
        (self.casual_yes + self.comp_yes, self.casual_no + self.comp_no)
    }
}

} // verus!
