//! Player-owned resource counters, fed by the research points that the
//! physics core produces at each landing.

use vstd::prelude::*;

verus! {

/// Counts of each resource the player owns.
pub struct Resources {
    pub research: u32,
    pub rocks: u32,
    pub beans: u32,
    pub antibeans: u32,
}

impl Default for Resources {
    /// A fresh player starts with nothing.
    fn default() -> (r: Resources)
        ensures
            r.research == 0,
            r.rocks == 0,
            r.beans == 0,
            r.antibeans == 0,
    {
        Resources { research: 0, rocks: 0, beans: 0, antibeans: 0 }
    }
}

impl Resources {
    /// The four counters in display order.
    pub fn as_vec(&self) -> (v: Vec<u32>)
        ensures
            v@ == seq![self.research, self.rocks, self.beans, self.antibeans],
    {
        let mut v: Vec<u32> = Vec::new();
        v.push(self.research);
        v.push(self.rocks);
        v.push(self.beans);
        v.push(self.antibeans);
        proof {
            assert(v@ =~= seq![self.research, self.rocks, self.beans, self.antibeans]);
        }
        v
    }
}

} // verus!
