//! The visitor counter: a count of requests seen, and the line printed for
//! each.

use vstd::prelude::*;
use crate::text::{append_dec_u64, dec_nat};

verus! {

/// Counts the requests seen so far.
pub struct VisitorCounter {
    pub visitor: u64,
}

impl VisitorCounter {
    /// A counter that has seen no request.
    pub fn new() -> (r: VisitorCounter)
        ensures
            r.visitor == 0,
    {
        VisitorCounter { visitor: 0 }
    }

    /// Counts one more visitor; a full counter wraps around to zero.
    pub fn increment(&mut self)
        ensures
            old(self).visitor < u64::MAX ==> final(self).visitor == old(self).visitor + 1,
            old(self).visitor == u64::MAX ==> final(self).visitor == 0,
    {
        self.visitor = if self.visitor == u64::MAX {
            0
        } else {
            self.visitor + 1
        };
    }

    /// The line reported after each visit.
    pub fn message(&self) -> (r: String)
        ensures
            r@ == "Number of visitors: "@ + dec_nat(self.visitor as nat),
    {
        let mut s = String::from_str("Number of visitors: ");
        append_dec_u64(&mut s, self.visitor);
        proof {
            assert(s@ =~= "Number of visitors: "@ + dec_nat(self.visitor as nat));
        }
        s
    }
}

} // verus!
