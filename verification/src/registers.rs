//! The registers that an allocation assigned to temporaries.
use vstd::prelude::*;

verus! {

/// The view of a list of (temporary, register) pairs.
pub open spec fn pairs_view(s: Seq<(String, String)>) -> Seq<(Seq<char>, Seq<char>)> {
    s.map_values(|p: (String, String)| (p.0@, p.1@))
}

/// The register of `temp`: the last assignment made to it, or `temp` itself when none was.
pub open spec fn register_of(assigned: Seq<(Seq<char>, Seq<char>)>, temp: Seq<char>) -> Seq<char>
    decreases assigned.len(),
{
    if assigned.len() == 0 {
        temp
    } else if assigned.last().0 == temp {
        assigned.last().1
    } else {
        register_of(assigned.drop_last(), temp)
    }
}

/// An assignment of registers to temporaries.
pub struct Registers {
    assigned: Vec<(String, String)>,
}

impl View for Registers {
    type V = Seq<(Seq<char>, Seq<char>)>;

    closed spec fn view(&self) -> Seq<(Seq<char>, Seq<char>)> {
        pairs_view(self.assigned@)
    }
}

impl Registers {
    /// The assignment given by `assigned`, a list of (temporary, register) pairs; a later
    /// pair for the same temporary overrides an earlier one.
    pub fn new(assigned: Vec<(String, String)>) -> (r: Registers)
        ensures
            r@ == pairs_view(assigned@),
    {
        Registers { assigned }
    }

    /// The register assigned to `temp`, or `temp` itself when it has none.
    pub fn get(&self, temp: &str) -> (r: String)
        ensures
            r@ == register_of(self@, temp@),
    {
        let mut i = self.assigned.len();
        proof {
            assert(pairs_view(self.assigned@).take(i as int) == pairs_view(self.assigned@));
        }
        while i > 0
            invariant
                i <= self.assigned@.len(),
                register_of(self@, temp@) == register_of(pairs_view(self.assigned@).take(i as int), temp@),
            decreases i,
        {
            let ghost prefix = pairs_view(self.assigned@).take(i as int);
            i = i - 1;
            proof {
                assert(prefix.drop_last() == pairs_view(self.assigned@).take(i as int));
                assert(prefix.last() == (self.assigned@[i as int].0@, self.assigned@[i as int].1@));
            }
            if crate::text::str_equal(self.assigned[i].0.as_str(), temp) {
                return self.assigned[i].1.clone();
            }
        }
        String::from_str(temp)
    }
}

} // verus!
