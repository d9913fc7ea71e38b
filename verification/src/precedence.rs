//! The order of groups by precedence.
//!
//! A group is less than another where its sorting value is lower, whatever
//! the other fields hold: of two groups the greater one overrides the
//! other.

use core::cmp::Ordering;
use vstd::prelude::*;
use crate::models::Group;

verus! {

impl PartialOrd for Group {
    fn partial_cmp(&self, other: &Group) -> (order: Option<Ordering>) {
        if self.group_sorting < other.group_sorting {
            Some(Ordering::Less)
        } else if self.group_sorting > other.group_sorting {
            Some(Ordering::Greater)
        } else {
            Some(Ordering::Equal)
        }
    }
}

impl vstd::std_specs::cmp::PartialOrdSpecImpl for Group {
    open spec fn obeys_partial_cmp_spec() -> bool {
        true
    }

    /// Groups compare as their sorting values do.
    open spec fn partial_cmp_spec(&self, other: &Group) -> Option<Ordering> {
        if self.group_sorting < other.group_sorting {
            Some(Ordering::Less)
        } else if self.group_sorting > other.group_sorting {
            Some(Ordering::Greater)
        } else {
            Some(Ordering::Equal)
        }
    }
}

} // verus!
