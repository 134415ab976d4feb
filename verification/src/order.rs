//! Equality and order of profiles: by name alone.

use crate::configuration::Configuration;
use crate::text::less;
use crate::text::same_text;
use crate::text::text_less;
use std::cmp::Ordering;
use vstd::prelude::*;
use vstd::std_specs::cmp::PartialEqSpecImpl;
use vstd::std_specs::cmp::PartialOrdSpecImpl;

verus! {

impl PartialEq for Configuration {
    /// Two profiles are equal where their names are.
    fn eq(&self, other: &Self) -> (equal: bool) {
        same_text(self.name(), other.name())
    }
}

impl PartialEqSpecImpl for Configuration {
    open spec fn obeys_eq_spec() -> bool {
        true
    }

    open spec fn eq_spec(&self, other: &Self) -> bool {
        self@.name == other@.name
    }
}

impl Eq for Configuration {

}

impl PartialOrd for Configuration {
    /// Profiles are ordered as their names are.
    fn partial_cmp(&self, other: &Self) -> (order: Option<Ordering>) {
        if same_text(self.name(), other.name()) {
            Some(Ordering::Equal)
        } else if less(self.name(), other.name()) {
            Some(Ordering::Less)
        } else {
            Some(Ordering::Greater)
        }
    }
}

impl PartialOrdSpecImpl for Configuration {
    open spec fn obeys_partial_cmp_spec() -> bool {
        true
    }

    open spec fn partial_cmp_spec(&self, other: &Self) -> Option<Ordering> {
        if self@.name == other@.name {
            Some(Ordering::Equal)
        } else if text_less(self@.name, other@.name) {
            Some(Ordering::Less)
        } else {
            Some(Ordering::Greater)
        }
    }
}

} // verus!
