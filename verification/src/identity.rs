//! The identity of a monitor: the connector that it is attached to.

use crate::monitor::Monitor;
use vstd::prelude::*;
use vstd::std_specs::cmp::PartialEqSpecImpl;

verus! {

/// Two monitors are the same monitor exactly if they are on one connector.
impl<T> PartialEq for Monitor<T> {
    fn eq(&self, other: &Self) -> (same: bool) {
        other.connector_id() == self.connector_id()
    }
}

impl<T> PartialEqSpecImpl for Monitor<T> {
    open spec fn obeys_eq_spec() -> bool {
        true
    }

    open spec fn eq_spec(&self, other: &Self) -> bool {
        other@.connector_id == self@.connector_id
    }
}

impl<T> Eq for Monitor<T> {

}

} // verus!
