//! Property descriptors of a DRM object, found by name.

use vstd::prelude::*;
use vstd::string::*;

verus! {

/// One property of a DRM object: its name and the handle by which requests
/// refer to it.
#[derive(Clone, Debug, PartialEq, Eq)]
pub struct PropertyEntry {
    pub name: String,
    pub handle: u32,
}

/// The handle that `entries` gives for `name`: that of the last entry with
/// this name, as a later descriptor replaces an earlier one of the same name.
pub open spec fn lookup(entries: Seq<PropertyEntry>, name: Seq<char>) -> Option<u32>
    decreases entries.len(),
{
    if entries.len() == 0 {
        None
    } else if entries.last().name@ == name {
        Some(entries.last().handle)
    } else {
        lookup(entries.drop_last(), name)
    }
}

/// The property descriptors of one DRM object, keyed by name.
#[derive(Clone, Debug, PartialEq, Eq)]
pub struct PropertyTable {
    entries: Vec<PropertyEntry>,
}

impl PropertyTable {
    /// The descriptors in the order in which they were reported.
    pub closed spec fn entries(&self) -> Seq<PropertyEntry> {
        self.entries@
    }

    /// The handle of the property called `name`, if the object has one.
    pub open spec fn handle_of(&self, name: Seq<char>) -> Option<u32> {
        lookup(self.entries(), name)
    }

    /// Builds the table from the descriptors of an object, in the order in
    /// which the device reported them.
    pub fn new(entries: Vec<PropertyEntry>) -> (table: PropertyTable)
        ensures
            table.entries() == entries@,
    {
        PropertyTable { entries }
    }

    /// Number of descriptors, counting repeated names.
    pub fn len(&self) -> (n: usize)
        ensures
            n == self.entries().len(),
    {
        self.entries.len()
    }

    /// Looks a property up by name.
    pub fn get(&self, name: &str) -> (found: Option<u32>)
        ensures
            found == self.handle_of(name@),
    {
        let key = String::from_str(name);
        let mut i: usize = self.entries.len();
        proof {
            assert(self.entries@.take(i as int) =~= self.entries@);
        }
        while i > 0
            invariant
                i <= self.entries@.len(),
                key@ == name@,
                lookup(self.entries@, name@) == lookup(self.entries@.take(i as int), name@),
            decreases i,
        {
            i -= 1;
            proof {
                let head = self.entries@.take(i + 1);
                assert(head.drop_last() =~= self.entries@.take(i as int));
            }
            if self.entries[i].name == key {
                return Some(self.entries[i].handle);
            }
        }
        None
    }

    /// Whether the object has a property called `name`.
    pub fn contains(&self, name: &str) -> (present: bool)
        ensures
            present == self.handle_of(name@).is_some(),
    {
        self.get(name).is_some()
    }
}

} // verus!
