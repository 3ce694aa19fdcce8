//! A class group, as listed on the planning choice page.

use vstd::prelude::*;

verus! {

/// A class group: its numeric id and its name.
pub struct ClassGroup {
    pub id: u32,
    pub name: String,
}

impl ClassGroup {
    pub fn new(id: u32, name: String) -> (r: ClassGroup)
        ensures
            r.id == id,
            r.name == name,
    {
        ClassGroup { id, name }
    }

    /// A class group known by its id alone, with an empty name.
    pub fn from_id(id: u32) -> (r: ClassGroup)
        ensures
            r.id == id,
            r.name@.len() == 0,
    {
        ClassGroup { id, name: String::new() }
    }
}

impl From<ClassGroup> for u32 {
    /// The id of a class group.
    fn from(g: ClassGroup) -> (r: u32) {
        g.id
    }
}

impl vstd::std_specs::convert::FromSpecImpl<ClassGroup> for u32 {
    open spec fn obeys_from_spec() -> bool {
        true
    }

    open spec fn from_spec(g: ClassGroup) -> u32 {
        g.id
    }
}

} // verus!
