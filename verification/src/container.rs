//! A value that may be held, and handed out by reference.

use crate::objects::Object;
use vstd::prelude::*;

verus! {

/// A value, and whether references to it are handed out.
pub struct Container<'p> {
    object: Object<'p>,
    shared: bool,
}

impl<'p> Container<'p> {
    /// The value held.
    pub closed spec fn object(&self) -> Object<'p> {
        self.object
    }

    /// Whether references to the value are handed out.
    pub closed spec fn is_shared(&self) -> bool {
        self.shared
    }

    /// A container of `obj` that hands out no reference yet.
    pub fn new(obj: Object<'p>) -> (c: Container<'p>)
        ensures
            c.object() == obj,
            !c.is_shared(),
    {
        Container { object: obj, shared: false }
    }

    /// Lets the container hand out references to its value.
    pub fn set_ref(&mut self)
        ensures
            final(self).object() == old(self).object(),
            final(self).is_shared(),
    {
        self.shared = true;
    }

    /// The value by reference, once the container hands out references.
    pub fn get_ref(&self) -> (r: Option<&Object<'p>>)
        ensures
            match r {
                Some(o) => self.is_shared() && *o == self.object(),
                None => !self.is_shared(),
            },
    {
        if self.shared {
            Some(&self.object)
        } else {
            None
        }
    }
}

} // verus!
