//! Registration of the guest class that embeds host resources.

use vstd::prelude::*;

verus! {

/// The payload stored in the opaque slot of a guest object of the resource
/// class: one shared reference to the host resource, released by the class
/// finalizer.
pub struct ResourceObject<R> {
    pub data: R,
}

/// The id of the resource class within one runtime: zero until the class is
/// registered, and fixed once it is.
#[derive(Clone, Copy, Debug, PartialEq, Eq)]
pub struct ClassId {
    id: u32,
}

impl ClassId {
    /// The id of a class not registered yet.
    pub fn new() -> (r: ClassId)
        ensures
            r.id() == 0,
    {
        ClassId { id: 0 }
    }

    /// The id, zero while unregistered.
    pub closed spec fn id(&self) -> u32 {
        self.id
    }

    /// The id, zero while unregistered.
    pub fn get(&self) -> (r: u32)
        ensures
            r == self.id(),
    {
        self.id
    }

    /// Whether the class is registered.
    pub fn is_registered(&self) -> (r: bool)
        ensures
            r == (self.id() != 0),
    {
        self.id != 0
    }

    /// Records `fresh`, an id the runtime has just allocated for the class,
    /// unless the class is registered already. Returns the class's id.
    pub fn register(&mut self, fresh: u32) -> (r: u32)
        requires
            fresh != 0,
        ensures
            *final(self) == registered(*old(self), fresh),
            r == final(self).id(),
            r != 0,
    {
        if self.id == 0 {
            self.id = fresh;
        }
        self.id
    }

    /// Whether an object of class `class_id` is a resource.
    pub fn matches(&self, class_id: u32) -> (r: bool)
        ensures
            r == (self.id() != 0 && class_id == self.id()),
    {
        self.id != 0 && class_id == self.id
    }
}

/// The class after offering it the fresh id `fresh`: an unregistered class
/// takes it, a registered one keeps its id.
pub open spec fn registered(c: ClassId, fresh: u32) -> ClassId {
    if c.id() == 0 {
        ClassId::with_id(fresh)
    } else {
        c
    }
}

impl ClassId {
    /// The class with id `id`.
    pub closed spec fn with_id(id: u32) -> ClassId {
        ClassId { id }
    }

    /// `with_id` gives the id asked for.
    pub broadcast proof fn lemma_with_id(id: u32)
        ensures
            #[trigger] ClassId::with_id(id).id() == id,
    {
    }
}

/// Registration happens at most once: whatever ids are offered later, the
/// class keeps the first one it took.
pub proof fn lemma_register_once(c: ClassId, first: u32, later: u32)
    requires
        c.id() == 0,
        first != 0,
        later != 0,
    ensures
        registered(c, first).id() == first,
        registered(registered(c, first), later) == registered(c, first),
{
    ClassId::lemma_with_id(first);
}

} // verus!
