//! Module loading from the file system.

use vstd::prelude::*;

verus! {

/// A module loader that reads module `name` from the file `base/name`.
#[derive(Clone, Debug, PartialEq, Eq)]
pub struct FsJsModuleLoader {
    base: String,
}

impl FsJsModuleLoader {
    /// A loader rooted at the directory `base`.
    pub fn new(base: &str) -> (r: FsJsModuleLoader)
        ensures
            r.base()@ == base@,
    {
        FsJsModuleLoader { base: String::from_str(base) }
    }

    /// The directory modules are read from.
    pub closed spec fn base(&self) -> String {
        self.base
    }

    /// The directory modules are read from.
    pub fn base_dir(&self) -> (r: &str)
        ensures
            r@ == self.base()@,
    {
        self.base.as_str()
    }
}

} // verus!
