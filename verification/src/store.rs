//! The store of tenants under one directory: what the store is called, and
//! which tenants it admits. Looking at the directory and writing to it is
//! left to the caller.
use vstd::prelude::*;
use vstd::string::*;
use crate::error::{Error, ErrorModel};

verus! {

/// A store of tenants, each a directory of its name under the path of the
/// store.
pub struct Store {
    path: String,
}

impl View for Store {
    type V = Seq<char>;

    closed spec fn view(&self) -> Seq<char> {
        self.path@
    }
}

impl Store {
    /// The store under the directory `path`.
    pub fn new(path: String) -> (store: Self)
        ensures
            store@ == path@,
    {
        Store { path }
    }

    /// The directory of the store.
    pub fn path(&self) -> (path: &str)
        ensures
            path@ == self@,
    {
        self.path.as_str()
    }

    /// Decides whether a tenant of this name may be created, given whether
    /// its directory exists: a tenant that exists is not created again.
    pub fn create_tenant(&self, name: &str, exists: bool) -> (res: Result<(), Error>)
        ensures
            exists ==> (res matches Err(e) && e@ == ErrorModel::AlreadyExists(
                "tenant "@ + name@,
            )),
            !exists ==> res is Ok,
    {
        if exists {
            return Err(Error::already_exists("tenant ", name));
        }
        Ok(())
    }
}

} // verus!
