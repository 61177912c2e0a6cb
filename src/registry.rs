use std::collections::HashMap;
use vstd::prelude::*;

use crate::error::CioError;

verus! {

broadcast use vstd::std_specs::hash::group_hash_axioms;

/// What the reactor watches one descriptor for.
#[derive(Clone, Copy, Debug, PartialEq, Eq, Structural)]
pub struct Registration {
    pub fd: i32,
    /// Handed back in every event about `fd`.
    pub token: i32,
    /// Interest flags, see `CioFlag`.
    pub flags: i32,
}

/// The registration table: at most one registration per descriptor.
pub struct Registry {
    entries: HashMap<i32, Registration>,
}

impl View for Registry {
    type V = Map<i32, Registration>;

    closed spec fn view(&self) -> Map<i32, Registration> {
        self.entries@
    }
}

/// Each entry of `m` is the registration of the descriptor it is keyed by.
pub open spec fn keyed_by_fd(m: Map<i32, Registration>) -> bool {
    forall|fd: i32| #[trigger] m.contains_key(fd) ==> m[fd].fd == fd
}

impl Registry {
    pub open spec fn wf(&self) -> bool {
        keyed_by_fd(self@)
    }

    pub fn new() -> (r: Registry)
        ensures
            r.wf(),
            r@ == Map::<i32, Registration>::empty(),
    {
        Registry { entries: HashMap::new() }
    }

    /// Registers `fd`, replacing any earlier registration of it.
    pub fn register(&mut self, fd: i32, token: i32, flags: i32)
        requires
            old(self).wf(),
        ensures
            final(self).wf(),
            final(self)@ == old(self)@.insert(fd, Registration { fd, token, flags }),
    {
        self.entries.insert(fd, Registration { fd, token, flags });
    }

    /// Removes the registration of `fd` and hands it back; an error where
    /// there was none, in which case nothing changes.
    pub fn unregister(&mut self, fd: i32) -> (r: Result<Registration, CioError>)
        requires
            old(self).wf(),
        ensures
            final(self).wf(),
            final(self)@ == old(self)@.remove(fd),
            old(self)@.contains_key(fd) ==> r == Ok::<Registration, CioError>(old(self)@[fd]),
            !old(self)@.contains_key(fd) ==> r == Err::<Registration, CioError>(
                CioError::Registration,
            ),
    {
        match self.entries.remove(&fd) {
            Some(reg) => Ok(reg),
            None => Err(CioError::Registration),
        }
    }

    pub fn lookup(&self, fd: i32) -> (r: Option<Registration>)
        ensures
            self@.contains_key(fd) ==> r == Some(self@[fd]),
            !self@.contains_key(fd) ==> r is None,
    {
        match self.entries.get(&fd) {
            Some(reg) => Some(*reg),
            None => None,
        }
    }

    pub fn is_registered(&self, fd: i32) -> (r: bool)
        ensures
            r == self@.contains_key(fd),
    {
        self.entries.contains_key(&fd)
    }

    pub fn len(&self) -> (r: usize)
        ensures
            r == self@.len(),
    {
        self.entries.len()
    }
}

} // verus!
