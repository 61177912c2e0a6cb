use vstd::prelude::*;

verus! {

/// One readiness notification of a poll cycle.
#[derive(Clone, Copy, Debug, PartialEq, Eq, Structural)]
pub struct CioEvent {
    /// The token given when the descriptor was registered.
    pub token: i32,
    /// The descriptor the notification is about.
    pub fd: i32,
    pub readable: bool,
    pub writable: bool,
}

impl CioEvent {
    pub fn new(token: i32, fd: i32, readable: bool, writable: bool) -> (r: CioEvent)
        ensures
            r == (CioEvent { token, fd, readable, writable }),
    {
        CioEvent { token, fd, readable, writable }
    }

    /// An event from the facility's raw report, where a flag is set exactly
    /// when its code is 1.
    pub fn from_raw(token: i32, fd: i32, readable_code: i32, writable_code: i32) -> (r: CioEvent)
        ensures
            r.token == token,
            r.fd == fd,
            r.readable == (readable_code == 1),
            r.writable == (writable_code == 1),
    {
        CioEvent { token, fd, readable: readable_code == 1, writable: writable_code == 1 }
    }

    pub fn is_readable(&self) -> (r: bool)
        ensures
            r == self.readable,
    {
        self.readable
    }

    pub fn is_writable(&self) -> (r: bool)
        ensures
            r == self.writable,
    {
        self.writable
    }

    pub fn get_token(&self) -> (r: i32)
        ensures
            r == self.token,
    {
        self.token
    }

    pub fn getfd(&self) -> (r: i32)
        ensures
            r == self.fd,
    {
        self.fd
    }
}

} // verus!
