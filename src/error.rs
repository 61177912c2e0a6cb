use vstd::prelude::*;

verus! {

/// The failures of the reactor and of the transports, as typed values.
#[derive(Clone, Copy, Debug, PartialEq, Eq, Structural)]
pub enum CioError {
    /// The readiness facility could not be created.
    ReactorInit,
    /// A registration or unregistration was refused, or had nothing to remove.
    Registration,
    /// Bind, connect or accept failed; `reason` is the OS error code.
    Transport { reason: i32 },
    /// The blocking wait itself failed.
    Poll,
    /// The address does not follow the grammar, or names a form that cannot
    /// be used this way (a serial device cannot be listened on).
    Address,
}

impl CioError {
    /// The outcome of a poll call from the facility's status code: a negative
    /// code is a failed wait, anything else a completed cycle.
    pub fn poll_status(rc: i32) -> (r: Result<(), CioError>)
        ensures
            rc < 0 <==> r is Err,
            r is Err ==> r == Err::<(), CioError>(CioError::Poll),
    {
        if rc < 0 {
            Err(CioError::Poll)
        } else {
            Ok(())
        }
    }

    /// The outcome of a register or unregister call from the facility's
    /// status code: a negative code is a refusal.
    pub fn registration_status(rc: i32) -> (r: Result<(), CioError>)
        ensures
            rc < 0 <==> r is Err,
            r is Err ==> r == Err::<(), CioError>(CioError::Registration),
    {
        if rc < 0 {
            Err(CioError::Registration)
        } else {
            Ok(())
        }
    }
}

} // verus!
