use vstd::prelude::*;

verus! {

/// The interest flags given at registration time, combinable by bitwise OR.
pub struct CioFlag;

impl CioFlag {
    pub const READABLE: i32 = 1;

    pub const WRITABLE: i32 = 2;

    /// Both directions: what a connected stream is registered with.
    pub fn both() -> (r: i32)
        ensures
            r == CioFlag::READABLE | CioFlag::WRITABLE,
            r == 3,
    {
        let r: i32 = CioFlag::READABLE | CioFlag::WRITABLE;
        assert(1i32 | 2i32 == 3i32) by (bit_vector);
        r
    }
}

} // verus!
