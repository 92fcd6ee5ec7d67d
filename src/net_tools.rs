use vstd::prelude::*;

verus! {

/// Reads network interfaces through the C library's `getifaddrs`.
pub struct GetIfAddrs {}

impl GetIfAddrs {
    pub fn new() -> (r: GetIfAddrs) {
        GetIfAddrs {}
    }
}

} // verus!
