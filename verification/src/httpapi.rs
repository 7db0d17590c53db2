//! The image-transfer wire records: a snapshot posted to the peer, and its
//! boolean reply.

use vstd::prelude::*;

use crate::maps::MemoryMap;

verus! {

/// The request body: both register banks as the kernel's raw bytes —
/// unstructured and processor-dependent, only ever handed back to the
/// kernel — and the populated memory map.
pub struct TeleforkApiRequest {
    pub gp_register_data: Vec<u8>,
    pub fp_register_data: Vec<u8>,
    pub memory_maps: Vec<MemoryMap>,
}

/// The reply body.
pub struct TeleforkApiResponse {
    pub success: bool,
}

} // verus!
