pub mod layout;
pub mod split;
pub mod transform;
pub mod synth;
pub mod convert;
pub mod psnr;
pub mod bmp;

use vstd::prelude::*;

verus! {

/// Stateless handle that callers construct before invoking the frame
/// operations.
pub struct Handler {}

impl Handler {
    pub fn new() -> (h: Handler)
        ensures
            h == (Handler {}),
    {
        Handler {}
    }
}

} // verus!
