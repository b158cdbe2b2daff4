use vstd::prelude::*;

verus! {

/// A server frame number.
pub type Tick = u32;

} // verus!
