//! Why a request to the feed can fail.

use vstd::prelude::*;

verus! {

/// Why a request to the feed gave nothing. The refresh cycle treats all
/// three alike: nothing changes, and the next cycle asks again.
#[derive(Clone, Copy, Debug, PartialEq, Eq, Structural)]
pub enum FetchError {
    /// No answer came in time.
    Timeout,
    /// The transport failed.
    Transport,
    /// An answer came, but it could not be read.
    Decode,
}

} // verus!
