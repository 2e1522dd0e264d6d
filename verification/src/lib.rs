//! A fixed-capacity circular buffer over a caller-provided backing store,
//! able to hold N elements when full (typical circular buffer designs hold
//! N-1) without a separate flag or counter.
//!
//! The top bit of each `usize` index is reserved as a one-bit lap counter;
//! the remaining bits hold the true offset into the store.  `CBufControl`
//! holds the index arithmetic and `CBuf` pairs it with a borrowed store.

pub mod buffer;
pub mod control;
pub mod laws;
pub mod owned;
pub mod wrap;

pub use buffer::CBuf;
pub use control::CBufControl;
pub use owned::CBufOwned;
