//! Decoder for the CIFAR-10 binary distribution format.
//!
//! The binary files hold fixed-size records back to back, each one label byte
//! in `[0, 9]` followed by a 3 * 32 * 32 channel-major image payload. The
//! [`decode::decode_records`] routine turns such a buffer into a labeled
//! image tensor and a one-hot label tensor; [`config::Cifar10`] carries the
//! paths, record counts and flags that a caller selects. Reading the files,
//! downloading the archive and showing a preview window are left to the
//! surrounding application; everything here is a pure function of its inputs.

use vstd::prelude::*;

pub mod config;
pub mod decode;
pub mod errors;
pub mod preview;
pub mod tensor;

verus! {

/// The record size as an executable value: one label byte plus the payload.
pub fn record_size() -> (r: usize)
    ensures
        r == crate::decode::spec_record_size(),
{
    3073
}

} // verus!
