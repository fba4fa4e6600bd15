use vstd::prelude::*;

verus! {

/// Errors of the decoding pipeline.
///
/// Decoding either succeeds for all requested records or fails as a whole:
/// there is no partial-result mode.
#[derive(Clone, Copy, Debug, PartialEq, Eq, Structural)]
pub enum DecodeError {
    /// The raw buffer holds fewer than `num_records * 3073` bytes.
    TruncatedInput { num_records: usize, buffer_len: usize },
    /// The raw buffer holds more than `num_records * 3073` bytes: trailing
    /// bytes beyond the configured record count are a structural error, not
    /// ignorable padding.
    OverrunInput { num_records: usize, buffer_len: usize },
    /// Record `index` starts with a label byte `value` outside `[0, 9]`.
    LabelRange { index: usize, value: u8 },
    /// A flat reshape was asked for a record count that does not match the
    /// tensor it was applied to.
    ShapeMismatch { expected_records: usize, actual_records: usize },
}

} // verus!
