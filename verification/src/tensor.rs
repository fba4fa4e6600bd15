use vstd::prelude::*;

use crate::decode::{image_entry, label_entry};
use crate::errors::DecodeError;

verus! {

/// The images of one split: a `(num_records, 3, 32, 32)` tensor of bytes,
/// stored flat in row-major order. Record `i` occupies bytes
/// `[i * 3072, (i + 1) * 3072)`; within a record the layout is channel-major
/// (channel, then row, then column), exactly as in the binary files.
#[derive(Debug)]
pub struct ImageTensor {
    pub data: Vec<u8>,
    pub num_records: usize,
}

/// The labels of one split: a `(num_records, 10)` one-hot tensor of bytes,
/// stored flat in row-major order. Row `i` holds a single `1` at the label
/// index of record `i` and `0` elsewhere.
#[derive(Debug)]
pub struct LabelTensor {
    pub data: Vec<u8>,
    pub num_records: usize,
}

impl ImageTensor {
    /// Shape invariant: the flat data holds exactly `num_records * 3 * 32 * 32` bytes.
    pub open spec fn wf(self) -> bool {
        self.data@.len() == self.num_records * 3072
    }

    /// The byte of record `i`, channel `c`, row `row`, column `col`.
    pub fn get(&self, i: usize, c: usize, row: usize, col: usize) -> (r: u8)
        requires
            self.wf(),
            i < self.num_records,
            c < 3,
            row < 32,
            col < 32,
        ensures
            r == image_entry(self.data@, i as int, c * 1024 + row * 32 + col),
    {
        let _total = self.data.len();
        self.data[i * 3072 + c * 1024 + row * 32 + col]
    }

    /// The flat `(num_records, 3072)` form of the tensor: the same bytes in
    /// the same order, checked against the caller's record count. Fails with
    /// a shape mismatch when that count disagrees with the tensor.
    pub fn flatten(&self, num_records: usize) -> (r: Result<Vec<u8>, DecodeError>)
        requires
            self.wf(),
        ensures
            match r {
                Ok(flat) => num_records == self.num_records && flat@ == self.data@,
                Err(e) => num_records != self.num_records && e == (DecodeError::ShapeMismatch {
                    expected_records: num_records,
                    actual_records: self.num_records,
                }),
            },
    {
        if num_records != self.num_records {
            return Err(DecodeError::ShapeMismatch {
                expected_records: num_records,
                actual_records: self.num_records,
            });
        }
        let mut flat: Vec<u8> = Vec::new();
        let mut idx: usize = 0;
        let total = self.data.len();
        while idx < total
            invariant
                idx <= total,
                total == self.data@.len(),
                flat@ == self.data@.subrange(0, idx as int),
            decreases total - idx,
        {
            flat.push(self.data[idx]);
            proof {
                assert(flat@ =~= self.data@.subrange(0, idx + 1));
            }
            idx += 1;
        }
        proof {
            assert(flat@ =~= self.data@);
        }
        Ok(flat)
    }
}

impl LabelTensor {
    /// Shape invariant: the flat data holds exactly `num_records * 10` bytes.
    pub open spec fn wf(self) -> bool {
        self.data@.len() == self.num_records * 10
    }

    /// The entry of record `i` at class index `k`.
    pub fn get(&self, i: usize, k: usize) -> (r: u8)
        requires
            self.wf(),
            i < self.num_records,
            k < 10,
        ensures
            r == label_entry(self.data@, i as int, k as int),
    {
        let _total = self.data.len();
        self.data[i * 10 + k]
    }

    /// The one-hot row of record `i`, as its own ten-byte vector.
    pub fn row(&self, i: usize) -> (r: Vec<u8>)
        requires
            self.wf(),
            i < self.num_records,
        ensures
            r@.len() == 10,
            forall|k: int| 0 <= k < 10 ==> r@[k] == label_entry(self.data@, i as int, k),
    {
        let mut row: Vec<u8> = Vec::new();
        let total = self.data.len();
        let mut k: usize = 0;
        while k < 10
            invariant
                k <= 10,
                i < self.num_records,
                self.wf(),
                total == self.data@.len(),
                row@.len() == k,
                forall|k2: int| 0 <= k2 < k ==> row@[k2] == label_entry(self.data@, i as int, k2),
            decreases 10 - k,
        {
            row.push(self.data[i * 10 + k]);
            k += 1;
        }
        row
    }
}

} // verus!
