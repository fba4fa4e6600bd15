use vstd::prelude::*;

use crate::errors::DecodeError;
use crate::tensor::{ImageTensor, LabelTensor};

verus! {

/// Size in bytes of one binary record: one label byte followed by the
/// 3 * 32 * 32 image payload.
pub open spec fn spec_record_size() -> int {
    3073
}

/// The label byte of record `i`: the first byte of the record.
pub open spec fn label_byte(buffer: Seq<u8>, i: int) -> u8 {
    buffer[i * 3073]
}

/// Payload byte `j` of record `i` (with `0 <= j < 3072`): the bytes after the
/// label byte, channel-major, then row, then column.
pub open spec fn payload_byte(buffer: Seq<u8>, i: int, j: int) -> u8 {
    buffer[i * 3073 + 1 + j]
}

/// Entry `(i, j)` of a flat `(N, 3072)` image tensor.
pub open spec fn image_entry(data: Seq<u8>, i: int, j: int) -> u8 {
    data[i * 3072 + j]
}

/// Entry `(i, k)` of a flat `(N, 10)` label tensor.
pub open spec fn label_entry(data: Seq<u8>, i: int, k: int) -> u8 {
    data[i * 10 + k]
}

/// The entry at class index `k` of the one-hot encoding of `label`.
pub open spec fn one_hot_value(label: u8, k: int) -> u8 {
    if k == label as int {
        1u8
    } else {
        0u8
    }
}

/// The full one-hot row of `label`, as a ten-byte sequence.
pub open spec fn one_hot_row(label: u8) -> Seq<u8> {
    Seq::new(10, |k: int| one_hot_value(label, k))
}

/// A buffer is well formed for `n` records when it holds exactly
/// `n * 3073` bytes — any shortfall or overrun is a structural error — and
/// every record's label byte is in `[0, 9]`.
pub open spec fn well_formed(buffer: Seq<u8>, n: int) -> bool {
    &&& buffer.len() == n * 3073
    &&& forall|i: int| 0 <= i < n ==> #[trigger] label_byte(buffer, i) <= 9
}

/// `data` is the decoded flat image tensor of the first `n` records of `buffer`.
pub open spec fn images_decoded(buffer: Seq<u8>, n: int, data: Seq<u8>) -> bool {
    &&& data.len() == n * 3072
    &&& forall|i: int, j: int|
        0 <= i < n && 0 <= j < 3072 ==> #[trigger] image_entry(data, i, j) == payload_byte(
            buffer,
            i,
            j,
        )
}

/// `data` is the decoded flat one-hot label tensor of the first `n` records
/// of `buffer`.
pub open spec fn labels_decoded(buffer: Seq<u8>, n: int, data: Seq<u8>) -> bool {
    &&& data.len() == n * 10
    &&& forall|i: int, k: int|
        0 <= i < n && 0 <= k < 10 ==> #[trigger] label_entry(data, i, k) == one_hot_value(
            label_byte(buffer, i),
            k,
        )
}

/// What a successful decode of `buffer` with record count `n` returns.
pub open spec fn decode_ok_for(
    buffer: Seq<u8>,
    n: int,
    images: ImageTensor,
    labels: LabelTensor,
) -> bool {
    &&& well_formed(buffer, n)
    &&& images.num_records == n
    &&& images.wf()
    &&& images_decoded(buffer, n, images.data@)
    &&& labels.num_records == n
    &&& labels.wf()
    &&& labels_decoded(buffer, n, labels.data@)
}

/// Which error a decode of `buffer` with record count `n` reports: a
/// truncation exactly when the buffer is too short, an overrun exactly when
/// it carries trailing bytes beyond `n` records, else the first record whose
/// label byte lies outside `[0, 9]`.
pub open spec fn decode_err_for(buffer: Seq<u8>, n: int, e: DecodeError) -> bool {
    match e {
        DecodeError::TruncatedInput { num_records, buffer_len } => {
            &&& num_records == n
            &&& buffer_len == buffer.len()
            &&& buffer.len() < n * 3073
        },
        DecodeError::OverrunInput { num_records, buffer_len } => {
            &&& num_records == n
            &&& buffer_len == buffer.len()
            &&& buffer.len() > n * 3073
        },
        DecodeError::LabelRange { index, value } => {
            &&& buffer.len() == n * 3073
            &&& index < n
            &&& value == label_byte(buffer, index as int)
            &&& value > 9
            &&& forall|j: int| 0 <= j < index ==> #[trigger] label_byte(buffer, j) <= 9
        },
        DecodeError::ShapeMismatch { .. } => false,
    }
}

/// Decodes `num_records` fixed-size records from a raw buffer into an image
/// tensor of shape `(num_records, 3, 32, 32)` and a one-hot label tensor of
/// shape `(num_records, 10)`.
///
/// The buffer's length must equal `num_records * 3073` exactly: the whole
/// decode fails with `TruncatedInput` when it holds fewer bytes, with
/// `OverrunInput` when it holds more, and with `LabelRange` at the first
/// record whose label byte exceeds `9`; it never decodes a partial result.
/// Labels are always returned in one-hot form.
#[verifier::loop_isolation(false)]
pub fn decode_records(buffer: &Vec<u8>, num_records: usize) -> (r: Result<
    (ImageTensor, LabelTensor),
    DecodeError,
>)
    ensures
        match r {
            Ok((images, labels)) => decode_ok_for(
                buffer@,
                num_records as int,
                images,
                labels,
            ),
            Err(e) => decode_err_for(buffer@, num_records as int, e),
        },
        r.is_ok() <==> well_formed(buffer@, num_records as int),
{
    let buffer_len = buffer.len();
    let needed = match num_records.checked_mul(3073) {
        Some(needed) => needed,
        None => {
            return Err(DecodeError::TruncatedInput { num_records, buffer_len });
        },
    };
    if buffer_len < needed {
        return Err(DecodeError::TruncatedInput { num_records, buffer_len });
    }
    if buffer_len > needed {
        return Err(DecodeError::OverrunInput { num_records, buffer_len });
    }
    let mut image_data: Vec<u8> = Vec::new();
    let mut label_data: Vec<u8> = Vec::new();
    let mut i: usize = 0;
    while i < num_records
        invariant
            i <= num_records,
            label_data@.len() == i * 10,
            image_data@.len() == i * 3072,
            forall|i2: int| 0 <= i2 < i ==> #[trigger] label_byte(buffer@, i2) <= 9,
            forall|i2: int, j: int|
                0 <= i2 < i && 0 <= j < 3072 ==> #[trigger] image_entry(image_data@, i2, j)
                    == payload_byte(buffer@, i2, j),
            forall|i2: int, k: int|
                0 <= i2 < i && 0 <= k < 10 ==> #[trigger] label_entry(label_data@, i2, k)
                    == one_hot_value(label_byte(buffer@, i2), k),
        decreases num_records - i,
    {
        let base = i * 3073;
        let label = buffer[base];
        if label > 9 {
            return Err(DecodeError::LabelRange { index: i, value: label });
        }
        let mut k: usize = 0;
        while k < 10
            invariant
                k <= 10,
                label == label_byte(buffer@, i as int),
                label_data@.len() == i * 10 + k,
                forall|i2: int, k2: int|
                    0 <= i2 < i && 0 <= k2 < 10 ==> #[trigger] label_entry(label_data@, i2, k2)
                        == one_hot_value(label_byte(buffer@, i2), k2),
                forall|k2: int|
                    0 <= k2 < k ==> #[trigger] label_entry(label_data@, i as int, k2)
                        == one_hot_value(label, k2),
            decreases 10 - k,
        {
            let ghost pre = label_data@;
            if k == label as usize {
                label_data.push(1);
            } else {
                label_data.push(0);
            }
            proof {
                assert forall|i2: int, k2: int|
                    0 <= i2 < i && 0 <= k2 < 10 implies #[trigger] label_entry(label_data@, i2, k2)
                        == one_hot_value(label_byte(buffer@, i2), k2) by {
                    assert(label_entry(pre, i2, k2) == one_hot_value(label_byte(buffer@, i2), k2));
                }
                assert forall|k2: int|
                    0 <= k2 < k + 1 implies #[trigger] label_entry(label_data@, i as int, k2)
                        == one_hot_value(label, k2) by {
                    if k2 < k {
                        assert(label_entry(pre, i as int, k2) == one_hot_value(label, k2));
                    }
                }
            }
            k += 1;
        }
        let mut j: usize = 0;
        while j < 3072
            invariant
                j <= 3072,
                image_data@.len() == i * 3072 + j,
                forall|i2: int, j2: int|
                    0 <= i2 < i && 0 <= j2 < 3072 ==> #[trigger] image_entry(image_data@, i2, j2)
                        == payload_byte(buffer@, i2, j2),
                forall|j2: int|
                    0 <= j2 < j ==> #[trigger] image_entry(image_data@, i as int, j2)
                        == payload_byte(buffer@, i as int, j2),
            decreases 3072 - j,
        {
            let ghost pre = image_data@;
            image_data.push(buffer[base + 1 + j]);
            proof {
                assert forall|i2: int, j2: int|
                    0 <= i2 < i && 0 <= j2 < 3072 implies #[trigger] image_entry(
                        image_data@,
                        i2,
                        j2,
                    ) == payload_byte(buffer@, i2, j2) by {
                    assert(image_entry(pre, i2, j2) == payload_byte(buffer@, i2, j2));
                }
                assert forall|j2: int|
                    0 <= j2 < j + 1 implies #[trigger] image_entry(image_data@, i as int, j2)
                        == payload_byte(buffer@, i as int, j2) by {
                    if j2 < j {
                        assert(image_entry(pre, i as int, j2) == payload_byte(buffer@, i as int, j2));
                    }
                }
            }
            j += 1;
        }
        proof {
            assert forall|i2: int, k2: int|
                0 <= i2 < i + 1 && 0 <= k2 < 10 implies #[trigger] label_entry(
                    label_data@,
                    i2,
                    k2,
                ) == one_hot_value(label_byte(buffer@, i2), k2) by {
                if i2 == i {
                    assert(label_entry(label_data@, i as int, k2) == one_hot_value(label, k2));
                }
            }
            assert forall|i2: int, j2: int|
                0 <= i2 < i + 1 && 0 <= j2 < 3072 implies #[trigger] image_entry(
                    image_data@,
                    i2,
                    j2,
                ) == payload_byte(buffer@, i2, j2) by {
                if i2 == i {
                    assert(image_entry(image_data@, i as int, j2) == payload_byte(
                        buffer@,
                        i as int,
                        j2,
                    ));
                }
            }
        }
        i += 1;
    }
    let images = ImageTensor { data: image_data, num_records };
    let labels = LabelTensor { data: label_data, num_records };
    Ok((images, labels))
}

/// The concatenation of a list of byte sequences, in list order.
pub open spec fn concat_of(parts: Seq<Seq<u8>>) -> Seq<u8>
    decreases parts.len(),
{
    if parts.len() == 0 {
        Seq::empty()
    } else {
        concat_of(parts.drop_last()) + parts.last()
    }
}

/// Concatenates the per-file buffers of one split into a single raw buffer,
/// in file-list order: the first file's bytes come first, then the next
/// file's, and so on.
#[verifier::loop_isolation(false)]
pub fn concat_buffers(parts: &Vec<Vec<u8>>) -> (r: Vec<u8>)
    ensures
        r@ == concat_of(parts@.map_values(|part: Vec<u8>| part@)),
{
    let mut out: Vec<u8> = Vec::new();
    let mut p: usize = 0;
    while p < parts.len()
        invariant
            p <= parts@.len(),
            out@ == concat_of(parts@.subrange(0, p as int).map_values(|part: Vec<u8>| part@)),
        decreases parts@.len() - p,
    {
        let ghost done = out@;
        let part = &parts[p];
        let mut b: usize = 0;
        while b < part.len()
            invariant
                b <= part@.len(),
                out@ == done + part@.subrange(0, b as int),
            decreases part@.len() - b,
        {
            out.push(part[b]);
            proof {
                assert(out@ =~= done + part@.subrange(0, b + 1));
            }
            b += 1;
        }
        proof {
            let prefix = parts@.subrange(0, p as int).map_values(|q: Vec<u8>| q@);
            let next = parts@.subrange(0, p + 1).map_values(|q: Vec<u8>| q@);
            assert(next.drop_last() =~= prefix);
            assert(part@.subrange(0, part@.len() as int) =~= part@);
            assert(out@ == concat_of(next));
        }
        p += 1;
    }
    proof {
        assert(parts@.subrange(0, parts@.len() as int) =~= parts@);
    }
    out
}

/// The flat payload offset of channel `c`, row `r`, column `k`.
pub open spec fn pixel_offset(c: int, r: int, k: int) -> int {
    c * 1024 + r * 32 + k
}

/// The channel-major flattening is injective: distinct in-range coordinate
/// triples land on distinct payload offsets.
pub proof fn lemma_pixel_offset_injective(c1: int, r1: int, k1: int, c2: int, r2: int, k2: int)
    requires
        0 <= c1 < 3,
        0 <= r1 < 32,
        0 <= k1 < 32,
        0 <= c2 < 3,
        0 <= r2 < 32,
        0 <= k2 < 32,
        pixel_offset(c1, r1, k1) == pixel_offset(c2, r2, k2),
    ensures
        c1 == c2,
        r1 == r2,
        k1 == k2,
{
}

/// The channel-major flattening is surjective: every payload offset is the
/// image of some in-range coordinate triple.
pub proof fn lemma_pixel_offset_surjective(j: int)
    requires
        0 <= j < 3072,
    ensures
        exists|c: int, r: int, k: int|
            0 <= c < 3 && 0 <= r < 32 && 0 <= k < 32 && #[trigger] pixel_offset(c, r, k) == j,
{
    assert(0 <= j / 1024 < 3 && 0 <= (j % 1024) / 32 < 32 && 0 <= j % 32 < 32);
    assert(pixel_offset(j / 1024, (j % 1024) / 32, j % 32) == j);
}

/// Sum of a byte sequence, as a mathematical integer.
pub open spec fn sum_bytes(s: Seq<u8>) -> int
    decreases s.len(),
{
    if s.len() == 0 {
        0
    } else {
        sum_bytes(s.drop_last()) + s.last()
    }
}

/// An all-zero byte sequence sums to zero.
pub proof fn lemma_zero_sum(s: Seq<u8>)
    requires
        forall|k: int| 0 <= k < s.len() ==> s[k] == 0u8,
    ensures
        sum_bytes(s) == 0,
    decreases s.len(),
{
    if s.len() > 0 {
        lemma_zero_sum(s.drop_last());
    }
}

/// A byte sequence that is `1` at one index and `0` everywhere else sums to
/// exactly `1`.
pub proof fn lemma_one_hot_sum(s: Seq<u8>, j: int)
    requires
        0 <= j < s.len(),
        forall|k: int| 0 <= k < s.len() ==> s[k] == (if k == j {
            1u8
        } else {
            0u8
        }),
    ensures
        sum_bytes(s) == 1,
    decreases s.len(),
{
    if j == s.len() - 1 {
        lemma_zero_sum(s.drop_last());
    } else {
        lemma_one_hot_sum(s.drop_last(), j);
    }
}

/// Every row of a decoded one-hot label tensor sums to exactly `1`.
pub proof fn lemma_label_row_sums_to_one(buffer: Seq<u8>, n: int, data: Seq<u8>, i: int)
    requires
        well_formed(buffer, n),
        labels_decoded(buffer, n, data),
        0 <= i < n,
    ensures
        sum_bytes(data.subrange(i * 10, i * 10 + 10)) == 1,
{
    let row = data.subrange(i * 10, i * 10 + 10);
    let label = label_byte(buffer, i);
    assert forall|k: int| 0 <= k < 10 implies row[k] == (if k == label as int {
        1u8
    } else {
        0u8
    }) by {
        assert(label_entry(data, i, k) == one_hot_value(label, k));
    }
    lemma_one_hot_sum(row, label as int);
}

/// The encoding of one record: the label byte followed by the payload.
pub open spec fn encoded_record(label: u8, pixels: Seq<u8>) -> Seq<u8> {
    seq![label] + pixels
}

/// Builds one synthetic binary record from a label byte and a 3072-byte
/// payload.
#[verifier::loop_isolation(false)]
pub fn encode_record(label: u8, pixels: &Vec<u8>) -> (r: Vec<u8>)
    requires
        pixels@.len() == 3072,
    ensures
        r@ == encoded_record(label, pixels@),
{
    let mut out: Vec<u8> = Vec::new();
    out.push(label);
    let mut j: usize = 0;
    while j < pixels.len()
        invariant
            j <= pixels@.len(),
            out@ == seq![label] + pixels@.subrange(0, j as int),
        decreases pixels@.len() - j,
    {
        out.push(pixels[j]);
        proof {
            assert(out@ =~= seq![label] + pixels@.subrange(0, j + 1));
        }
        j += 1;
    }
    proof {
        assert(pixels@.subrange(0, pixels@.len() as int) =~= pixels@);
    }
    out
}

/// Round trip: decoding the encoding of a single record reproduces the
/// payload bytes exactly and yields the one-hot row of the label.
pub proof fn lemma_round_trip(label: u8, pixels: Seq<u8>, images: Seq<u8>, labels: Seq<u8>)
    requires
        label <= 9,
        pixels.len() == 3072,
        images_decoded(encoded_record(label, pixels), 1, images),
        labels_decoded(encoded_record(label, pixels), 1, labels),
    ensures
        images == pixels,
        labels == one_hot_row(label),
{
    let buf = encoded_record(label, pixels);
    assert(label_byte(buf, 0) == label);
    assert forall|j: int| 0 <= j < 3072 implies images[j] == pixels[j] by {
        assert(image_entry(images, 0, j) == payload_byte(buf, 0, j));
    }
    assert(images =~= pixels);
    assert forall|k: int| 0 <= k < 10 implies labels[k] == one_hot_row(label)[k] by {
        assert(label_entry(labels, 0, k) == one_hot_value(label, k));
    }
    assert(labels =~= one_hot_row(label));
}

} // verus!
