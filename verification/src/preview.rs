use vstd::prelude::*;

use crate::decode::{image_entry, label_entry, pixel_offset};
use crate::tensor::{ImageTensor, LabelTensor};

verus! {

/// `s` is the one-hot encoding of class `j`: ten entries, a `1` at `j` and
/// `0` everywhere else.
pub open spec fn is_one_hot_at(s: Seq<u8>, j: int) -> bool {
    &&& s.len() == 10
    &&& 0 <= j < 10
    &&& forall|k: int| 0 <= k < 10 ==> s[k] == (if k == j {
        1u8
    } else {
        0u8
    })
}

/// The human-readable CIFAR-10 class name of one-hot position `j`.
pub open spec fn label_name(j: int) -> Seq<char> {
    if j == 0 {
        "airplane"@
    } else if j == 1 {
        "automobile"@
    } else if j == 2 {
        "bird"@
    } else if j == 3 {
        "cat"@
    } else if j == 4 {
        "deer"@
    } else if j == 5 {
        "dog"@
    } else if j == 6 {
        "frog"@
    } else if j == 7 {
        "horse"@
    } else if j == 8 {
        "ship"@
    } else if j == 9 {
        "truck"@
    } else {
        Seq::empty()
    }
}

/// The decimal digit `d` as a one-character sequence.
pub open spec fn digit_seq(d: int) -> Seq<char> {
    if d == 0 {
        "0"@
    } else if d == 1 {
        "1"@
    } else if d == 2 {
        "2"@
    } else if d == 3 {
        "3"@
    } else if d == 4 {
        "4"@
    } else if d == 5 {
        "5"@
    } else if d == 6 {
        "6"@
    } else if d == 7 {
        "7"@
    } else if d == 8 {
        "8"@
    } else {
        "9"@
    }
}

/// The decimal rendering of one byte, without leading zeros.
pub open spec fn decimal_of(v: u8) -> Seq<char> {
    if v < 10 {
        digit_seq(v as int)
    } else if v < 100 {
        digit_seq(v as int / 10) + digit_seq(v as int % 10)
    } else {
        digit_seq(v as int / 100) + digit_seq((v as int / 10) % 10) + digit_seq(v as int % 10)
    }
}

/// The entries of a row rendered in decimal, separated by `", "`.
pub open spec fn rendered_items(s: Seq<u8>) -> Seq<char>
    decreases s.len(),
{
    if s.len() == 0 {
        Seq::empty()
    } else if s.len() == 1 {
        decimal_of(s[0])
    } else {
        rendered_items(s.drop_last()) + ", "@ + decimal_of(s.last())
    }
}

/// A row rendered as a bracketed, comma-separated decimal list.
pub open spec fn rendered_row(s: Seq<u8>) -> Seq<char> {
    "["@ + rendered_items(s) + "]"@
}

/// The diagnostic printed for a row that matches no one-hot pattern: it
/// names the offending row.
pub open spec fn unrecognized_label_message(s: Seq<u8>) -> Seq<char> {
    "Error: no valid label could be assigned to "@ + rendered_row(s)
}

fn digit_str(d: u8) -> (r: &'static str)
    requires
        d < 10,
    ensures
        r@ == digit_seq(d as int),
{
    if d == 0 {
        "0"
    } else if d == 1 {
        "1"
    } else if d == 2 {
        "2"
    } else if d == 3 {
        "3"
    } else if d == 4 {
        "4"
    } else if d == 5 {
        "5"
    } else if d == 6 {
        "6"
    } else if d == 7 {
        "7"
    } else if d == 8 {
        "8"
    } else {
        "9"
    }
}

fn push_decimal(out: &mut String, v: u8)
    ensures
        final(out)@ == old(out)@ + decimal_of(v),
{
    let ghost start = out@;
    if v >= 100 {
        out.append(digit_str(v / 100));
    }
    if v >= 10 {
        out.append(digit_str((v / 10) % 10));
    }
    out.append(digit_str(v % 10));
    proof {
        assert(out@ =~= start + decimal_of(v));
    }
}

fn render_row(row: &Vec<u8>) -> (r: String)
    ensures
        r@ == rendered_row(row@),
{
    let mut out = String::from_str("[");
    proof {
        assert(out@ =~= "["@ + rendered_items(row@.subrange(0, 0)));
    }
    let mut k: usize = 0;
    while k < row.len()
        invariant
            k <= row@.len(),
            out@ == "["@ + rendered_items(row@.subrange(0, k as int)),
        decreases row@.len() - k,
    {
        if k > 0 {
            out.append(", ");
        }
        push_decimal(&mut out, row[k]);
        proof {
            let next = row@.subrange(0, k + 1);
            assert(next.drop_last() =~= row@.subrange(0, k as int));
            assert(out@ =~= "["@ + rendered_items(next));
        }
        k += 1;
    }
    out.append("]");
    proof {
        assert(row@.subrange(0, row@.len() as int) =~= row@);
        assert(out@ =~= rendered_row(row@));
    }
    out
}

/// The full diagnostic for a row that matches no one-hot pattern.
fn unrecognized_message(one_hot: &Vec<u8>) -> (r: String)
    ensures
        r@ == unrecognized_label_message(one_hot@),
{
    let mut msg = String::from_str("Error: no valid label could be assigned to ");
    let rendered = render_row(one_hot);
    msg.append(rendered.as_str());
    msg
}

/// The display value of canvas position `(y, x)` for record `i`: the three
/// channel bytes interleaved little-endian as `[channel 2, channel 1,
/// channel 0, 255]`.
pub open spec fn preview_pixel(data: Seq<u8>, i: int, y: int, x: int) -> int {
    (image_entry(data, i, pixel_offset(2, y, x)) as int) + (image_entry(
        data,
        i,
        pixel_offset(1, y, x),
    ) as int) * 256 + (image_entry(data, i, pixel_offset(0, y, x)) as int) * 65536 + 255 * 16777216
}

/// Entry `(y, x)` of a flat 32 x 32 display buffer.
pub open spec fn pixel_entry(s: Seq<u32>, y: int, x: int) -> u32 {
    s[y * 32 + x]
}

/// Relies on rand's `random_range` on the thread-local generator: the result
/// lies in `[0, n)`; nothing beyond that bound is promised of it.
#[verifier::external_body]
fn random_index(n: usize) -> (r: usize)
    requires
        n > 0,
    ensures
        r < n,
{
    rand::random_range(0..n)
}

/// Maps a ten-entry one-hot row to its class name; a row that matches no
/// one-hot pattern yields a diagnostic message instead.
#[verifier::loop_isolation(false)]
pub fn return_label_from_one_hot(one_hot: Vec<u8>) -> (r: String)
    ensures
        forall|j: int| is_one_hot_at(one_hot@, j) ==> r@ == label_name(j),
        (forall|j: int| !is_one_hot_at(one_hot@, j)) ==> r@ == unrecognized_label_message(
            one_hot@,
        ),
{
    if one_hot.len() != 10 {
        return unrecognized_message(&one_hot);
    }
    let mut pos: usize = 10;
    let mut ok: bool = true;
    let mut k: usize = 0;
    while k < 10
        invariant
            k <= 10,
            pos <= 10,
            ok && pos == 10 ==> forall|k2: int| 0 <= k2 < k ==> one_hot@[k2] == 0u8,
            ok && pos < 10 ==> pos < k && forall|k2: int|
                0 <= k2 < k ==> one_hot@[k2] == (if k2 == pos as int {
                    1u8
                } else {
                    0u8
                }),
            !ok ==> forall|j: int| !is_one_hot_at(one_hot@, j),
        decreases 10 - k,
    {
        let v = one_hot[k];
        if v == 1 {
            if pos == 10 {
                pos = k;
            } else {
                proof {
                    assert forall|j: int| !is_one_hot_at(one_hot@, j) by {
                        if is_one_hot_at(one_hot@, j) {
                            assert(one_hot@[pos as int] == (if pos as int == j {
                                1u8
                            } else {
                                0u8
                            }));
                            assert(one_hot@[k as int] == (if k as int == j {
                                1u8
                            } else {
                                0u8
                            }));
                        }
                    }
                }
                ok = false;
            }
        } else if v != 0 {
            proof {
                assert forall|j: int| !is_one_hot_at(one_hot@, j) by {
                    if is_one_hot_at(one_hot@, j) {
                        assert(one_hot@[k as int] == (if k as int == j {
                            1u8
                        } else {
                            0u8
                        }));
                    }
                }
            }
            ok = false;
        }
        k += 1;
    }
    if !ok {
        return unrecognized_message(&one_hot);
    }
    if pos == 10 {
        proof {
            assert forall|j: int| !is_one_hot_at(one_hot@, j) by {
                if is_one_hot_at(one_hot@, j) {
                    assert(one_hot@[j] == 1u8);
                }
            }
        }
        return unrecognized_message(&one_hot);
    }
    proof {
        assert(is_one_hot_at(one_hot@, pos as int));
        assert forall|j: int| is_one_hot_at(one_hot@, j) implies j == pos as int by {
            assert(one_hot@[pos as int] == (if pos as int == j {
                1u8
            } else {
                0u8
            }));
        }
    }
    if pos == 0 {
        String::from_str("airplane")
    } else if pos == 1 {
        String::from_str("automobile")
    } else if pos == 2 {
        String::from_str("bird")
    } else if pos == 3 {
        String::from_str("cat")
    } else if pos == 4 {
        String::from_str("deer")
    } else if pos == 5 {
        String::from_str("dog")
    } else if pos == 6 {
        String::from_str("frog")
    } else if pos == 7 {
        String::from_str("horse")
    } else if pos == 8 {
        String::from_str("ship")
    } else {
        String::from_str("truck")
    }
}

/// Converts record `index` into the flat 32 x 32 display buffer the preview
/// window shows: each canvas position packs the record's three channel bytes
/// and a constant alpha into one little-endian `u32`.
#[verifier::loop_isolation(false)]
pub fn preview_pixels(images: &ImageTensor, index: usize) -> (r: Vec<u32>)
    requires
        images.wf(),
        index < images.num_records,
    ensures
        r@.len() == 1024,
        forall|y: int, x: int|
            0 <= y < 32 && 0 <= x < 32 ==> #[trigger] pixel_entry(r@, y, x) == preview_pixel(
                images.data@,
                index as int,
                y,
                x,
            ),
{
    let mut out: Vec<u32> = Vec::new();
    let mut y: usize = 0;
    while y < 32
        invariant
            y <= 32,
            out@.len() == y * 32,
            forall|y2: int, x2: int|
                0 <= y2 < y && 0 <= x2 < 32 ==> #[trigger] pixel_entry(out@, y2, x2)
                    == preview_pixel(images.data@, index as int, y2, x2),
        decreases 32 - y,
    {
        let mut x: usize = 0;
        while x < 32
            invariant
                x <= 32,
                out@.len() == y * 32 + x,
                forall|y2: int, x2: int|
                    0 <= y2 < y && 0 <= x2 < 32 ==> #[trigger] pixel_entry(out@, y2, x2)
                        == preview_pixel(images.data@, index as int, y2, x2),
                forall|x2: int|
                    0 <= x2 < x ==> #[trigger] pixel_entry(out@, y as int, x2) == preview_pixel(
                        images.data@,
                        index as int,
                        y as int,
                        x2,
                    ),
            decreases 32 - x,
        {
            let ghost pre = out@;
            let b2 = images.get(index, 2, y, x);
            let b1 = images.get(index, 1, y, x);
            let b0 = images.get(index, 0, y, x);
            let px: u32 = (b2 as u32) + (b1 as u32) * 256 + (b0 as u32) * 65536 + 4278190080u32;
            out.push(px);
            proof {
                assert forall|y2: int, x2: int|
                    0 <= y2 < y && 0 <= x2 < 32 implies #[trigger] pixel_entry(out@, y2, x2)
                    == preview_pixel(images.data@, index as int, y2, x2) by {
                    assert(pixel_entry(pre, y2, x2) == preview_pixel(
                        images.data@,
                        index as int,
                        y2,
                        x2,
                    ));
                }
                assert forall|x2: int|
                    0 <= x2 < x + 1 implies #[trigger] pixel_entry(out@, y as int, x2)
                    == preview_pixel(images.data@, index as int, y as int, x2) by {
                    if x2 < x {
                        assert(pixel_entry(pre, y as int, x2) == preview_pixel(
                            images.data@,
                            index as int,
                            y as int,
                            x2,
                        ));
                    }
                }
            }
            x += 1;
        }
        proof {
            assert forall|y2: int, x2: int|
                0 <= y2 < y + 1 && 0 <= x2 < 32 implies #[trigger] pixel_entry(out@, y2, x2)
                == preview_pixel(images.data@, index as int, y2, x2) by {
                if y2 == y {
                    assert(pixel_entry(out@, y as int, x2) == preview_pixel(
                        images.data@,
                        index as int,
                        y as int,
                        x2,
                    ));
                }
            }
        }
        y += 1;
    }
    out
}

/// The observational preview path: picks one record at random, converts it
/// to a display buffer and looks up its label name. The choice of record is
/// the only thing left to chance; buffer and name are pinned to that choice.
pub fn preview_record(images: &ImageTensor, labels: &LabelTensor) -> (r: (usize, Vec<u32>, String))
    requires
        images.wf(),
        labels.wf(),
        images.num_records == labels.num_records,
        images.num_records > 0,
    ensures
        r.0 < images.num_records,
        r.1@.len() == 1024,
        forall|y: int, x: int|
            0 <= y < 32 && 0 <= x < 32 ==> #[trigger] pixel_entry(r.1@, y, x) == preview_pixel(
                images.data@,
                r.0 as int,
                y,
                x,
            ),
        forall|j: int|
            is_one_hot_at(labels.data@.subrange(r.0 * 10, r.0 * 10 + 10), j) ==> r.2@ == label_name(
                j,
            ),
        (forall|j: int| !(#[trigger] is_one_hot_at(labels.data@.subrange(r.0 * 10, r.0 * 10 + 10), j)))
            ==> r.2@ == unrecognized_label_message(labels.data@.subrange(r.0 * 10, r.0 * 10 + 10)),
{
    let index = random_index(images.num_records);
    let pixels = preview_pixels(images, index);
    let row = labels.row(index);
    proof {
        assert forall|k: int| 0 <= k < 10 implies row@[k] == labels.data@.subrange(
            index * 10,
            index * 10 + 10,
        )[k] by {
            assert(row@[k] == label_entry(labels.data@, index as int, k));
        }
        assert(row@ =~= labels.data@.subrange(index * 10, index * 10 + 10));
    }
    let name = return_label_from_one_hot(row);
    (index, pixels, name)
}

/// The interleaved RGB byte buffer of record `index`, as the image canvas
/// arranges it: the byte at `(a * 32 + b) * 3 + t` is the record's channel
/// `t` byte at row `a`, column `b`.
#[verifier::loop_isolation(false)]
pub fn convert_to_image(images: &ImageTensor, index: usize) -> (r: Vec<u8>)
    requires
        images.wf(),
        index < images.num_records,
    ensures
        r@.len() == 3072,
        forall|a: int, b: int, t: int|
            0 <= a < 32 && 0 <= b < 32 && 0 <= t < 3 ==> #[trigger] rgb_entry(r@, a, b, t)
                == image_entry(images.data@, index as int, pixel_offset(t, a, b)),
{
    let mut out: Vec<u8> = Vec::new();
    let mut a: usize = 0;
    while a < 32
        invariant
            a <= 32,
            out@.len() == a * 96,
            forall|a2: int, b2: int, t2: int|
                0 <= a2 < a && 0 <= b2 < 32 && 0 <= t2 < 3 ==> #[trigger] rgb_entry(
                    out@,
                    a2,
                    b2,
                    t2,
                ) == image_entry(images.data@, index as int, pixel_offset(t2, a2, b2)),
        decreases 32 - a,
    {
        let mut b: usize = 0;
        while b < 32
            invariant
                b <= 32,
                out@.len() == a * 96 + b * 3,
                forall|a2: int, b2: int, t2: int|
                    0 <= a2 < a && 0 <= b2 < 32 && 0 <= t2 < 3 ==> #[trigger] rgb_entry(
                        out@,
                        a2,
                        b2,
                        t2,
                    ) == image_entry(images.data@, index as int, pixel_offset(t2, a2, b2)),
                forall|b2: int, t2: int|
                    0 <= b2 < b && 0 <= t2 < 3 ==> #[trigger] rgb_entry(out@, a as int, b2, t2)
                        == image_entry(images.data@, index as int, pixel_offset(t2, a as int, b2)),
            decreases 32 - b,
        {
            let ghost pre = out@;
            out.push(images.get(index, 0, a, b));
            out.push(images.get(index, 1, a, b));
            out.push(images.get(index, 2, a, b));
            proof {
                assert forall|a2: int, b2: int, t2: int|
                    0 <= a2 < a && 0 <= b2 < 32 && 0 <= t2 < 3 implies #[trigger] rgb_entry(
                    out@,
                    a2,
                    b2,
                    t2,
                ) == image_entry(images.data@, index as int, pixel_offset(t2, a2, b2)) by {
                    assert(rgb_entry(pre, a2, b2, t2) == image_entry(
                        images.data@,
                        index as int,
                        pixel_offset(t2, a2, b2),
                    ));
                }
                assert forall|b2: int, t2: int|
                    0 <= b2 < b + 1 && 0 <= t2 < 3 implies #[trigger] rgb_entry(
                    out@,
                    a as int,
                    b2,
                    t2,
                ) == image_entry(images.data@, index as int, pixel_offset(t2, a as int, b2)) by {
                    if b2 < b {
                        assert(rgb_entry(pre, a as int, b2, t2) == image_entry(
                            images.data@,
                            index as int,
                            pixel_offset(t2, a as int, b2),
                        ));
                    }
                }
            }
            b += 1;
        }
        proof {
            assert forall|a2: int, b2: int, t2: int|
                0 <= a2 < a + 1 && 0 <= b2 < 32 && 0 <= t2 < 3 implies #[trigger] rgb_entry(
                out@,
                a2,
                b2,
                t2,
            ) == image_entry(images.data@, index as int, pixel_offset(t2, a2, b2)) by {
                if a2 == a {
                    assert(rgb_entry(out@, a as int, b2, t2) == image_entry(
                        images.data@,
                        index as int,
                        pixel_offset(t2, a as int, b2),
                    ));
                }
            }
        }
        a += 1;
    }
    out
}

/// Entry `(a, b, t)` of a flat interleaved 32 x 32 RGB buffer: row `a`,
/// column `b`, channel `t`.
pub open spec fn rgb_entry(s: Seq<u8>, a: int, b: int, t: int) -> u8 {
    s[(a * 32 + b) * 3 + t]
}

} // verus!
