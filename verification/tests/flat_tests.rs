use cifar_ten::decode::decode_records;
use cifar_ten::errors::DecodeError;

fn two_record_buffer() -> Vec<u8> {
    let mut buffer = vec![6u8];
    buffer.extend((0..3072u32).map(|j| (j % 256) as u8));
    buffer.push(9u8);
    buffer.extend((0..3072u32).map(|j| ((j + 100) % 256) as u8));
    buffer
}

#[test]
fn flatten_is_identity_on_the_flat_bytes() {
    let buffer = two_record_buffer();
    let (images, _) = decode_records(&buffer, 2).unwrap();
    let flat = images.flatten(2).unwrap();
    assert_eq!(flat, images.data);
    assert_eq!(flat.len(), 2 * 3072);
}

#[test]
fn flatten_with_wrong_count_is_shape_mismatch() {
    let buffer = two_record_buffer();
    let (images, _) = decode_records(&buffer, 2).unwrap();
    let err = images.flatten(3).unwrap_err();
    assert_eq!(err, DecodeError::ShapeMismatch { expected_records: 3, actual_records: 2 });
}

#[test]
fn float_scaling_stays_below_one_and_is_invertible() {
    let buffer = two_record_buffer();
    let (images, labels) = decode_records(&buffer, 2).unwrap();
    let flat = images.flatten(2).unwrap();
    let flat_f32: Vec<f32> = flat.iter().map(|&v| v as f32 / 256.0).collect();
    for (f, v) in flat_f32.iter().zip(flat.iter()) {
        assert!(*f >= 0.0);
        assert!(*f <= 255.0 / 256.0);
        // Dividing a byte by 256.0 is exact in f32, so scaling back recovers
        // the original integer value exactly.
        assert_eq!(*f * 256.0, *v as f32);
        assert_eq!((*f * 256.0) as u8, *v);
    }
    let labels_f32: Vec<f32> = labels.data.iter().map(|&v| v as f32).collect();
    assert_eq!(labels_f32.len(), 2 * 10);
    assert_eq!(labels_f32[6], 1.0);
    assert_eq!(labels_f32[10 + 9], 1.0);
    assert_eq!(labels_f32.iter().sum::<f32>(), 2.0);
}
