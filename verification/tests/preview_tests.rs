use cifar_ten::decode::decode_records;
use cifar_ten::preview::{convert_to_image, preview_pixels, preview_record, return_label_from_one_hot};

fn one_hot(j: usize) -> Vec<u8> {
    let mut row = vec![0u8; 10];
    row[j] = 1;
    row
}

#[test]
fn label_names_for_all_ten_classes() {
    let names = [
        "airplane",
        "automobile",
        "bird",
        "cat",
        "deer",
        "dog",
        "frog",
        "horse",
        "ship",
        "truck",
    ];
    for (j, name) in names.iter().enumerate() {
        assert_eq!(return_label_from_one_hot(one_hot(j)), *name);
    }
}

fn unrecognized_message(row: &[u8]) -> String {
    let items: Vec<String> = row.iter().map(|v| v.to_string()).collect();
    format!(
        "Error: no valid label could be assigned to [{}]",
        items.join(", ")
    )
}

#[test]
fn unrecognized_one_hot_patterns() {
    assert_eq!(
        return_label_from_one_hot(vec![0u8; 10]),
        "Error: no valid label could be assigned to [0, 0, 0, 0, 0, 0, 0, 0, 0, 0]"
    );
    let mut two_ones = one_hot(2);
    two_ones[7] = 1;
    assert_eq!(
        return_label_from_one_hot(two_ones.clone()),
        unrecognized_message(&two_ones)
    );
    let mut not_binary = vec![0u8; 10];
    not_binary[4] = 2;
    assert_eq!(
        return_label_from_one_hot(not_binary.clone()),
        unrecognized_message(&not_binary)
    );
    assert_eq!(
        return_label_from_one_hot(vec![1u8]),
        "Error: no valid label could be assigned to [1]"
    );
    assert_eq!(
        return_label_from_one_hot(vec![0u8, 255, 7, 0, 0, 0, 0, 0, 0, 0]),
        "Error: no valid label could be assigned to [0, 255, 7, 0, 0, 0, 0, 0, 0, 0]"
    );
    assert_eq!(
        return_label_from_one_hot(vec![42u8; 10]),
        unrecognized_message(&[42u8; 10])
    );
}

#[test]
fn preview_pixels_packs_channels_little_endian() {
    let mut buffer = vec![6u8];
    buffer.extend(std::iter::repeat(10u8).take(1024));
    buffer.extend(std::iter::repeat(20u8).take(1024));
    buffer.extend(std::iter::repeat(30u8).take(1024));
    let (images, _) = decode_records(&buffer, 1).unwrap();
    let pixels = preview_pixels(&images, 0);
    assert_eq!(pixels.len(), 1024);
    let expected = u32::from_le_bytes([30, 20, 10, 255]);
    for px in &pixels {
        assert_eq!(*px, expected);
    }
}

#[test]
fn preview_pixels_follow_the_record() {
    let mut payload = vec![0u8; 3072];
    // channel 0, row 1, column 2
    payload[1 * 32 + 2] = 77;
    let mut buffer = vec![0u8];
    buffer.extend(&payload);
    let (images, _) = decode_records(&buffer, 1).unwrap();
    let pixels = preview_pixels(&images, 0);
    assert_eq!(pixels[1 * 32 + 2], u32::from_le_bytes([0, 0, 77, 255]));
    assert_eq!(pixels[0], u32::from_le_bytes([0, 0, 0, 255]));
}

#[test]
fn preview_record_picks_an_index_in_range() {
    let mut buffer = vec![9u8];
    buffer.extend(std::iter::repeat(1u8).take(1024));
    buffer.extend(std::iter::repeat(2u8).take(1024));
    buffer.extend(std::iter::repeat(3u8).take(1024));
    let (images, labels) = decode_records(&buffer, 1).unwrap();
    let (index, pixels, name) = preview_record(&images, &labels);
    assert_eq!(index, 0);
    assert_eq!(pixels, preview_pixels(&images, 0));
    assert_eq!(name, "truck");
}

#[test]
fn preview_record_on_several_records() {
    let mut buffer = Vec::new();
    for label in 0..4u8 {
        buffer.push(label);
        buffer.extend(std::iter::repeat(label).take(3072));
    }
    let (images, labels) = decode_records(&buffer, 4).unwrap();
    let (index, pixels, name) = preview_record(&images, &labels);
    assert!(index < 4);
    assert_eq!(pixels, preview_pixels(&images, index));
    assert_eq!(name, return_label_from_one_hot(labels.row(index)));
}

#[test]
fn convert_to_image_interleaves_channels() {
    let mut payload = vec![0u8; 3072];
    for j in 0..1024 {
        payload[j] = 1; // channel 0
        payload[1024 + j] = 2; // channel 1
        payload[2048 + j] = 3; // channel 2
    }
    // channel 2, row 5, column 7
    payload[2048 + 5 * 32 + 7] = 99;
    let mut buffer = vec![0u8];
    buffer.extend(&payload);
    let (images, _) = decode_records(&buffer, 1).unwrap();
    let rgb = convert_to_image(&images, 0);
    assert_eq!(rgb.len(), 3072);
    assert_eq!(&rgb[0..3], &[1, 2, 3]);
    assert_eq!(rgb[(5 * 32 + 7) * 3 + 2], 99);
    assert_eq!(rgb[(5 * 32 + 7) * 3], 1);
}
