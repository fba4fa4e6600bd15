use cifar_ten::config::Cifar10;
use cifar_ten::errors::DecodeError;

fn record(label: u8, fill: u8) -> Vec<u8> {
    let mut record = vec![label];
    record.extend(std::iter::repeat(fill).take(3072));
    record
}

#[test]
fn default_configuration() {
    let config = Cifar10::default();
    assert_eq!(config.base_path, "data/");
    assert_eq!(config.cifar_data_path, "cifar-10-batches-bin/");
    assert!(!config.show_images);
    assert!(config.encode_one_hot);
    assert_eq!(
        config.training_bin_paths,
        vec![
            "data_batch_1.bin",
            "data_batch_2.bin",
            "data_batch_3.bin",
            "data_batch_4.bin",
            "data_batch_5.bin",
        ]
    );
    assert_eq!(config.testing_bin_paths, vec!["test_batch.bin"]);
    assert_eq!(config.num_records_train, 50_000);
    assert_eq!(config.num_records_test, 10_000);
    assert!(!config.download_and_extract);
}

#[test]
fn builder_setters() {
    let config = Cifar10::default()
        .base_path("elsewhere/")
        .cifar_data_path("bins/")
        .download_and_extract(true)
        .show_images(true)
        .encode_one_hot(false)
        .training_bin_paths(vec!["a.bin", "b.bin"])
        .testing_bin_paths(vec!["t.bin"])
        .num_records_train(4)
        .num_records_test(2);
    assert_eq!(config.base_path, "elsewhere/");
    assert_eq!(config.cifar_data_path, "bins/");
    assert!(config.download_and_extract);
    assert!(config.show_images);
    assert!(!config.encode_one_hot);
    assert_eq!(config.training_bin_paths, vec!["a.bin", "b.bin"]);
    assert_eq!(config.testing_bin_paths, vec!["t.bin"]);
    assert_eq!(config.num_records_train, 4);
    assert_eq!(config.num_records_test, 2);
}

#[test]
fn build_decodes_both_splits() {
    let config = Cifar10::default().num_records_train(2).num_records_test(1);
    let mut train = record(1, 11);
    train.extend(record(4, 44));
    let test = record(8, 88);
    let (train_images, train_labels, test_images, test_labels) =
        config.build(&train, &test).unwrap();
    assert_eq!(train_images.num_records, 2);
    assert_eq!(train_labels.get(0, 1), 1);
    assert_eq!(train_labels.get(1, 4), 1);
    assert_eq!(train_images.get(1, 2, 31, 31), 44);
    assert_eq!(test_images.num_records, 1);
    assert_eq!(test_labels.get(0, 8), 1);
    assert_eq!(test_images.get(0, 0, 0, 0), 88);
}

#[test]
fn one_hot_flag_is_carried_but_labels_stay_one_hot() {
    let config = Cifar10::default()
        .encode_one_hot(false)
        .num_records_train(1)
        .num_records_test(1);
    assert!(!config.encode_one_hot);
    let train = record(5, 1);
    let test = record(2, 9);
    let (_, train_labels, _, test_labels) = config.build(&train, &test).unwrap();
    assert_eq!(train_labels.data, vec![0, 0, 0, 0, 0, 1, 0, 0, 0, 0]);
    assert_eq!(test_labels.data, vec![0, 0, 1, 0, 0, 0, 0, 0, 0, 0]);
}

#[test]
fn build_reports_training_split_error_first() {
    let config = Cifar10::default().num_records_train(1).num_records_test(1);
    let train = vec![0u8; 10];
    let test = record(0, 0);
    let err = config.build(&train, &test).unwrap_err();
    assert_eq!(err, DecodeError::TruncatedInput { num_records: 1, buffer_len: 10 });
}

#[test]
fn build_reports_testing_split_error_when_training_is_sound() {
    let config = Cifar10::default().num_records_train(1).num_records_test(1);
    let train = record(0, 0);
    let test = record(12, 0);
    let err = config.build(&train, &test).unwrap_err();
    assert_eq!(err, DecodeError::LabelRange { index: 0, value: 12 });
}
