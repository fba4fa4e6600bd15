use vstd::prelude::*;

use crate::decode::{decode_err_for, decode_ok_for, decode_records, well_formed};
use crate::errors::DecodeError;
use crate::tensor::{ImageTensor, LabelTensor};

verus! {

/// Where and how the CIFAR-10 binary data is parsed: paths, per-split file
/// lists, record counts and behavioral flags. Pure data; reading the files,
/// downloading the archive and rendering a preview are left to the caller.
#[derive(Debug)]
pub struct Cifar10<'a> {
    pub base_path: &'a str,
    pub cifar_data_path: &'a str,
    pub show_images: bool,
    pub encode_one_hot: bool,
    pub training_bin_paths: Vec<&'a str>,
    pub testing_bin_paths: Vec<&'a str>,
    pub num_records_train: usize,
    pub num_records_test: usize,
    pub download_and_extract: bool,
}

impl<'a> Cifar10<'a> {
    /// Returns the default configuration, looking in the "./data/" directory
    /// with the canonical binary names and record counts.
    pub fn default() -> (r: Self)
        ensures
            r.base_path@ == "data/"@,
            r.cifar_data_path@ == "cifar-10-batches-bin/"@,
            r.show_images == false,
            r.encode_one_hot == true,
            r.training_bin_paths@.len() == 5,
            r.training_bin_paths@[0]@ == "data_batch_1.bin"@,
            r.training_bin_paths@[1]@ == "data_batch_2.bin"@,
            r.training_bin_paths@[2]@ == "data_batch_3.bin"@,
            r.training_bin_paths@[3]@ == "data_batch_4.bin"@,
            r.training_bin_paths@[4]@ == "data_batch_5.bin"@,
            r.testing_bin_paths@.len() == 1,
            r.testing_bin_paths@[0]@ == "test_batch.bin"@,
            r.num_records_train == 50000,
            r.num_records_test == 10000,
            r.download_and_extract == false,
    {
        let mut training_bin_paths: Vec<&'a str> = Vec::new();
        training_bin_paths.push("data_batch_1.bin");
        training_bin_paths.push("data_batch_2.bin");
        training_bin_paths.push("data_batch_3.bin");
        training_bin_paths.push("data_batch_4.bin");
        training_bin_paths.push("data_batch_5.bin");
        let mut testing_bin_paths: Vec<&'a str> = Vec::new();
        testing_bin_paths.push("test_batch.bin");
        Cifar10 {
            base_path: "data/",
            cifar_data_path: "cifar-10-batches-bin/",
            show_images: false,
            encode_one_hot: true,
            training_bin_paths,
            testing_bin_paths,
            num_records_train: 50000,
            num_records_test: 10000,
            download_and_extract: false,
        }
    }

    /// Manually set the base path.
    pub fn base_path(self, base_path: &'a str) -> (r: Self)
        ensures
            r == (Cifar10 { base_path, ..self }),
    {
        Cifar10 { base_path, ..self }
    }

    /// Manually set the path for the CIFAR-10 data.
    pub fn cifar_data_path(self, cifar_data_path: &'a str) -> (r: Self)
        ensures
            r == (Cifar10 { cifar_data_path, ..self }),
    {
        Cifar10 { cifar_data_path, ..self }
    }

    /// Ask the surrounding application to download the dataset archive and
    /// extract it before the binaries are read.
    pub fn download_and_extract(self, download_and_extract: bool) -> (r: Self)
        ensures
            r == (Cifar10 { download_and_extract, ..self }),
    {
        Cifar10 { download_and_extract, ..self }
    }

    /// Ask the surrounding application to display one decoded image.
    pub fn show_images(self, show_images: bool) -> (r: Self)
        ensures
            r == (Cifar10 { show_images, ..self }),
    {
        Cifar10 { show_images, ..self }
    }

    /// Choose whether the label tensors are meant one-hot (default yes).
    /// Decoding keeps the one-hot form either way: the flag is carried for
    /// the caller but does not change what `build` returns.
    pub fn encode_one_hot(self, encode_one_hot: bool) -> (r: Self)
        ensures
            r == (Cifar10 { encode_one_hot, ..self }),
    {
        Cifar10 { encode_one_hot, ..self }
    }

    /// Manually set the names of the training data binaries.
    pub fn training_bin_paths(self, training_bin_paths: Vec<&'a str>) -> (r: Self)
        ensures
            r == (Cifar10 { training_bin_paths, ..self }),
    {
        Cifar10 { training_bin_paths, ..self }
    }

    /// Manually set the names of the testing data binaries.
    pub fn testing_bin_paths(self, testing_bin_paths: Vec<&'a str>) -> (r: Self)
        ensures
            r == (Cifar10 { testing_bin_paths, ..self }),
    {
        Cifar10 { testing_bin_paths, ..self }
    }

    /// Set the number of records in the training set (default 50000).
    pub fn num_records_train(self, num_records_train: usize) -> (r: Self)
        ensures
            r == (Cifar10 { num_records_train, ..self }),
    {
        Cifar10 { num_records_train, ..self }
    }

    /// Set the number of records in the testing set (default 10000).
    pub fn num_records_test(self, num_records_test: usize) -> (r: Self)
        ensures
            r == (Cifar10 { num_records_test, ..self }),
    {
        Cifar10 { num_records_test, ..self }
    }

    /// Decodes the two splits from their raw buffers, using the configured
    /// record counts: the training buffer first, then the testing buffer.
    /// Returns `(train_images, train_labels, test_images, test_labels)`, or
    /// the first decode error; the training buffer is charged first.
    pub fn build(self, train_buffer: &Vec<u8>, test_buffer: &Vec<u8>) -> (r: Result<
        (ImageTensor, LabelTensor, ImageTensor, LabelTensor),
        DecodeError,
    >)
        ensures
            match r {
                Ok((train_images, train_labels, test_images, test_labels)) => {
                    &&& decode_ok_for(
                        train_buffer@,
                        self.num_records_train as int,
                        train_images,
                        train_labels,
                    )
                    &&& decode_ok_for(
                        test_buffer@,
                        self.num_records_test as int,
                        test_images,
                        test_labels,
                    )
                },
                Err(e) => {
                    if !well_formed(train_buffer@, self.num_records_train as int) {
                        decode_err_for(train_buffer@, self.num_records_train as int, e)
                    } else {
                        decode_err_for(test_buffer@, self.num_records_test as int, e)
                    }
                },
            },
            r.is_ok() <==> well_formed(train_buffer@, self.num_records_train as int)
                && well_formed(test_buffer@, self.num_records_test as int),
    {
        let (train_images, train_labels) = match decode_records(
            train_buffer,
            self.num_records_train,
        ) {
            Ok(pair) => pair,
            Err(e) => {
                return Err(e);
            },
        };
        let (test_images, test_labels) = match decode_records(test_buffer, self.num_records_test) {
            Ok(pair) => pair,
            Err(e) => {
                return Err(e);
            },
        };
        Ok((train_images, train_labels, test_images, test_labels))
    }
}

} // verus!
