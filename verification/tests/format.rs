use lance::format::pb::{
    AllNull, ArrayEncoding, ArrayEncodingEnum, Binary, Bitpacked, Buffer, BufferType, Compression,
    Dictionary, FixedSizeBinary, FixedSizeList, Flat, Fsst, NoNull, Nullability, Nullable,
    PackedStruct, SomeNull,
};
use lance::format::{CompressionScheme, ProtobufUtils};

fn flat(bits: u64, index: u32) -> ArrayEncoding {
    ProtobufUtils::flat_encoding(bits, index, None)
}

fn boxed(enc: ArrayEncoding) -> Option<Box<ArrayEncoding>> {
    Some(Box::new(enc))
}

#[test]
fn buffer_type_numbers() {
    assert_eq!(BufferType::Page.number(), 0);
    assert_eq!(BufferType::Column.number(), 1);
    assert_eq!(BufferType::File.number(), 2);
}

#[test]
fn compression_scheme_names() {
    assert_eq!(CompressionScheme::Uncompressed.to_string(), "none");
    assert_eq!(CompressionScheme::Zstd.to_string(), "zstd");
}

#[test]
fn all_null_encoding() {
    assert_eq!(
        ProtobufUtils::basic_all_null_encoding(),
        ArrayEncoding {
            array_encoding: Some(ArrayEncodingEnum::Nullable(Box::new(Nullable {
                nullability: Some(Nullability::AllNulls(AllNull {})),
            }))),
        }
    );
}

#[test]
fn some_null_encoding_keeps_validity_and_values_apart() {
    let enc = ProtobufUtils::basic_some_null_encoding(flat(1, 0), flat(32, 1));
    assert_eq!(
        enc,
        ArrayEncoding {
            array_encoding: Some(ArrayEncodingEnum::Nullable(Box::new(Nullable {
                nullability: Some(Nullability::SomeNulls(Box::new(SomeNull {
                    validity: boxed(flat(1, 0)),
                    values: boxed(flat(32, 1)),
                }))),
            }))),
        }
    );
}

#[test]
fn no_null_encoding() {
    let enc = ProtobufUtils::basic_no_null_encoding(flat(64, 3));
    assert_eq!(
        enc,
        ArrayEncoding {
            array_encoding: Some(ArrayEncodingEnum::Nullable(Box::new(Nullable {
                nullability: Some(Nullability::NoNulls(Box::new(NoNull {
                    values: boxed(flat(64, 3)),
                }))),
            }))),
        }
    );
}

#[test]
fn flat_encoding_without_compression() {
    assert_eq!(
        ProtobufUtils::flat_encoding(16, 7, None),
        ArrayEncoding {
            array_encoding: Some(ArrayEncodingEnum::Flat(Flat {
                bits_per_value: 16,
                buffer: Some(Buffer {
                    buffer_index: 7,
                    buffer_type: 0,
                }),
                compression: None,
            })),
        }
    );
}

#[test]
fn flat_encoding_with_compression() {
    for (scheme, name) in [
        (CompressionScheme::Zstd, "zstd"),
        (CompressionScheme::Uncompressed, "none"),
    ] {
        assert_eq!(
            ProtobufUtils::flat_encoding(8, 2, Some(scheme)),
            ArrayEncoding {
                array_encoding: Some(ArrayEncodingEnum::Flat(Flat {
                    bits_per_value: 8,
                    buffer: Some(Buffer {
                        buffer_index: 2,
                        buffer_type: 0,
                    }),
                    compression: Some(Compression {
                        scheme: name.to_string(),
                    }),
                })),
            }
        );
    }
}

#[test]
fn bitpacked_encoding_keeps_both_widths() {
    assert_eq!(
        ProtobufUtils::bitpacked_encoding(5, 32, 9, true),
        ArrayEncoding {
            array_encoding: Some(ArrayEncodingEnum::Bitpacked(Bitpacked {
                compressed_bits_per_value: 5,
                uncompressed_bits_per_value: 32,
                buffer: Some(Buffer {
                    buffer_index: 9,
                    buffer_type: 0,
                }),
                signed: true,
            })),
        }
    );
}

#[test]
fn packed_struct_keeps_children_in_order() {
    let enc = ProtobufUtils::packed_struct(vec![flat(8, 0), flat(16, 1)], 4);
    assert_eq!(
        enc,
        ArrayEncoding {
            array_encoding: Some(ArrayEncodingEnum::PackedStruct(PackedStruct {
                inner: vec![flat(8, 0), flat(16, 1)],
                buffer: Some(Buffer {
                    buffer_index: 4,
                    buffer_type: 0,
                }),
            })),
        }
    );
}

#[test]
fn binary_keeps_indices_and_bytes_apart() {
    let enc = ProtobufUtils::binary(flat(64, 0), flat(8, 1), 17);
    assert_eq!(
        enc,
        ArrayEncoding {
            array_encoding: Some(ArrayEncodingEnum::Binary(Box::new(Binary {
                indices: boxed(flat(64, 0)),
                bytes: boxed(flat(8, 1)),
                null_adjustment: 17,
            }))),
        }
    );
}

#[test]
fn dict_encoding_keeps_indices_and_items_apart() {
    let enc = ProtobufUtils::dict_encoding(flat(8, 0), flat(32, 1), 100);
    assert_eq!(
        enc,
        ArrayEncoding {
            array_encoding: Some(ArrayEncodingEnum::Dictionary(Box::new(Dictionary {
                indices: boxed(flat(8, 0)),
                items: boxed(flat(32, 1)),
                num_dictionary_items: 100,
            }))),
        }
    );
}

#[test]
fn fixed_size_binary_encoding() {
    assert_eq!(
        ProtobufUtils::fixed_size_binary(flat(8, 0), 12),
        ArrayEncoding {
            array_encoding: Some(ArrayEncodingEnum::FixedSizeBinary(Box::new(
                FixedSizeBinary {
                    bytes: boxed(flat(8, 0)),
                    byte_width: 12,
                }
            ))),
        }
    );
}

#[test]
fn fixed_size_list_encoding() {
    assert_eq!(
        ProtobufUtils::fixed_size_list(flat(32, 0), 128),
        ArrayEncoding {
            array_encoding: Some(ArrayEncodingEnum::FixedSizeList(Box::new(FixedSizeList {
                dimension: 128,
                items: boxed(flat(32, 0)),
            }))),
        }
    );
}

#[test]
fn fsst_encoding_keeps_the_symbol_table() {
    assert_eq!(
        ProtobufUtils::fsst(flat(8, 0), vec![1, 2, 3]),
        ArrayEncoding {
            array_encoding: Some(ArrayEncodingEnum::Fsst(Box::new(Fsst {
                binary: boxed(flat(8, 0)),
                symbol_table: vec![1, 2, 3],
            }))),
        }
    );
}
