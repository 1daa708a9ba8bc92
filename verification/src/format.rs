//! Builders for the descriptions of array encodings.

use vstd::prelude::*;
use vstd::string::*;
use crate::format::pb::{
    AllNull, ArrayEncoding, ArrayEncodingEnum, Binary, Bitpacked, Buffer, BufferType, Compression,
    Dictionary, FixedSizeBinary, FixedSizeList, Flat, Fsst, NoNull, Nullability, Nullable,
    PackedStruct, SomeNull,
};

pub mod pb;

verus! {

/// The scheme by which the bytes of a buffer are compressed.
#[derive(Debug, Clone, Copy, PartialEq, Eq, Structural)]
pub enum CompressionScheme {
    /// The bytes are stored as they are.
    Uncompressed,
    /// The bytes are compressed with Zstandard.
    Zstd,
}

impl CompressionScheme {
    /// The name under which the scheme is written into a description.
    pub open spec fn spec_name(self) -> Seq<char> {
        match self {
            CompressionScheme::Uncompressed => "none"@,
            CompressionScheme::Zstd => "zstd"@,
        }
    }

    /// The name under which the scheme is written into a description.
    pub fn to_string(&self) -> (name: String)
        ensures
            name@ == self.spec_name(),
    {
        match self {
            CompressionScheme::Uncompressed => String::from_str("none"),
            CompressionScheme::Zstd => String::from_str("zstd"),
        }
    }
}

/// The reference to the buffer `buffer_index` of a page.
pub open spec fn page_buffer(buffer_index: u32) -> Buffer {
    Buffer { buffer_index, buffer_type: BufferType::Page.spec_number() }
}

/// Whether `stored` records the choice `chosen` of a compression scheme.
pub open spec fn records_scheme(
    stored: Option<Compression>,
    chosen: Option<CompressionScheme>,
) -> bool {
    match chosen {
        None => stored is None,
        Some(scheme) => stored matches Some(c) && c.scheme@ == scheme.spec_name(),
    }
}

/// Builds the descriptions of array encodings.
pub struct ProtobufUtils {}

impl ProtobufUtils {
    /// An array in which every value is null.
    pub fn basic_all_null_encoding() -> (enc: ArrayEncoding)
        ensures
            enc == (ArrayEncoding {
                array_encoding: Some(
                    ArrayEncodingEnum::Nullable(
                        Box::new(Nullable { nullability: Some(Nullability::AllNulls(AllNull {  })) }),
                    ),
                ),
            }),
    {
        ArrayEncoding {
            array_encoding: Some(
                ArrayEncodingEnum::Nullable(
                    Box::new(Nullable { nullability: Some(Nullability::AllNulls(AllNull {  })) }),
                ),
            ),
        }
    }

    /// An array with some nulls: `validity` tells which values are null and
    /// `values` holds the values.
    pub fn basic_some_null_encoding(validity: ArrayEncoding, values: ArrayEncoding) -> (enc:
        ArrayEncoding)
        ensures
            enc == (ArrayEncoding {
                array_encoding: Some(
                    ArrayEncodingEnum::Nullable(
                        Box::new(
                            Nullable {
                                nullability: Some(
                                    Nullability::SomeNulls(
                                        Box::new(
                                            SomeNull {
                                                validity: Some(Box::new(validity)),
                                                values: Some(Box::new(values)),
                                            },
                                        ),
                                    ),
                                ),
                            },
                        ),
                    ),
                ),
            }),
    {
        ArrayEncoding {
            array_encoding: Some(
                ArrayEncodingEnum::Nullable(
                    Box::new(
                        Nullable {
                            nullability: Some(
                                Nullability::SomeNulls(
                                    Box::new(
                                        SomeNull {
                                            validity: Some(Box::new(validity)),
                                            values: Some(Box::new(values)),
                                        },
                                    ),
                                ),
                            ),
                        },
                    ),
                ),
            ),
        }
    }

    /// An array without nulls, whose values are encoded as `values`.
    pub fn basic_no_null_encoding(values: ArrayEncoding) -> (enc: ArrayEncoding)
        ensures
            enc == (ArrayEncoding {
                array_encoding: Some(
                    ArrayEncodingEnum::Nullable(
                        Box::new(
                            Nullable {
                                nullability: Some(
                                    Nullability::NoNulls(
                                        Box::new(NoNull { values: Some(Box::new(values)) }),
                                    ),
                                ),
                            },
                        ),
                    ),
                ),
            }),
    {
        ArrayEncoding {
            array_encoding: Some(
                ArrayEncodingEnum::Nullable(
                    Box::new(
                        Nullable {
                            nullability: Some(
                                Nullability::NoNulls(
                                    Box::new(NoNull { values: Some(Box::new(values)) }),
                                ),
                            ),
                        },
                    ),
                ),
            ),
        }
    }

    /// Values of `bits_per_value` bits each in the page buffer `buffer_index`,
    /// compressed by `compression` if one is given.
    pub fn flat_encoding(
        bits_per_value: u64,
        buffer_index: u32,
        compression: Option<CompressionScheme>,
    ) -> (enc: ArrayEncoding)
        ensures
            enc.array_encoding matches Some(ArrayEncodingEnum::Flat(flat)) && {
                &&& flat.bits_per_value == bits_per_value
                &&& flat.buffer == Some(page_buffer(buffer_index))
                &&& records_scheme(flat.compression, compression)
            },
    {
        let compression = match compression {
            None => None,
            Some(compression_scheme) => Some(Compression { scheme: compression_scheme.to_string() }),
        };
        ArrayEncoding {
            array_encoding: Some(
                ArrayEncodingEnum::Flat(
                    Flat {
                        bits_per_value,
                        buffer: Some(
                            Buffer { buffer_index, buffer_type: BufferType::Page.number() },
                        ),
                        compression,
                    },
                ),
            ),
        }
    }

    /// Integers of `uncompressed_bits_per_value` bits, packed into
    /// `compressed_bits_per_value` bits each in the page buffer `buffer_index`.
    pub fn bitpacked_encoding(
        compressed_bits_per_value: u64,
        uncompressed_bits_per_value: u64,
        buffer_index: u32,
        signed: bool,
    ) -> (enc: ArrayEncoding)
        ensures
            enc == (ArrayEncoding {
                array_encoding: Some(
                    ArrayEncodingEnum::Bitpacked(
                        Bitpacked {
                            compressed_bits_per_value,
                            uncompressed_bits_per_value,
                            buffer: Some(page_buffer(buffer_index)),
                            signed,
                        },
                    ),
                ),
            }),
    {
        ArrayEncoding {
            array_encoding: Some(
                ArrayEncodingEnum::Bitpacked(
                    Bitpacked {
                        compressed_bits_per_value,
                        buffer: Some(
                            Buffer { buffer_index, buffer_type: BufferType::Page.number() },
                        ),
                        uncompressed_bits_per_value,
                        signed,
                    },
                ),
            ),
        }
    }

    /// A struct whose fields, encoded as `child_encodings`, are packed into
    /// the page buffer `packed_buffer_index`.
    pub fn packed_struct(child_encodings: Vec<ArrayEncoding>, packed_buffer_index: u32) -> (enc:
        ArrayEncoding)
        ensures
            enc == (ArrayEncoding {
                array_encoding: Some(
                    ArrayEncodingEnum::PackedStruct(
                        PackedStruct {
                            inner: child_encodings,
                            buffer: Some(page_buffer(packed_buffer_index)),
                        },
                    ),
                ),
            }),
    {
        ArrayEncoding {
            array_encoding: Some(
                ArrayEncodingEnum::PackedStruct(
                    PackedStruct {
                        inner: child_encodings,
                        buffer: Some(
                            Buffer {
                                buffer_index: packed_buffer_index,
                                buffer_type: BufferType::Page.number(),
                            },
                        ),
                    },
                ),
            ),
        }
    }

    /// Values of varying length: `indices_encoding` describes the offsets and
    /// `bytes_encoding` the bytes they point into.
    pub fn binary(
        indices_encoding: ArrayEncoding,
        bytes_encoding: ArrayEncoding,
        null_adjustment: u64,
    ) -> (enc: ArrayEncoding)
        ensures
            enc == (ArrayEncoding {
                array_encoding: Some(
                    ArrayEncodingEnum::Binary(
                        Box::new(
                            Binary {
                                indices: Some(Box::new(indices_encoding)),
                                bytes: Some(Box::new(bytes_encoding)),
                                null_adjustment,
                            },
                        ),
                    ),
                ),
            }),
    {
        ArrayEncoding {
            array_encoding: Some(
                ArrayEncodingEnum::Binary(
                    Box::new(
                        Binary {
                            bytes: Some(Box::new(bytes_encoding)),
                            indices: Some(Box::new(indices_encoding)),
                            null_adjustment,
                        },
                    ),
                ),
            ),
        }
    }

    /// Values drawn from a dictionary of `num_items` items: `indices` points
    /// into `items`.
    pub fn dict_encoding(indices: ArrayEncoding, items: ArrayEncoding, num_items: u32) -> (enc:
        ArrayEncoding)
        ensures
            enc == (ArrayEncoding {
                array_encoding: Some(
                    ArrayEncodingEnum::Dictionary(
                        Box::new(
                            Dictionary {
                                indices: Some(Box::new(indices)),
                                items: Some(Box::new(items)),
                                num_dictionary_items: num_items,
                            },
                        ),
                    ),
                ),
            }),
    {
        ArrayEncoding {
            array_encoding: Some(
                ArrayEncodingEnum::Dictionary(
                    Box::new(
                        Dictionary {
                            indices: Some(Box::new(indices)),
                            items: Some(Box::new(items)),
                            num_dictionary_items: num_items,
                        },
                    ),
                ),
            ),
        }
    }

    /// Byte strings of `byte_width` bytes each, whose bytes are encoded as
    /// `data`.
    pub fn fixed_size_binary(data: ArrayEncoding, byte_width: u32) -> (enc: ArrayEncoding)
        ensures
            enc == (ArrayEncoding {
                array_encoding: Some(
                    ArrayEncodingEnum::FixedSizeBinary(
                        Box::new(FixedSizeBinary { bytes: Some(Box::new(data)), byte_width }),
                    ),
                ),
            }),
    {
        ArrayEncoding {
            array_encoding: Some(
                ArrayEncodingEnum::FixedSizeBinary(
                    Box::new(FixedSizeBinary { bytes: Some(Box::new(data)), byte_width }),
                ),
            ),
        }
    }

    /// Lists of `dimension` items each, whose items are encoded as `data`.
    pub fn fixed_size_list(data: ArrayEncoding, dimension: u32) -> (enc: ArrayEncoding)
        ensures
            enc == (ArrayEncoding {
                array_encoding: Some(
                    ArrayEncodingEnum::FixedSizeList(
                        Box::new(FixedSizeList { dimension, items: Some(Box::new(data)) }),
                    ),
                ),
            }),
    {
        ArrayEncoding {
            array_encoding: Some(
                ArrayEncodingEnum::FixedSizeList(
                    Box::new(FixedSizeList { dimension, items: Some(Box::new(data)) }),
                ),
            ),
        }
    }

    /// Strings encoded as `data` and compressed with `symbol_table`.
    pub fn fsst(data: ArrayEncoding, symbol_table: Vec<u8>) -> (enc: ArrayEncoding)
        ensures
            enc == (ArrayEncoding {
                array_encoding: Some(
                    ArrayEncodingEnum::Fsst(
                        Box::new(Fsst { binary: Some(Box::new(data)), symbol_table }),
                    ),
                ),
            }),
    {
        ArrayEncoding {
            array_encoding: Some(
                ArrayEncodingEnum::Fsst(
                    Box::new(Fsst { binary: Some(Box::new(data)), symbol_table }),
                ),
            ),
        }
    }
}

} // verus!
