//! The messages that describe how an array is encoded on disk.

use vstd::prelude::*;

verus! {

/// Where a buffer is stored.
#[derive(Debug, Clone, Copy, PartialEq, Eq, Structural)]
pub enum BufferType {
    /// In the page, and unique to it.
    Page,
    /// In the metadata of the column.
    Column,
    /// In the metadata of the file.
    File,
}

impl BufferType {
    /// The number that stands for this buffer type in a message.
    pub open spec fn spec_number(self) -> i32 {
        match self {
            BufferType::Page => 0,
            BufferType::Column => 1,
            BufferType::File => 2,
        }
    }

    /// The number that stands for this buffer type in a message.
    #[verifier::when_used_as_spec(spec_number)]
    pub fn number(self) -> (n: i32)
        ensures
            n == self.spec_number(),
    {
        match self {
            BufferType::Page => 0,
            BufferType::Column => 1,
            BufferType::File => 2,
        }
    }
}

/// A reference to one buffer.
#[derive(Debug, Clone, Copy, PartialEq, Eq, Structural)]
pub struct Buffer {
    pub buffer_index: u32,
    pub buffer_type: i32,
}

/// The compression applied to a buffer.
#[derive(Debug, Clone, PartialEq, Eq)]
pub struct Compression {
    pub scheme: String,
}

/// An array without nulls.
#[derive(Debug, PartialEq, Eq)]
pub struct NoNull {
    pub values: Option<Box<ArrayEncoding>>,
}

/// An array of nulls only.
#[derive(Debug, Clone, Copy, PartialEq, Eq, Structural)]
pub struct AllNull {}

/// An array with some nulls, told apart by a validity array.
#[derive(Debug, PartialEq, Eq)]
pub struct SomeNull {
    pub validity: Option<Box<ArrayEncoding>>,
    pub values: Option<Box<ArrayEncoding>>,
}

/// How an array stands to nulls.
#[derive(Debug, PartialEq, Eq)]
pub enum Nullability {
    NoNulls(Box<NoNull>),
    SomeNulls(Box<SomeNull>),
    AllNulls(AllNull),
}

/// An array that may hold nulls.
#[derive(Debug, PartialEq, Eq)]
pub struct Nullable {
    pub nullability: Option<Nullability>,
}

/// Values of a fixed width, laid out one after the other.
#[derive(Debug, PartialEq, Eq)]
pub struct Flat {
    pub bits_per_value: u64,
    pub buffer: Option<Buffer>,
    pub compression: Option<Compression>,
}

/// Integers packed into fewer bits than their type has.
#[derive(Debug, Clone, Copy, PartialEq, Eq, Structural)]
pub struct Bitpacked {
    pub compressed_bits_per_value: u64,
    pub uncompressed_bits_per_value: u64,
    pub buffer: Option<Buffer>,
    pub signed: bool,
}

/// The fields of a struct packed row by row into one buffer.
#[derive(Debug, PartialEq, Eq)]
pub struct PackedStruct {
    pub inner: Vec<ArrayEncoding>,
    pub buffer: Option<Buffer>,
}

/// Values of varying length: offsets into a run of bytes.
#[derive(Debug, PartialEq, Eq)]
pub struct Binary {
    pub indices: Option<Box<ArrayEncoding>>,
    pub bytes: Option<Box<ArrayEncoding>>,
    pub null_adjustment: u64,
}

/// Indices into a dictionary of items.
#[derive(Debug, PartialEq, Eq)]
pub struct Dictionary {
    pub indices: Option<Box<ArrayEncoding>>,
    pub items: Option<Box<ArrayEncoding>>,
    pub num_dictionary_items: u32,
}

/// Byte strings that all have the same width.
#[derive(Debug, PartialEq, Eq)]
pub struct FixedSizeBinary {
    pub bytes: Option<Box<ArrayEncoding>>,
    pub byte_width: u32,
}

/// Lists that all have the same number of items.
#[derive(Debug, PartialEq, Eq)]
pub struct FixedSizeList {
    pub dimension: u32,
    pub items: Option<Box<ArrayEncoding>>,
}

/// Strings compressed with a symbol table.
#[derive(Debug, PartialEq, Eq)]
pub struct Fsst {
    pub binary: Option<Box<ArrayEncoding>>,
    pub symbol_table: Vec<u8>,
}

/// The encodings an array can have.
#[derive(Debug, PartialEq, Eq)]
pub enum ArrayEncodingEnum {
    Flat(Flat),
    Nullable(Box<Nullable>),
    FixedSizeList(Box<FixedSizeList>),
    Binary(Box<Binary>),
    Dictionary(Box<Dictionary>),
    Fsst(Box<Fsst>),
    PackedStruct(PackedStruct),
    Bitpacked(Bitpacked),
    FixedSizeBinary(Box<FixedSizeBinary>),
}

/// The description of how one array is encoded.
#[derive(Debug, PartialEq, Eq)]
pub struct ArrayEncoding {
    pub array_encoding: Option<ArrayEncodingEnum>,
}

} // verus!
