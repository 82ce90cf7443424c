use vstd::prelude::*;

verus! {

/// The fixed field whose value did not match what the format requires.
#[derive(Clone, Copy, Debug, PartialEq, Eq, Structural)]
pub enum Field {
    FptMarker,
    FptHeaderLength,
    CpdMarker,
    CpdHeaderLength,
    ManifestMarker,
    ManifestVendor,
    ManifestHeaderLength,
    ExtensionLength,
    MetadataCompressed,
    CompressionType,
}

/// Everything that can go wrong while decoding an image.
#[derive(Clone, Copy, Debug, PartialEq, Eq, Structural)]
pub enum DecodeError {
    /// The slice is shorter than the fixed record it should hold.
    TruncatedInput,
    /// A marker or a fixed field holds an unexpected value.
    ValidationFailed { field: Field, expected: u32, actual: u32 },
    /// The flash partition table declares more than 127 entries.
    EntryCountExceeded,
    /// An extension record carries an id outside the known range.
    UnknownExtension(u32),
    /// The first directory entry is not the partition manifest.
    MissingManifest,
    /// A metadata file holds no module attribute extension.
    MissingModuleAttrs,
    /// No directory entry holds the data of a module.
    MissingModuleData,
    /// More than one directory entry claims the same module name.
    AmbiguousModule,
    /// The decompressed length differs from the declared one.
    SizeMismatch { expected: u32, actual: usize },
    /// The Huffman decoder rejected the module data.
    HuffmanError,
    /// The LZMA decoder rejected the module data.
    LzmaError,
    /// A range computed from header fields exceeds its buffer.
    OutOfBounds { offset: usize, length: usize, buffer_len: usize },
}

} // verus!
