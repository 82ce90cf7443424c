//! Decoding of CSME firmware images: the flash partition table, code
//! partition directories, manifests with their extensions, and modules with
//! their stored, Huffman or LZMA data.
//!
//! Every decoder works on a byte slice and checks each range it computes
//! from header fields against that slice; malformed input gives a
//! [`DecodeError`]. Huffman and LZMA module data are decoded by functions
//! the caller supplies to [`CodePartition::new`].

pub mod bytes;
pub mod error;
pub mod fpt;
pub mod cpd;
pub mod ext;
pub mod man;
pub mod lzma_codec;
pub mod part;

pub use crate::bytes::FromBytes;
pub use crate::cpd::{CodePartitionDirectory, CpdEntry, CpdEntryBits, CpdHeader};
pub use crate::error::{DecodeError, Field};
pub use crate::ext::{CompressionType, ExtensionData, ExtensionHeader, ManifestExtension, ModAttrExt};
pub use crate::fpt::{FlashPartitionTable, FptEntry, FptEntryAttributes, FptHeader, PartitionType};
pub use crate::man::{CodePartitionManifest, CryptoBlock, ManifestHeader};
pub use crate::part::{CodePartition, Module};
