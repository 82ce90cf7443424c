//! The partition manifest: a fixed header, a crypto block, and a stream of
//! extension records.

use vstd::prelude::*;
use vstd::slice::slice_subrange;
use crate::bytes::{FromBytes, le16, le32, le64, read_u16, read_u32, read_u64, read_array};
use crate::error::{DecodeError, Field};
use crate::ext::{ManifestExtension, parse_extensions_at, stream_error_at, stream_decoded, sum_lengths, lemma_stream_lengths};

verus! {

/// `"$MN2"` read as a little-endian word.
pub const MARKER_MN2: u32 = 0x324e_4d24;

/// The vendor id a manifest must carry.
pub const VENDOR_INTEL: u32 = 0x8086;

/// The header and crypto block together, in 32-bit words.
pub const HEADER_LENGTH_WORDS: u32 = 0xa1;

/// Where the extension stream starts: after the 128-byte header and the
/// 516-byte crypto block.
pub const EXTENSIONS_START: usize = 644;

/// A date in binary-coded decimal.
#[derive(Clone, Copy, Debug)]
pub struct BCDTimestamp(pub u32);

/// The manifest of a code partition.
#[derive(Debug)]
pub struct CodePartitionManifest {
    pub header: ManifestHeader,
    pub crypto: CryptoBlock,
    pub extensions: Vec<ManifestExtension>,
}

impl CodePartitionManifest {
    /// Why no manifest can be decoded from `s`, if none can.
    pub open spec fn spec_error(s: Seq<u8>) -> Option<DecodeError> {
        if s.len() < 128 {
            Some(DecodeError::TruncatedInput)
        } else if ManifestHeader::rejection(s) is Some {
            ManifestHeader::rejection(s)
        } else if s.len() < 644 {
            Some(DecodeError::TruncatedInput)
        } else {
            stream_error_at(s, 644)
        }
    }

    /// `self` is the manifest held in `s`.
    pub open spec fn decoded_from(self, s: Seq<u8>) -> bool {
        &&& s.len() >= 644
        &&& ManifestHeader::rejection(s) is None
        &&& self.header.decoded_from(s)
        &&& self.crypto.decoded_from(s.subrange(128, s.len() as int))
        &&& stream_decoded(self.extensions@, s.subrange(644, s.len() as int))
    }

    /// Decodes the header, the crypto block, then every extension up to the
    /// end of `x`.
    pub fn new(x: &[u8]) -> (r: Result<CodePartitionManifest, DecodeError>)
        ensures
            r is Ok <==> Self::spec_error(x@) is None,
            r matches Err(e) ==> Self::spec_error(x@) == Some(e),
            r matches Ok(m) ==> m.decoded_from(x@),
    {
        let header = ManifestHeader::from_bytes(x)?;
        let after_header = slice_subrange(x, 128, x.len());
        let crypto = CryptoBlock::from_bytes(after_header)?;
        let extensions = parse_extensions_at(x, EXTENSIONS_START)?;
        Ok(CodePartitionManifest { header, crypto, extensions })
    }
}

/// The declared lengths of a manifest's extensions add up to the bytes
/// that follow its header and crypto block.
pub proof fn lemma_manifest_extension_lengths(m: CodePartitionManifest, s: Seq<u8>)
    requires
        m.decoded_from(s),
    ensures
        sum_lengths(m.extensions@) == s.len() - 644,
{
    lemma_stream_lengths(m.extensions@, s.subrange(644, s.len() as int));
}

/// Partition manifest header.
#[derive(Clone, Copy, Debug)]
pub struct ManifestHeader {
    pub manifest_type: u32,
    pub header_length_words: u32,
    pub version: u32,
    pub flags: u32,
    pub vendor: u32,
    pub date: BCDTimestamp,
    pub manifest_length_words: u32,
    pub marker: [u8; 4],
    pub reserved0: u32,
    pub version_major: u16,
    pub version_minor: u16,
    pub version_hotfix: u16,
    pub version_build: u16,
    pub secure_version_number: u32,
    pub reserved1: u64,
    pub reserved2: [u8; 64],
    pub modulus_len_words: u32,
    pub exponent_size_words: u32,
}

impl FromBytes for ManifestHeader {
    open spec fn layout_size() -> nat {
        128
    }

    open spec fn decoded_from(self, s: Seq<u8>) -> bool {
        &&& self.manifest_type == le32(s, 0)
        &&& self.header_length_words == le32(s, 4)
        &&& self.version == le32(s, 8)
        &&& self.flags == le32(s, 12)
        &&& self.vendor == le32(s, 16)
        &&& self.date.0 == le32(s, 20)
        &&& self.manifest_length_words == le32(s, 24)
        &&& self.marker@ == s.subrange(28, 32)
        &&& self.reserved0 == le32(s, 32)
        &&& self.version_major == le16(s, 36)
        &&& self.version_minor == le16(s, 38)
        &&& self.version_hotfix == le16(s, 40)
        &&& self.version_build == le16(s, 42)
        &&& self.secure_version_number == le32(s, 44)
        &&& self.reserved1 == le64(s, 48)
        &&& self.reserved2@ == s.subrange(56, 120)
        &&& self.modulus_len_words == le32(s, 120)
        &&& self.exponent_size_words == le32(s, 124)
    }

    open spec fn rejection(s: Seq<u8>) -> Option<DecodeError> {
        if le32(s, 28) != MARKER_MN2 {
            Some(
                DecodeError::ValidationFailed {
                    field: Field::ManifestMarker,
                    expected: MARKER_MN2,
                    actual: le32(s, 28),
                },
            )
        } else if le32(s, 16) != VENDOR_INTEL {
            Some(
                DecodeError::ValidationFailed {
                    field: Field::ManifestVendor,
                    expected: VENDOR_INTEL,
                    actual: le32(s, 16),
                },
            )
        } else if le32(s, 4) != HEADER_LENGTH_WORDS {
            Some(
                DecodeError::ValidationFailed {
                    field: Field::ManifestHeaderLength,
                    expected: HEADER_LENGTH_WORDS,
                    actual: le32(s, 4),
                },
            )
        } else {
            None
        }
    }

    fn size() -> (r: usize) {
        128
    }

    fn from_bytes(x: &[u8]) -> (r: Result<Self, DecodeError>) {
        if x.len() < 128 {
            return Err(DecodeError::TruncatedInput);
        }
        let marker = read_u32(x, 28);
        if marker != MARKER_MN2 {
            return Err(
                DecodeError::ValidationFailed {
                    field: Field::ManifestMarker,
                    expected: MARKER_MN2,
                    actual: marker,
                },
            );
        }
        let vendor = read_u32(x, 16);
        if vendor != VENDOR_INTEL {
            return Err(
                DecodeError::ValidationFailed {
                    field: Field::ManifestVendor,
                    expected: VENDOR_INTEL,
                    actual: vendor,
                },
            );
        }
        let header_length_words = read_u32(x, 4);
        if header_length_words != HEADER_LENGTH_WORDS {
            return Err(
                DecodeError::ValidationFailed {
                    field: Field::ManifestHeaderLength,
                    expected: HEADER_LENGTH_WORDS,
                    actual: header_length_words,
                },
            );
        }
        Ok(
            ManifestHeader {
                manifest_type: read_u32(x, 0),
                header_length_words: read_u32(x, 4),
                version: read_u32(x, 8),
                flags: read_u32(x, 12),
                vendor: read_u32(x, 16),
                date: BCDTimestamp(read_u32(x, 20)),
                manifest_length_words: read_u32(x, 24),
                marker: read_array(x, 28),
                reserved0: read_u32(x, 32),
                version_major: read_u16(x, 36),
                version_minor: read_u16(x, 38),
                version_hotfix: read_u16(x, 40),
                version_build: read_u16(x, 42),
                secure_version_number: read_u32(x, 44),
                reserved1: read_u64(x, 48),
                reserved2: read_array(x, 56),
                modulus_len_words: read_u32(x, 120),
                exponent_size_words: read_u32(x, 124),
            },
        )
    }
}

/// The manifest's key and signature; kept as found, not checked here.
#[derive(Clone, Copy, Debug)]
pub struct CryptoBlock {
    pub public_key: [u8; 256],
    pub exponent: u32,
    pub rsa_signature: [u8; 256],
}

impl FromBytes for CryptoBlock {
    open spec fn layout_size() -> nat {
        516
    }

    open spec fn decoded_from(self, s: Seq<u8>) -> bool {
        &&& self.public_key@ == s.subrange(0, 256)
        &&& self.exponent == le32(s, 256)
        &&& self.rsa_signature@ == s.subrange(260, 516)
    }

    open spec fn rejection(s: Seq<u8>) -> Option<DecodeError> {
        None
    }

    fn size() -> (r: usize) {
        516
    }

    fn from_bytes(x: &[u8]) -> (r: Result<Self, DecodeError>) {
        if x.len() < 516 {
            return Err(DecodeError::TruncatedInput);
        }
        Ok(
            CryptoBlock {
                public_key: read_array(x, 0),
                exponent: read_u32(x, 256),
                rsa_signature: read_array(x, 260),
            },
        )
    }
}

} // verus!
