//! The flash partition table at the head of an image.

use vstd::prelude::*;
use crate::bytes::{FromBytes, le16, le32, read_u8, read_u16, read_u32, read_array, read_entries, entries_decoded};
use crate::error::{DecodeError, Field};

verus! {

/// `"$FPT"` read as a little-endian word.
pub const MARKER_FPT: u32 = 0x5450_4624;

/// The largest number of entries a table may declare.
pub const MAX_FPT_ENTRIES: u32 = 127;

/// A flash partition table describing the partitions of an image.
#[derive(Debug)]
pub struct FlashPartitionTable {
    pub header: FptHeader,
    pub entries: Vec<FptEntry>,
}

impl FlashPartitionTable {
    /// The bytes a table with `n` entries occupies.
    pub open spec fn spec_table_size(n: nat) -> nat {
        32 + n * 32
    }

    /// Decodes the header, then the entries that follow it.
    pub fn from_bytes(data: &[u8]) -> (r: Result<FlashPartitionTable, DecodeError>)
        ensures
            data@.len() < 32 ==> r == Err::<FlashPartitionTable, DecodeError>(
                DecodeError::TruncatedInput,
            ),
            data@.len() >= 32 ==> match r {
                Ok(t) => {
                    &&& FptHeader::rejection(data@) is None
                    &&& t.header.decoded_from(data@)
                    &&& t.header.num_fpt_entries <= MAX_FPT_ENTRIES
                    &&& data@.len() >= Self::spec_table_size(t.header.num_fpt_entries as nat)
                    &&& entries_decoded(
                        t.entries@,
                        data@.subrange(32, data@.len() as int),
                        t.header.num_fpt_entries as nat,
                    )
                },
                Err(e) => {
                    ||| FptHeader::rejection(data@) == Some(e)
                    ||| FptHeader::rejection(data@) is None && le32(data@, 4) > MAX_FPT_ENTRIES
                        && e == DecodeError::EntryCountExceeded
                    ||| FptHeader::rejection(data@) is None && le32(data@, 4) <= MAX_FPT_ENTRIES
                        && data@.len() < Self::spec_table_size(le32(data@, 4) as nat) && e
                        == DecodeError::TruncatedInput
                },
            },
    {
        let header = FptHeader::from_bytes(data)?;
        if header.num_fpt_entries > MAX_FPT_ENTRIES {
            return Err(DecodeError::EntryCountExceeded);
        }
        let rest = vstd::slice::slice_subrange(data, 32, data.len());
        let entries = read_entries::<FptEntry>(rest, header.num_fpt_entries as usize)?;
        Ok(FlashPartitionTable { header, entries })
    }
}

/// Flash partition table header.
#[derive(Clone, Copy, Debug)]
pub struct FptHeader {
    pub marker: [u8; 4],
    pub num_fpt_entries: u32,
    pub header_version: u8,
    pub entry_version: u8,
    pub header_length: u8,
    pub header_checksum: u8,
    pub ticks_to_add: u16,
    pub tokens_to_add: u16,
    pub reserved: u32,
    pub flash_layout: u32,
    pub fitc_major_ver: u16,
    pub fitc_minor_ver: u16,
    pub fitc_hotfix_ver: u16,
    pub fitc_build_ver: u16,
}

impl FromBytes for FptHeader {
    open spec fn layout_size() -> nat {
        32
    }

    open spec fn decoded_from(self, s: Seq<u8>) -> bool {
        &&& self.marker@ == s.subrange(0, 4)
        &&& self.num_fpt_entries == le32(s, 4)
        &&& self.header_version == s[8]
        &&& self.entry_version == s[9]
        &&& self.header_length == s[10]
        &&& self.header_checksum == s[11]
        &&& self.ticks_to_add == le16(s, 12)
        &&& self.tokens_to_add == le16(s, 14)
        &&& self.reserved == le32(s, 16)
        &&& self.flash_layout == le32(s, 20)
        &&& self.fitc_major_ver == le16(s, 24)
        &&& self.fitc_minor_ver == le16(s, 26)
        &&& self.fitc_hotfix_ver == le16(s, 28)
        &&& self.fitc_build_ver == le16(s, 30)
    }

    open spec fn rejection(s: Seq<u8>) -> Option<DecodeError> {
        if le32(s, 0) != MARKER_FPT {
            Some(
                DecodeError::ValidationFailed {
                    field: Field::FptMarker,
                    expected: MARKER_FPT,
                    actual: le32(s, 0),
                },
            )
        } else if s[10] != 0x20 {
            Some(
                DecodeError::ValidationFailed {
                    field: Field::FptHeaderLength,
                    expected: 0x20,
                    actual: s[10] as u32,
                },
            )
        } else {
            None
        }
    }

    fn size() -> (r: usize) {
        32
    }

    fn from_bytes(x: &[u8]) -> (r: Result<Self, DecodeError>) {
        if x.len() < 32 {
            return Err(DecodeError::TruncatedInput);
        }
        let marker = read_u32(x, 0);
        if marker != MARKER_FPT {
            return Err(
                DecodeError::ValidationFailed {
                    field: Field::FptMarker,
                    expected: MARKER_FPT,
                    actual: marker,
                },
            );
        }
        let header_length = read_u8(x, 10);
        if header_length != 0x20 {
            return Err(
                DecodeError::ValidationFailed {
                    field: Field::FptHeaderLength,
                    expected: 0x20,
                    actual: header_length as u32,
                },
            );
        }
        Ok(
            FptHeader {
                marker: read_array(x, 0),
                num_fpt_entries: read_u32(x, 4),
                header_version: read_u8(x, 8),
                entry_version: read_u8(x, 9),
                header_length,
                header_checksum: read_u8(x, 11),
                ticks_to_add: read_u16(x, 12),
                tokens_to_add: read_u16(x, 14),
                reserved: read_u32(x, 16),
                flash_layout: read_u32(x, 20),
                fitc_major_ver: read_u16(x, 24),
                fitc_minor_ver: read_u16(x, 26),
                fitc_hotfix_ver: read_u16(x, 28),
                fitc_build_ver: read_u16(x, 30),
            },
        )
    }
}

/// An entry in the flash partition table.
#[derive(Clone, Copy, Debug)]
pub struct FptEntry {
    pub name: [u8; 4],
    pub reserved: u32,
    pub offset: u32,
    pub length: u32,
    pub reserved1: u32,
    pub reserved2: u32,
    pub reserved3: u32,
    pub attrs: FptEntryAttributes,
}

impl FromBytes for FptEntry {
    open spec fn layout_size() -> nat {
        32
    }

    open spec fn decoded_from(self, s: Seq<u8>) -> bool {
        &&& self.name@ == s.subrange(0, 4)
        &&& self.reserved == le32(s, 4)
        &&& self.offset == le32(s, 8)
        &&& self.length == le32(s, 12)
        &&& self.reserved1 == le32(s, 16)
        &&& self.reserved2 == le32(s, 20)
        &&& self.reserved3 == le32(s, 24)
        &&& self.attrs.0 == le32(s, 28)
    }

    open spec fn rejection(s: Seq<u8>) -> Option<DecodeError> {
        None
    }

    fn size() -> (r: usize) {
        32
    }

    fn from_bytes(x: &[u8]) -> (r: Result<Self, DecodeError>) {
        if x.len() < 32 {
            return Err(DecodeError::TruncatedInput);
        }
        Ok(
            FptEntry {
                name: read_array(x, 0),
                reserved: read_u32(x, 4),
                offset: read_u32(x, 8),
                length: read_u32(x, 12),
                reserved1: read_u32(x, 16),
                reserved2: read_u32(x, 20),
                reserved3: read_u32(x, 24),
                attrs: FptEntryAttributes(read_u32(x, 28)),
            },
        )
    }
}

/// The kinds of partition a table entry can describe.
#[derive(Clone, Copy, Debug, PartialEq, Eq, Structural)]
pub enum PartitionType {
    Code,
    Data,
    /// A type value this library does not know, as found in the entry.
    Other(u32),
}

impl PartitionType {
    /// The partition type that the six type bits `t` stand for.
    pub open spec fn spec_from_bits(t: u32) -> PartitionType {
        if t == 0 {
            PartitionType::Code
        } else if t == 1 {
            PartitionType::Data
        } else {
            PartitionType::Other(t)
        }
    }

    pub fn from_bits(t: u32) -> (r: PartitionType)
        ensures
            r == Self::spec_from_bits(t),
    {
        if t == 0 {
            PartitionType::Code
        } else if t == 1 {
            PartitionType::Data
        } else {
            PartitionType::Other(t)
        }
    }
}

impl From<u32> for PartitionType {
    fn from(t: u32) -> (r: PartitionType) {
        PartitionType::from_bits(t)
    }
}

impl vstd::std_specs::convert::FromSpecImpl<u32> for PartitionType {
    open spec fn obeys_from_spec() -> bool {
        true
    }

    open spec fn from_spec(t: u32) -> PartitionType {
        PartitionType::spec_from_bits(t)
    }
}

/// Attribute bits of a table entry.
#[derive(Clone, Copy, Debug)]
pub struct FptEntryAttributes(pub u32);

impl FptEntryAttributes {
    pub open spec fn spec_kind(self) -> PartitionType {
        PartitionType::spec_from_bits(self.0 & 0x3f)
    }

    pub open spec fn spec_entry_valid(self) -> bool {
        (self.0 & 0xff00_0000) != 0xff00_0000
    }

    /// The type of this partition, from bits 0 to 5.
    pub fn kind(&self) -> (r: PartitionType)
        ensures
            r == self.spec_kind(),
    {
        PartitionType::from_bits(self.0 & 0x3f)
    }

    /// Whether this partition is valid: it is not when the top byte is `0xff`.
    pub fn entry_valid(&self) -> (r: bool)
        ensures
            r == self.spec_entry_valid(),
            r == (self.0 >> 24u32 != 0xff),
    {
        let x = self.0;
        assert((x & 0xff00_0000 == 0xff00_0000) == (x >> 24u32 == 0xff)) by (bit_vector);
        (x & 0xff00_0000) != 0xff00_0000
    }
}

/// Two attribute words that agree in bits 0 to 5 give the same kind,
/// whatever their other bits.
pub proof fn lemma_kind_from_low_bits(a: FptEntryAttributes, b: FptEntryAttributes)
    requires
        a.0 & 0x3f == b.0 & 0x3f,
    ensures
        a.spec_kind() == b.spec_kind(),
{
}

/// Validity depends on the top byte alone: any two words with the same top
/// byte agree, and the word is invalid exactly when that byte is `0xff`.
pub proof fn lemma_valid_from_top_byte(a: FptEntryAttributes, b: FptEntryAttributes)
    requires
        a.0 >> 24u32 == b.0 >> 24u32,
    ensures
        a.spec_entry_valid() == b.spec_entry_valid(),
        !a.spec_entry_valid() <==> a.0 >> 24u32 == 0xff,
{
    let x = a.0;
    let y = b.0;
    assert((x & 0xff00_0000 == 0xff00_0000) == (x >> 24u32 == 0xff)) by (bit_vector);
    assert((y & 0xff00_0000 == 0xff00_0000) == (y >> 24u32 == 0xff)) by (bit_vector);
}

} // verus!
