//! The code partition directory: the file table of a code partition.

use vstd::prelude::*;
use vstd::slice::{slice_subrange, slice_to_vec};
use crate::bytes::{FromBytes, le32, read_u8, read_u32, read_array, read_entries, entries_decoded};
use crate::error::{DecodeError, Field};

verus! {

/// `"$CPD"` read as a little-endian word.
pub const MARKER_CPD: u32 = 0x4450_4324;

/// `s` without its trailing NUL bytes.
pub open spec fn trim_nul(s: Seq<u8>) -> Seq<u8>
    decreases s.len(),
{
    if s.len() > 0 && s.last() == 0 {
        trim_nul(s.drop_last())
    } else {
        s
    }
}

/// `s` ends with `suffix`.
pub open spec fn has_suffix(s: Seq<u8>, suffix: Seq<u8>) -> bool {
    s.len() >= suffix.len() && s.subrange(s.len() - suffix.len(), s.len() as int) == suffix
}

/// The suffix of metadata file names, `".met"`.
pub open spec fn met_suffix() -> Seq<u8> {
    seq![0x2eu8, 0x6du8, 0x65u8, 0x74u8]
}

/// The suffix of manifest file names, `".man"`.
pub open spec fn man_suffix() -> Seq<u8> {
    seq![0x2eu8, 0x6du8, 0x61u8, 0x6eu8]
}

pub fn ends_with(s: &[u8], suffix: &[u8]) -> (r: bool)
    ensures
        r == has_suffix(s@, suffix@),
{
    let n = s.len();
    let m = suffix.len();
    if n < m {
        return false;
    }
    let mut k: usize = 0;
    while k < m
        invariant
            k <= m,
            m <= n,
            n == s@.len(),
            m == suffix@.len(),
            forall|j: int| 0 <= j < k ==> s@[n - m + j] == suffix@[j],
        decreases m - k,
    {
        if s[n - m + k] != suffix[k] {
            assert(s@.subrange(n - m, n as int)[k as int] != suffix@[k as int]);
            return false;
        }
        k = k + 1;
    }
    assert(s@.subrange(n - m, n as int) =~= suffix@);
    true
}

pub fn bytes_eq(a: &[u8], b: &[u8]) -> (r: bool)
    ensures
        r == (a@ == b@),
{
    if a.len() != b.len() {
        return false;
    }
    let mut k: usize = 0;
    while k < a.len()
        invariant
            k <= a@.len(),
            a@.len() == b@.len(),
            forall|j: int| 0 <= j < k ==> a@[j] == b@[j],
        decreases a@.len() - k,
    {
        if a[k] != b[k] {
            return false;
        }
        k = k + 1;
    }
    assert(a@ =~= b@);
    true
}

/// Directory of files contained in a code partition.
#[derive(Debug)]
pub struct CodePartitionDirectory {
    pub header: CpdHeader,
    pub entries: Vec<CpdEntry>,
}

impl CodePartitionDirectory {
    /// The directory decoded from `s` is `self`.
    pub open spec fn decoded_from(self, s: Seq<u8>) -> bool {
        &&& s.len() >= 16
        &&& CpdHeader::rejection(s) is None
        &&& self.header.decoded_from(s)
        &&& 16 + self.header.entries * 24 <= s.len()
        &&& entries_decoded(
            self.entries@,
            s.subrange(16, s.len() as int),
            self.header.entries as nat,
        )
    }

    /// Why no directory can be decoded from `s`, if none can.
    pub open spec fn spec_error(s: Seq<u8>) -> Option<DecodeError> {
        if s.len() < 16 {
            Some(DecodeError::TruncatedInput)
        } else if CpdHeader::rejection(s) is Some {
            CpdHeader::rejection(s)
        } else if 16 + le32(s, 4) * 24 > s.len() {
            Some(DecodeError::TruncatedInput)
        } else {
            None
        }
    }

    /// Decodes the header, then the entries that follow it.
    pub fn new(data: &[u8]) -> (r: Result<CodePartitionDirectory, DecodeError>)
        ensures
            r is Ok <==> Self::spec_error(data@) is None,
            r matches Err(e) ==> Self::spec_error(data@) == Some(e),
            r matches Ok(d) ==> d.decoded_from(data@),
    {
        let header = CpdHeader::from_bytes(data)?;
        let rest = slice_subrange(data, 16, data.len());
        let entries = read_entries::<CpdEntry>(rest, header.entries as usize)?;
        Ok(CodePartitionDirectory { header, entries })
    }
}

/// Header of a code partition directory.
#[derive(Clone, Copy, Debug)]
pub struct CpdHeader {
    pub marker: [u8; 4],
    pub entries: u32,
    pub header_version: u8,
    pub entry_version: u8,
    pub header_length: u8,
    pub checksum: u8,
    pub partition_name: [u8; 4],
}

impl FromBytes for CpdHeader {
    open spec fn layout_size() -> nat {
        16
    }

    open spec fn decoded_from(self, s: Seq<u8>) -> bool {
        &&& self.marker@ == s.subrange(0, 4)
        &&& self.entries == le32(s, 4)
        &&& self.header_version == s[8]
        &&& self.entry_version == s[9]
        &&& self.header_length == s[10]
        &&& self.checksum == s[11]
        &&& self.partition_name@ == s.subrange(12, 16)
    }

    open spec fn rejection(s: Seq<u8>) -> Option<DecodeError> {
        if le32(s, 0) != MARKER_CPD {
            Some(
                DecodeError::ValidationFailed {
                    field: Field::CpdMarker,
                    expected: MARKER_CPD,
                    actual: le32(s, 0),
                },
            )
        } else if s[10] != 0x10 {
            Some(
                DecodeError::ValidationFailed {
                    field: Field::CpdHeaderLength,
                    expected: 0x10,
                    actual: s[10] as u32,
                },
            )
        } else {
            None
        }
    }

    fn size() -> (r: usize) {
        16
    }

    fn from_bytes(x: &[u8]) -> (r: Result<Self, DecodeError>) {
        if x.len() < 16 {
            return Err(DecodeError::TruncatedInput);
        }
        let marker = read_u32(x, 0);
        if marker != MARKER_CPD {
            return Err(
                DecodeError::ValidationFailed {
                    field: Field::CpdMarker,
                    expected: MARKER_CPD,
                    actual: marker,
                },
            );
        }
        let header_length = read_u8(x, 10);
        if header_length != 0x10 {
            return Err(
                DecodeError::ValidationFailed {
                    field: Field::CpdHeaderLength,
                    expected: 0x10,
                    actual: header_length as u32,
                },
            );
        }
        Ok(
            CpdHeader {
                marker: read_array(x, 0),
                entries: read_u32(x, 4),
                header_version: read_u8(x, 8),
                entry_version: read_u8(x, 9),
                header_length,
                checksum: read_u8(x, 11),
                partition_name: read_array(x, 12),
            },
        )
    }
}

/// An entry of a code partition directory.
#[derive(Clone, Copy, Debug)]
pub struct CpdEntry {
    pub name: [u8; 12],
    pub attrs: CpdEntryBits,
    pub length: u32,
    pub reserved: u32,
}

impl FromBytes for CpdEntry {
    open spec fn layout_size() -> nat {
        24
    }

    open spec fn decoded_from(self, s: Seq<u8>) -> bool {
        &&& self.name@ == s.subrange(0, 12)
        &&& self.attrs.0 == le32(s, 12)
        &&& self.length == le32(s, 16)
        &&& self.reserved == le32(s, 20)
    }

    open spec fn rejection(s: Seq<u8>) -> Option<DecodeError> {
        None
    }

    fn size() -> (r: usize) {
        24
    }

    fn from_bytes(x: &[u8]) -> (r: Result<Self, DecodeError>) {
        if x.len() < 24 {
            return Err(DecodeError::TruncatedInput);
        }
        Ok(
            CpdEntry {
                name: read_array(x, 0),
                attrs: CpdEntryBits(read_u32(x, 12)),
                length: read_u32(x, 16),
                reserved: read_u32(x, 20),
            },
        )
    }
}

impl CpdEntry {
    pub open spec fn spec_filename(self) -> Seq<u8> {
        trim_nul(self.name@)
    }

    /// The file name, without its NUL padding.
    pub fn filename(&self) -> (r: Vec<u8>)
        ensures
            r@ == self.spec_filename(),
    {
        let mut end: usize = 12;
        assert(self.name@.subrange(0, 12) =~= self.name@);
        while end > 0 && self.name[end - 1] == 0
            invariant
                end <= 12,
                self.name@.len() == 12,
                trim_nul(self.name@.subrange(0, end as int)) == trim_nul(self.name@),
            decreases end,
        {
            let ghost s = self.name@.subrange(0, end as int);
            assert(s.drop_last() =~= self.name@.subrange(0, end - 1));
            end = end - 1;
        }
        let whole = self.name.as_slice();
        let r = slice_to_vec(slice_subrange(whole, 0, end));
        assert(self.name@.subrange(0, 12) =~= self.name@);
        r
    }

    /// The length of the file in bytes.
    pub fn len(&self) -> (r: usize)
        ensures
            r == self.length,
    {
        self.length as usize
    }

    /// Where the file starts, relative to the partition.
    pub fn offset(&self) -> (r: usize)
        ensures
            r == self.attrs.spec_address(),
    {
        self.attrs.address() as usize
    }
}

/// Attribute bits of a directory entry.
#[derive(Clone, Copy, Debug)]
pub struct CpdEntryBits(pub u32);

impl CpdEntryBits {
    pub open spec fn spec_address(self) -> u32 {
        self.0 & 0x01ff_ffff
    }

    pub open spec fn spec_compressed(self) -> bool {
        self.0 & 0x0200_0000 != 0
    }

    /// The offset of the file within its partition: bits 0 to 24.
    pub fn address(&self) -> (r: u32)
        ensures
            r == self.spec_address(),
    {
        self.0 & 0x01ff_ffff
    }

    /// Whether the file is compressed: bit 25.
    pub fn compress_flag(&self) -> (r: bool)
        ensures
            r == self.spec_compressed(),
    {
        self.0 & 0x0200_0000 != 0
    }

    /// The reserved top six bits.
    pub fn reserved(&self) -> (r: u32)
        ensures
            r == (self.0 & 0xfc00_0000) >> 26u32,
    {
        (self.0 & 0xfc00_0000) >> 26u32
    }
}

} // verus!
