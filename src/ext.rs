//! Manifest extensions: self-length-prefixed records, each a tagged variant
//! with a fixed part and, for most ids, a trailing array of fixed entries.

use vstd::prelude::*;
use vstd::slice::slice_subrange;
use crate::bytes::{FromBytes, le16, le32, le64, read_u8, read_u16, read_u32, read_u64, read_array, read_entries, entries_decoded};
use crate::error::{DecodeError, Field};

verus! {

/// The highest extension id this library knows.
pub const MAX_EXTENSION_ID: u32 = 0xd;

/// `data` is the fixed part at the front of `s`, and `entries` are all the
/// whole entries that fit in the bytes after it.
pub open spec fn with_entries<H: FromBytes, E: FromBytes>(data: H, entries: Seq<E>, s: Seq<u8>) -> bool {
    &&& s.len() >= H::layout_size()
    &&& data.decoded_from(s)
    &&& entries_decoded(
        entries,
        s.subrange(H::layout_size() as int, s.len() as int),
        (s.len() - H::layout_size()) as nat / E::layout_size(),
    )
}

/// `entries` are all the whole entries that fit in `s`.
pub open spec fn only_entries<E: FromBytes>(entries: Seq<E>, s: Seq<u8>) -> bool {
    entries_decoded(entries, s, s.len() / E::layout_size())
}

/// Decodes as many whole entries as `x` holds; trailing bytes are padding.
pub fn parse_entries<E: FromBytes>(x: &[u8]) -> (r: Vec<E>)
    requires
        E::layout_size() > 0,
        forall|s: Seq<u8>| #[trigger] E::rejection(s) is None,
    ensures
        only_entries(r@, x@),
{
    let sz = E::size();
    let n = x.len();
    let count = n / sz;
    assert(count * sz <= n) by (nonlinear_arith)
        requires
            sz > 0,
            count == n / sz,
    ;
    match read_entries::<E>(x, count) {
        Ok(v) => v,
        Err(_) => Vec::new(),
    }
}

/// Decodes a fixed part, then as many whole entries as the rest holds.
pub fn parse_with_entries<H: FromBytes, E: FromBytes>(x: &[u8]) -> (r: Result<(H, Vec<E>), DecodeError>)
    requires
        E::layout_size() > 0,
        forall|s: Seq<u8>| #[trigger] H::rejection(s) is None,
        forall|s: Seq<u8>| #[trigger] E::rejection(s) is None,
    ensures
        r is Ok <==> x@.len() >= H::layout_size(),
        r is Err ==> r == Err::<(H, Vec<E>), DecodeError>(DecodeError::TruncatedInput),
        r matches Ok((h, v)) ==> with_entries(h, v@, x@),
{
    let data = H::from_bytes(x);
    match data {
        Ok(h) => {
            assert(H::rejection(x@) is None);
            let hs = H::size();
            let rest = slice_subrange(x, hs, x.len());
            let entries = parse_entries::<E>(rest);
            Ok((h, entries))
        },
        Err(_) => {
            assert(H::rejection(x@) is None);
            Err(DecodeError::TruncatedInput)
        },
    }
}

/// The payload of an extension, one variant per known id.
#[derive(Debug)]
pub enum ExtensionData {
    /// Extension id 0x0.
    SystemInfo { data: SystemInfoExt, entries: Vec<IndependentPartitionEntry> },
    /// Extension id 0x1.
    InitScript { data: InitScriptExt, entries: Vec<InitScriptEntry> },
    /// Extension id 0x2.
    FeaturePermissions { data: FeaturePermissionsExt, entries: Vec<FeaturePermissionsEntry> },
    /// Extension id 0x3.
    PartitionInfo { data: ManifestPartitionInfoExt, entries: Vec<ManifestModuleInfoExt> },
    /// Extension id 0x4.
    SharedLibrary { data: SharedLibExt },
    /// Extension id 0x5.
    ProcessAttrs { data: ManProcessExt, entries: Vec<ProcessGroupId> },
    /// Extension id 0x6.
    ThreadAttrs { entries: Vec<Thread> },
    /// Extension id 0x7.
    DeviceIds { entries: Vec<Device> },
    /// Extension id 0x8.
    MmioRanges { entries: Vec<MmioRange> },
    /// Extension id 0x9.
    SpecialFiles { data: SpecialFileProducerExt, entries: Vec<SpecialFileDef> },
    /// Extension id 0xa.
    ModuleAttrs { data: ModAttrExt },
    /// Extension id 0xb.
    LockedRanges { entries: Vec<LockedRange> },
    /// Extension id 0xc.
    ClientSystemInfo { data: ClientSystemInfoExt },
    /// Extension id 0xd.
    UserInfo { entries: Vec<UserInfoEntry> },
}

impl ExtensionData {
    /// The size of the fixed part that a payload of extension `id` starts with.
    pub open spec fn header_size(id: u32) -> nat {
        if id == 0 {
            64
        } else if id == 1 {
            8
        } else if id == 2 {
            4
        } else if id == 3 {
            80
        } else if id == 4 {
            20
        } else if id == 5 {
            64
        } else if id == 9 {
            4
        } else if id == 10 {
            48
        } else if id == 12 {
            40
        } else {
            0
        }
    }

    /// Why the payload `s` of an extension with id `id` cannot be decoded, if it cannot.
    pub open spec fn spec_error(id: u32, s: Seq<u8>) -> Option<DecodeError> {
        if id > MAX_EXTENSION_ID {
            Some(DecodeError::UnknownExtension(id))
        } else if s.len() < Self::header_size(id) {
            Some(DecodeError::TruncatedInput)
        } else {
            None
        }
    }

    /// `self` is the payload `s` of an extension with id `id`.
    pub open spec fn decoded_from(self, id: u32, s: Seq<u8>) -> bool {
        match self {
            ExtensionData::SystemInfo { data, entries } => id == 0 && with_entries(data, entries@, s),
            ExtensionData::InitScript { data, entries } => id == 1 && with_entries(data, entries@, s),
            ExtensionData::FeaturePermissions { data, entries } => id == 2 && with_entries(
                data,
                entries@,
                s,
            ),
            ExtensionData::PartitionInfo { data, entries } => id == 3 && with_entries(
                data,
                entries@,
                s,
            ),
            ExtensionData::SharedLibrary { data } => id == 4 && s.len() >= 20 && data.decoded_from(s),
            ExtensionData::ProcessAttrs { data, entries } => id == 5 && with_entries(data, entries@, s),
            ExtensionData::ThreadAttrs { entries } => id == 6 && only_entries(entries@, s),
            ExtensionData::DeviceIds { entries } => id == 7 && only_entries(entries@, s),
            ExtensionData::MmioRanges { entries } => id == 8 && only_entries(entries@, s),
            ExtensionData::SpecialFiles { data, entries } => id == 9 && with_entries(data, entries@, s),
            ExtensionData::ModuleAttrs { data } => id == 10 && s.len() >= 48 && data.decoded_from(s),
            ExtensionData::LockedRanges { entries } => id == 11 && only_entries(entries@, s),
            ExtensionData::ClientSystemInfo { data } => id == 12 && s.len() >= 40 && data.decoded_from(
                s,
            ),
            ExtensionData::UserInfo { entries } => id == 13 && only_entries(entries@, s),
        }
    }

    /// Decodes the payload `x` of an extension according to the id in `hdr`.
    pub fn new(hdr: &ExtensionHeader, x: &[u8]) -> (r: Result<ExtensionData, DecodeError>)
        ensures
            r is Ok <==> Self::spec_error(hdr.id, x@) is None,
            r matches Err(e) ==> Self::spec_error(hdr.id, x@) == Some(e),
            r matches Ok(d) ==> d.decoded_from(hdr.id, x@),
    {
        let id = hdr.id;
        if id == 0 {
            let (data, entries) = parse_with_entries::<SystemInfoExt, IndependentPartitionEntry>(x)?;
            Ok(ExtensionData::SystemInfo { data, entries })
        } else if id == 1 {
            let (data, entries) = parse_with_entries::<InitScriptExt, InitScriptEntry>(x)?;
            Ok(ExtensionData::InitScript { data, entries })
        } else if id == 2 {
            let (data, entries) = parse_with_entries::<
                FeaturePermissionsExt,
                FeaturePermissionsEntry,
            >(x)?;
            Ok(ExtensionData::FeaturePermissions { data, entries })
        } else if id == 3 {
            let (data, entries) = parse_with_entries::<
                ManifestPartitionInfoExt,
                ManifestModuleInfoExt,
            >(x)?;
            Ok(ExtensionData::PartitionInfo { data, entries })
        } else if id == 4 {
            let data = SharedLibExt::from_bytes(x)?;
            Ok(ExtensionData::SharedLibrary { data })
        } else if id == 5 {
            let (data, entries) = parse_with_entries::<ManProcessExt, ProcessGroupId>(x)?;
            Ok(ExtensionData::ProcessAttrs { data, entries })
        } else if id == 6 {
            Ok(ExtensionData::ThreadAttrs { entries: parse_entries::<Thread>(x) })
        } else if id == 7 {
            Ok(ExtensionData::DeviceIds { entries: parse_entries::<Device>(x) })
        } else if id == 8 {
            Ok(ExtensionData::MmioRanges { entries: parse_entries::<MmioRange>(x) })
        } else if id == 9 {
            let (data, entries) = parse_with_entries::<SpecialFileProducerExt, SpecialFileDef>(x)?;
            Ok(ExtensionData::SpecialFiles { data, entries })
        } else if id == 10 {
            let data = ModAttrExt::from_bytes(x)?;
            Ok(ExtensionData::ModuleAttrs { data })
        } else if id == 11 {
            Ok(ExtensionData::LockedRanges { entries: parse_entries::<LockedRange>(x) })
        } else if id == 12 {
            let data = ClientSystemInfoExt::from_bytes(x)?;
            Ok(ExtensionData::ClientSystemInfo { data })
        } else if id == 13 {
            Ok(ExtensionData::UserInfo { entries: parse_entries::<UserInfoEntry>(x) })
        } else {
            Err(DecodeError::UnknownExtension(id))
        }
    }
}

/// One extension record: its header and its decoded payload.
#[derive(Debug)]
pub struct ManifestExtension {
    pub hdr: ExtensionHeader,
    pub data: ExtensionData,
}

impl ManifestExtension {
    /// Why no record can be decoded at offset `c` of the buffer `s`, if none
    /// can. A record that runs past the buffer is reported with its offset
    /// and declared length, and the buffer's length.
    pub open spec fn spec_error_at(s: Seq<u8>, c: int) -> Option<DecodeError> {
        if s.len() - c < 8 {
            Some(DecodeError::TruncatedInput)
        } else if le32(s, c + 4) < 8 {
            Some(
                DecodeError::ValidationFailed {
                    field: Field::ExtensionLength,
                    expected: 8,
                    actual: le32(s, c + 4),
                },
            )
        } else if c + le32(s, c + 4) > s.len() {
            Some(
                DecodeError::OutOfBounds {
                    offset: c as usize,
                    length: le32(s, c + 4) as usize,
                    buffer_len: s.len() as usize,
                },
            )
        } else {
            ExtensionData::spec_error(le32(s, c), s.subrange(c + 8, c + le32(s, c + 4)))
        }
    }

    /// Why no record can be decoded from the front of `s`, if none can.
    pub open spec fn spec_error(s: Seq<u8>) -> Option<DecodeError> {
        Self::spec_error_at(s, 0)
    }

    /// `self` is the record at the front of `s`; its payload is the
    /// `length - 8` bytes after the header.
    pub open spec fn decoded_from(self, s: Seq<u8>) -> bool {
        &&& s.len() >= 8
        &&& self.hdr.decoded_from(s)
        &&& 8 <= self.hdr.length <= s.len()
        &&& self.data.decoded_from(self.hdr.id, s.subrange(8, self.hdr.length as int))
    }

    /// Decodes the record at offset `c` of `x`.
    pub fn read_at(x: &[u8], c: usize) -> (r: Result<ManifestExtension, DecodeError>)
        requires
            c <= x@.len(),
        ensures
            r is Ok <==> Self::spec_error_at(x@, c as int) is None,
            r matches Err(e) ==> Self::spec_error_at(x@, c as int) == Some(e),
            r matches Ok(m) ==> m.decoded_from(x@.subrange(c as int, x@.len() as int)),
    {
        let rest = slice_subrange(x, c, x.len());
        if rest.len() < 8 {
            return Err(DecodeError::TruncatedInput);
        }
        let hdr = ExtensionHeader::from_bytes(rest)?;
        let length = hdr.length;
        if length < 8 {
            return Err(
                DecodeError::ValidationFailed {
                    field: Field::ExtensionLength,
                    expected: 8,
                    actual: length,
                },
            );
        }
        if length as usize > rest.len() {
            return Err(
                DecodeError::OutOfBounds { offset: c, length: length as usize, buffer_len: x.len() },
            );
        }
        let payload = slice_subrange(rest, 8, length as usize);
        assert(payload@ =~= x@.subrange(c + 8, c + length));
        let data = ExtensionData::new(&hdr, payload)?;
        Ok(ManifestExtension { hdr, data })
    }

    /// Decodes the record at the front of `x`.
    pub fn new(x: &[u8]) -> (r: Result<ManifestExtension, DecodeError>)
        ensures
            r is Ok <==> Self::spec_error(x@) is None,
            r matches Err(e) ==> Self::spec_error(x@) == Some(e),
            r matches Ok(m) ==> m.decoded_from(x@),
    {
        assert(x@.subrange(0, x@.len() as int) =~= x@);
        Self::read_at(x, 0)
    }
}

/// Why the extension stream that starts at offset `c` of `s` and runs to
/// its end cannot be decoded, if it cannot: the error of the first record
/// that fails.
pub open spec fn stream_error_at(s: Seq<u8>, c: int) -> Option<DecodeError>
    decreases s.len() - c,
{
    if c >= s.len() {
        None
    } else {
        match ManifestExtension::spec_error_at(s, c) {
            Some(e) => Some(e),
            None => if 8 <= le32(s, c + 4) && c + le32(s, c + 4) <= s.len() {
                stream_error_at(s, c + le32(s, c + 4))
            } else {
                None
            },
        }
    }
}

/// Why the extension stream `s` cannot be decoded, if it cannot.
pub open spec fn stream_error(s: Seq<u8>) -> Option<DecodeError> {
    stream_error_at(s, 0)
}

/// `exts` are the records of the stream `s`, in order: each starts where
/// the previous one's declared length ends, and the last ends with `s`.
pub open spec fn stream_decoded(exts: Seq<ManifestExtension>, s: Seq<u8>) -> bool
    decreases exts.len(),
{
    if exts.len() == 0 {
        s.len() == 0
    } else {
        &&& s.len() > 0
        &&& exts[0].decoded_from(s)
        &&& stream_decoded(exts.drop_first(), s.subrange(exts[0].hdr.length as int, s.len() as int))
    }
}

/// The sum of the declared lengths of `exts`.
pub open spec fn sum_lengths(exts: Seq<ManifestExtension>) -> nat
    decreases exts.len(),
{
    if exts.len() == 0 {
        0
    } else {
        exts[0].hdr.length as nat + sum_lengths(exts.drop_first())
    }
}

/// Decodes the extension stream that starts at offset `c` of `x` and runs
/// to its end, advancing by each record's declared length.
pub fn parse_extensions_at(x: &[u8], c: usize) -> (r: Result<Vec<ManifestExtension>, DecodeError>)
    requires
        c <= x@.len(),
    ensures
        r is Ok <==> stream_error_at(x@, c as int) is None,
        r matches Err(e) ==> stream_error_at(x@, c as int) == Some(e),
        r matches Ok(v) ==> stream_decoded(v@, x@.subrange(c as int, x@.len() as int)),
    decreases x@.len() - c,
{
    if c == x.len() {
        let v: Vec<ManifestExtension> = Vec::new();
        assert(x@.subrange(c as int, x@.len() as int).len() == 0);
        return Ok(v);
    }
    let first = ManifestExtension::read_at(x, c);
    let first = match first {
        Ok(m) => m,
        Err(e) => {
            return Err(e);
        },
    };
    let len = first.hdr.length as usize;
    let mut tail = parse_extensions_at(x, c + len)?;
    let ghost old_tail = tail@;
    tail.insert(0, first);
    assert(tail@.drop_first() =~= old_tail);
    let ghost s = x@.subrange(c as int, x@.len() as int);
    assert(s.subrange(len as int, s.len() as int) =~= x@.subrange(c + len, x@.len() as int));
    Ok(tail)
}

/// Decodes a whole extension stream.
pub fn parse_extensions(x: &[u8]) -> (r: Result<Vec<ManifestExtension>, DecodeError>)
    ensures
        r is Ok <==> stream_error(x@) is None,
        r matches Err(e) ==> stream_error(x@) == Some(e),
        r matches Ok(v) ==> stream_decoded(v@, x@),
{
    assert(x@.subrange(0, x@.len() as int) =~= x@);
    parse_extensions_at(x, 0)
}

/// The declared lengths of the records of a stream add up to the stream's length.
pub proof fn lemma_stream_lengths(exts: Seq<ManifestExtension>, s: Seq<u8>)
    requires
        stream_decoded(exts, s),
    ensures
        sum_lengths(exts) == s.len(),
    decreases exts.len(),
{
    if exts.len() > 0 {
        lemma_stream_lengths(
            exts.drop_first(),
            s.subrange(exts[0].hdr.length as int, s.len() as int),
        );
    }
}

/// The module attributes of an extension list: those of its last
/// `ModuleAttrs` record.
pub open spec fn spec_module_attrs(exts: Seq<ManifestExtension>) -> Option<ModAttrExt>
    decreases exts.len(),
{
    if exts.len() == 0 {
        None
    } else {
        match exts.last().data {
            ExtensionData::ModuleAttrs { data } => Some(data),
            _ => spec_module_attrs(exts.drop_last()),
        }
    }
}

pub fn module_attrs(exts: &Vec<ManifestExtension>) -> (r: Option<ModAttrExt>)
    ensures
        r == spec_module_attrs(exts@),
{
    let mut i: usize = exts.len();
    assert(exts@.subrange(0, i as int) =~= exts@);
    while i > 0
        invariant
            i <= exts@.len(),
            spec_module_attrs(exts@.subrange(0, i as int)) == spec_module_attrs(exts@),
        decreases i,
    {
        let ghost s = exts@.subrange(0, i as int);
        assert(s.last() == exts@[i - 1]);
        if let ExtensionData::ModuleAttrs { data } = &exts[i - 1].data {
            return Some(*data);
        }
        assert(s.drop_last() =~= exts@.subrange(0, i - 1));
        i = i - 1;
    }
    None
}

/// How a module's data is stored.
#[derive(Clone, Copy, Debug, PartialEq, Eq, Structural)]
pub enum CompressionType {
    Stored,
    Huff,
    Lzma,
    /// A compression tag this library does not know, as found in the record.
    Unknown(u8),
}

impl CompressionType {
    pub open spec fn spec_from_tag(t: u8) -> CompressionType {
        if t == 0 {
            CompressionType::Stored
        } else if t == 1 {
            CompressionType::Huff
        } else if t == 2 {
            CompressionType::Lzma
        } else {
            CompressionType::Unknown(t)
        }
    }

    pub fn from_tag(t: u8) -> (r: CompressionType)
        ensures
            r == Self::spec_from_tag(t),
    {
        if t == 0 {
            CompressionType::Stored
        } else if t == 1 {
            CompressionType::Huff
        } else if t == 2 {
            CompressionType::Lzma
        } else {
            CompressionType::Unknown(t)
        }
    }
}

impl From<u8> for CompressionType {
    fn from(t: u8) -> (r: CompressionType) {
        CompressionType::from_tag(t)
    }
}

impl vstd::std_specs::convert::FromSpecImpl<u8> for CompressionType {
    open spec fn obeys_from_spec() -> bool {
        true
    }

    open spec fn from_spec(t: u8) -> CompressionType {
        CompressionType::spec_from_tag(t)
    }
}

impl ModAttrExt {
    pub fn compression_type(&self) -> (r: CompressionType)
        ensures
            r == CompressionType::spec_from_tag(self.compression_type),
    {
        CompressionType::from_tag(self.compression_type)
    }

    pub fn compressed_size(&self) -> (r: usize)
        ensures
            r == self.compressed_size,
    {
        self.compressed_size as usize
    }

    pub fn uncompressed_size(&self) -> (r: usize)
        ensures
            r == self.uncompressed_size,
    {
        self.uncompressed_size as usize
    }
}

/// Flag bits of the process attributes extension.
#[derive(Clone, Copy, Debug)]
pub struct ManProcessExtFlags(pub u32);

/// Header of an extension record: its id and its whole length in bytes.
#[derive(Clone, Copy, Debug)]
pub struct ExtensionHeader {
    pub id: u32,
    pub length: u32,
}

impl FromBytes for ExtensionHeader {
    open spec fn layout_size() -> nat {
        8
    }

    open spec fn decoded_from(self, s: Seq<u8>) -> bool {
        &&& self.id == le32(s, 0)
        &&& self.length == le32(s, 4)
    }

    open spec fn rejection(s: Seq<u8>) -> Option<DecodeError> {
        None
    }

    fn size() -> (r: usize) {
        8
    }

    fn from_bytes(x: &[u8]) -> (r: Result<Self, DecodeError>) {
        if x.len() < 8 {
            return Err(DecodeError::TruncatedInput);
        }
        Ok(
            ExtensionHeader {
                id: read_u32(x, 0),
                length: read_u32(x, 4),
            },
        )
    }
}

/// Fixed part of the system information extension.
#[derive(Clone, Copy, Debug)]
pub struct SystemInfoExt {
    pub min_uma_size: u32,
    pub chipset_version: u32,
    pub default_sha256_digest: [u8; 32],
    pub pageable_uma_size: u32,
    pub reserved_0: u64,
    pub reserved_1: u32,
}

impl FromBytes for SystemInfoExt {
    open spec fn layout_size() -> nat {
        64
    }

    open spec fn decoded_from(self, s: Seq<u8>) -> bool {
        &&& self.min_uma_size == le32(s, 0)
        &&& self.chipset_version == le32(s, 4)
        &&& self.default_sha256_digest@ == s.subrange(8, 40)
        &&& self.pageable_uma_size == le32(s, 40)
        &&& self.reserved_0 == le64(s, 48)
        &&& self.reserved_1 == le32(s, 56)
    }

    open spec fn rejection(s: Seq<u8>) -> Option<DecodeError> {
        None
    }

    fn size() -> (r: usize) {
        64
    }

    fn from_bytes(x: &[u8]) -> (r: Result<Self, DecodeError>) {
        if x.len() < 64 {
            return Err(DecodeError::TruncatedInput);
        }
        Ok(
            SystemInfoExt {
                min_uma_size: read_u32(x, 0),
                chipset_version: read_u32(x, 4),
                default_sha256_digest: read_array(x, 8),
                pageable_uma_size: read_u32(x, 40),
                reserved_0: read_u64(x, 48),
                reserved_1: read_u32(x, 56),
            },
        )
    }
}

/// Fixed part of the init script extension.
#[derive(Clone, Copy, Debug)]
pub struct InitScriptExt {
    pub reserved: u32,
    pub num_modules: u32,
}

impl FromBytes for InitScriptExt {
    open spec fn layout_size() -> nat {
        8
    }

    open spec fn decoded_from(self, s: Seq<u8>) -> bool {
        &&& self.reserved == le32(s, 0)
        &&& self.num_modules == le32(s, 4)
    }

    open spec fn rejection(s: Seq<u8>) -> Option<DecodeError> {
        None
    }

    fn size() -> (r: usize) {
        8
    }

    fn from_bytes(x: &[u8]) -> (r: Result<Self, DecodeError>) {
        if x.len() < 8 {
            return Err(DecodeError::TruncatedInput);
        }
        Ok(
            InitScriptExt {
                reserved: read_u32(x, 0),
                num_modules: read_u32(x, 4),
            },
        )
    }
}

/// Fixed part of the feature permissions extension.
#[derive(Clone, Copy, Debug)]
pub struct FeaturePermissionsExt {
    pub num_modules: u32,
}

impl FromBytes for FeaturePermissionsExt {
    open spec fn layout_size() -> nat {
        4
    }

    open spec fn decoded_from(self, s: Seq<u8>) -> bool {
        &&& self.num_modules == le32(s, 0)
    }

    open spec fn rejection(s: Seq<u8>) -> Option<DecodeError> {
        None
    }

    fn size() -> (r: usize) {
        4
    }

    fn from_bytes(x: &[u8]) -> (r: Result<Self, DecodeError>) {
        if x.len() < 4 {
            return Err(DecodeError::TruncatedInput);
        }
        Ok(
            FeaturePermissionsExt {
                num_modules: read_u32(x, 0),
            },
        )
    }
}

/// Fixed part of the partition information extension.
#[derive(Clone, Copy, Debug)]
pub struct ManifestPartitionInfoExt {
    pub part_name: u32,
    pub part_len: u32,
    pub part_sha256_digest: [u8; 32],
    pub version_control_number: u32,
    pub part_version: u32,
    pub format_version: u32,
    pub instance_id: u32,
    pub flags: u32,
    pub reserved: [u8; 20],
}

impl FromBytes for ManifestPartitionInfoExt {
    open spec fn layout_size() -> nat {
        80
    }

    open spec fn decoded_from(self, s: Seq<u8>) -> bool {
        &&& self.part_name == le32(s, 0)
        &&& self.part_len == le32(s, 4)
        &&& self.part_sha256_digest@ == s.subrange(8, 40)
        &&& self.version_control_number == le32(s, 40)
        &&& self.part_version == le32(s, 44)
        &&& self.format_version == le32(s, 48)
        &&& self.instance_id == le32(s, 52)
        &&& self.flags == le32(s, 56)
        &&& self.reserved@ == s.subrange(60, 80)
    }

    open spec fn rejection(s: Seq<u8>) -> Option<DecodeError> {
        None
    }

    fn size() -> (r: usize) {
        80
    }

    fn from_bytes(x: &[u8]) -> (r: Result<Self, DecodeError>) {
        if x.len() < 80 {
            return Err(DecodeError::TruncatedInput);
        }
        Ok(
            ManifestPartitionInfoExt {
                part_name: read_u32(x, 0),
                part_len: read_u32(x, 4),
                part_sha256_digest: read_array(x, 8),
                version_control_number: read_u32(x, 40),
                part_version: read_u32(x, 44),
                format_version: read_u32(x, 48),
                instance_id: read_u32(x, 52),
                flags: read_u32(x, 56),
                reserved: read_array(x, 60),
            },
        )
    }
}

/// The shared library extension.
#[derive(Clone, Copy, Debug)]
pub struct SharedLibExt {
    pub context_size: u32,
    pub total_alloc_virtual_space: u32,
    pub code_base_address: u32,
    pub tls_size: u32,
    pub reserved: u32,
}

impl FromBytes for SharedLibExt {
    open spec fn layout_size() -> nat {
        20
    }

    open spec fn decoded_from(self, s: Seq<u8>) -> bool {
        &&& self.context_size == le32(s, 0)
        &&& self.total_alloc_virtual_space == le32(s, 4)
        &&& self.code_base_address == le32(s, 8)
        &&& self.tls_size == le32(s, 12)
        &&& self.reserved == le32(s, 16)
    }

    open spec fn rejection(s: Seq<u8>) -> Option<DecodeError> {
        None
    }

    fn size() -> (r: usize) {
        20
    }

    fn from_bytes(x: &[u8]) -> (r: Result<Self, DecodeError>) {
        if x.len() < 20 {
            return Err(DecodeError::TruncatedInput);
        }
        Ok(
            SharedLibExt {
                context_size: read_u32(x, 0),
                total_alloc_virtual_space: read_u32(x, 4),
                code_base_address: read_u32(x, 8),
                tls_size: read_u32(x, 12),
                reserved: read_u32(x, 16),
            },
        )
    }
}

/// Fixed part of the process attributes extension.
#[derive(Clone, Copy, Debug)]
pub struct ManProcessExt {
    pub flags: ManProcessExtFlags,
    pub main_thread_id: u32,
    pub code_base_address: u32,
    pub uncompressed_code_size: u32,
    pub cm0_heap_size: u32,
    pub bss_size: u32,
    pub default_heap_size: u32,
    pub main_thread_entry: u32,
    pub allowed_syscalls: [u8; 12],
    pub user_id: u16,
    pub reserved_0: u32,
    pub reserved_1: u16,
    pub reserved_2: u64,
}

impl FromBytes for ManProcessExt {
    open spec fn layout_size() -> nat {
        64
    }

    open spec fn decoded_from(self, s: Seq<u8>) -> bool {
        &&& self.flags.0 == le32(s, 0)
        &&& self.main_thread_id == le32(s, 4)
        &&& self.code_base_address == le32(s, 8)
        &&& self.uncompressed_code_size == le32(s, 12)
        &&& self.cm0_heap_size == le32(s, 16)
        &&& self.bss_size == le32(s, 20)
        &&& self.default_heap_size == le32(s, 24)
        &&& self.main_thread_entry == le32(s, 28)
        &&& self.allowed_syscalls@ == s.subrange(32, 44)
        &&& self.user_id == le16(s, 44)
        &&& self.reserved_0 == le32(s, 48)
        &&& self.reserved_1 == le16(s, 52)
        &&& self.reserved_2 == le64(s, 56)
    }

    open spec fn rejection(s: Seq<u8>) -> Option<DecodeError> {
        None
    }

    fn size() -> (r: usize) {
        64
    }

    fn from_bytes(x: &[u8]) -> (r: Result<Self, DecodeError>) {
        if x.len() < 64 {
            return Err(DecodeError::TruncatedInput);
        }
        Ok(
            ManProcessExt {
                flags: ManProcessExtFlags(read_u32(x, 0)),
                main_thread_id: read_u32(x, 4),
                code_base_address: read_u32(x, 8),
                uncompressed_code_size: read_u32(x, 12),
                cm0_heap_size: read_u32(x, 16),
                bss_size: read_u32(x, 20),
                default_heap_size: read_u32(x, 24),
                main_thread_entry: read_u32(x, 28),
                allowed_syscalls: read_array(x, 32),
                user_id: read_u16(x, 44),
                reserved_0: read_u32(x, 48),
                reserved_1: read_u16(x, 52),
                reserved_2: read_u64(x, 56),
            },
        )
    }
}

/// Fixed part of the special files extension.
#[derive(Clone, Copy, Debug)]
pub struct SpecialFileProducerExt {
    pub dev_major_id: u16,
    pub flags: u16,
}

impl FromBytes for SpecialFileProducerExt {
    open spec fn layout_size() -> nat {
        4
    }

    open spec fn decoded_from(self, s: Seq<u8>) -> bool {
        &&& self.dev_major_id == le16(s, 0)
        &&& self.flags == le16(s, 2)
    }

    open spec fn rejection(s: Seq<u8>) -> Option<DecodeError> {
        None
    }

    fn size() -> (r: usize) {
        4
    }

    fn from_bytes(x: &[u8]) -> (r: Result<Self, DecodeError>) {
        if x.len() < 4 {
            return Err(DecodeError::TruncatedInput);
        }
        Ok(
            SpecialFileProducerExt {
                dev_major_id: read_u16(x, 0),
                flags: read_u16(x, 2),
            },
        )
    }
}

/// The module attributes extension.
#[derive(Clone, Copy, Debug)]
pub struct ModAttrExt {
    /// 0: stored, 1: Huffman, 2: LZMA.
    pub compression_type: u8,
    pub reserved0: u8,
    pub reserved1: u8,
    pub reserved2: u8,
    pub uncompressed_size: u32,
    pub compressed_size: u32,
    pub ven_module_id: u16,
    pub ven_id: u16,
    pub sha256_digest: [u8; 32],
}

impl FromBytes for ModAttrExt {
    open spec fn layout_size() -> nat {
        48
    }

    open spec fn decoded_from(self, s: Seq<u8>) -> bool {
        &&& self.compression_type == s[0]
        &&& self.reserved0 == s[1]
        &&& self.reserved1 == s[2]
        &&& self.reserved2 == s[3]
        &&& self.uncompressed_size == le32(s, 4)
        &&& self.compressed_size == le32(s, 8)
        &&& self.ven_module_id == le16(s, 12)
        &&& self.ven_id == le16(s, 14)
        &&& self.sha256_digest@ == s.subrange(16, 48)
    }

    open spec fn rejection(s: Seq<u8>) -> Option<DecodeError> {
        None
    }

    fn size() -> (r: usize) {
        48
    }

    fn from_bytes(x: &[u8]) -> (r: Result<Self, DecodeError>) {
        if x.len() < 48 {
            return Err(DecodeError::TruncatedInput);
        }
        Ok(
            ModAttrExt {
                compression_type: read_u8(x, 0),
                reserved0: read_u8(x, 1),
                reserved1: read_u8(x, 2),
                reserved2: read_u8(x, 3),
                uncompressed_size: read_u32(x, 4),
                compressed_size: read_u32(x, 8),
                ven_module_id: read_u16(x, 12),
                ven_id: read_u16(x, 14),
                sha256_digest: read_array(x, 16),
            },
        )
    }
}

/// The client system information extension.
#[derive(Clone, Copy, Debug)]
pub struct ClientSystemInfoExt {
    pub sku_cap: u32,
    pub sku_cap_reserved: [u8; 28],
    pub sku_attrs: u64,
}

impl FromBytes for ClientSystemInfoExt {
    open spec fn layout_size() -> nat {
        40
    }

    open spec fn decoded_from(self, s: Seq<u8>) -> bool {
        &&& self.sku_cap == le32(s, 0)
        &&& self.sku_cap_reserved@ == s.subrange(4, 32)
        &&& self.sku_attrs == le64(s, 32)
    }

    open spec fn rejection(s: Seq<u8>) -> Option<DecodeError> {
        None
    }

    fn size() -> (r: usize) {
        40
    }

    fn from_bytes(x: &[u8]) -> (r: Result<Self, DecodeError>) {
        if x.len() < 40 {
            return Err(DecodeError::TruncatedInput);
        }
        Ok(
            ClientSystemInfoExt {
                sku_cap: read_u32(x, 0),
                sku_cap_reserved: read_array(x, 4),
                sku_attrs: read_u64(x, 32),
            },
        )
    }
}

/// Entry of the system information extension.
#[derive(Clone, Copy, Debug)]
pub struct IndependentPartitionEntry {
    pub name: [u8; 4],
    pub version: u32,
    pub user_id: u16,
    pub reserved: u16,
}

impl FromBytes for IndependentPartitionEntry {
    open spec fn layout_size() -> nat {
        12
    }

    open spec fn decoded_from(self, s: Seq<u8>) -> bool {
        &&& self.name@ == s.subrange(0, 4)
        &&& self.version == le32(s, 4)
        &&& self.user_id == le16(s, 8)
        &&& self.reserved == le16(s, 10)
    }

    open spec fn rejection(s: Seq<u8>) -> Option<DecodeError> {
        None
    }

    fn size() -> (r: usize) {
        12
    }

    fn from_bytes(x: &[u8]) -> (r: Result<Self, DecodeError>) {
        if x.len() < 12 {
            return Err(DecodeError::TruncatedInput);
        }
        Ok(
            IndependentPartitionEntry {
                name: read_array(x, 0),
                version: read_u32(x, 4),
                user_id: read_u16(x, 8),
                reserved: read_u16(x, 10),
            },
        )
    }
}

/// Entry of the init script extension.
#[derive(Clone, Copy, Debug)]
pub struct InitScriptEntry {
    pub partition_name: [u8; 4],
    pub name: [u8; 12],
    pub init_flags: u32,
    pub boot_type: u32,
}

impl FromBytes for InitScriptEntry {
    open spec fn layout_size() -> nat {
        24
    }

    open spec fn decoded_from(self, s: Seq<u8>) -> bool {
        &&& self.partition_name@ == s.subrange(0, 4)
        &&& self.name@ == s.subrange(4, 16)
        &&& self.init_flags == le32(s, 16)
        &&& self.boot_type == le32(s, 20)
    }

    open spec fn rejection(s: Seq<u8>) -> Option<DecodeError> {
        None
    }

    fn size() -> (r: usize) {
        24
    }

    fn from_bytes(x: &[u8]) -> (r: Result<Self, DecodeError>) {
        if x.len() < 24 {
            return Err(DecodeError::TruncatedInput);
        }
        Ok(
            InitScriptEntry {
                partition_name: read_array(x, 0),
                name: read_array(x, 4),
                init_flags: read_u32(x, 16),
                boot_type: read_u32(x, 20),
            },
        )
    }
}

/// Entry of the feature permissions extension.
#[derive(Clone, Copy, Debug)]
pub struct FeaturePermissionsEntry {
    pub user_id: u16,
    pub reserved: u16,
}

impl FromBytes for FeaturePermissionsEntry {
    open spec fn layout_size() -> nat {
        4
    }

    open spec fn decoded_from(self, s: Seq<u8>) -> bool {
        &&& self.user_id == le16(s, 0)
        &&& self.reserved == le16(s, 2)
    }

    open spec fn rejection(s: Seq<u8>) -> Option<DecodeError> {
        None
    }

    fn size() -> (r: usize) {
        4
    }

    fn from_bytes(x: &[u8]) -> (r: Result<Self, DecodeError>) {
        if x.len() < 4 {
            return Err(DecodeError::TruncatedInput);
        }
        Ok(
            FeaturePermissionsEntry {
                user_id: read_u16(x, 0),
                reserved: read_u16(x, 2),
            },
        )
    }
}

/// Entry of the partition information extension.
#[derive(Clone, Copy, Debug)]
pub struct ManifestModuleInfoExt {
    pub name: [u8; 12],
    pub kind: u8,
    pub reserved0: u8,
    pub reserved1: u16,
    pub metadata_size: u32,
    pub metadata_sha256_digest: [u8; 32],
}

impl FromBytes for ManifestModuleInfoExt {
    open spec fn layout_size() -> nat {
        52
    }

    open spec fn decoded_from(self, s: Seq<u8>) -> bool {
        &&& self.name@ == s.subrange(0, 12)
        &&& self.kind == s[12]
        &&& self.reserved0 == s[13]
        &&& self.reserved1 == le16(s, 14)
        &&& self.metadata_size == le32(s, 16)
        &&& self.metadata_sha256_digest@ == s.subrange(20, 52)
    }

    open spec fn rejection(s: Seq<u8>) -> Option<DecodeError> {
        None
    }

    fn size() -> (r: usize) {
        52
    }

    fn from_bytes(x: &[u8]) -> (r: Result<Self, DecodeError>) {
        if x.len() < 52 {
            return Err(DecodeError::TruncatedInput);
        }
        Ok(
            ManifestModuleInfoExt {
                name: read_array(x, 0),
                kind: read_u8(x, 12),
                reserved0: read_u8(x, 13),
                reserved1: read_u16(x, 14),
                metadata_size: read_u32(x, 16),
                metadata_sha256_digest: read_array(x, 20),
            },
        )
    }
}

/// Entry of the process attributes extension.
#[derive(Clone, Copy, Debug)]
pub struct ProcessGroupId {
    pub group_id: u16,
}

impl FromBytes for ProcessGroupId {
    open spec fn layout_size() -> nat {
        2
    }

    open spec fn decoded_from(self, s: Seq<u8>) -> bool {
        &&& self.group_id == le16(s, 0)
    }

    open spec fn rejection(s: Seq<u8>) -> Option<DecodeError> {
        None
    }

    fn size() -> (r: usize) {
        2
    }

    fn from_bytes(x: &[u8]) -> (r: Result<Self, DecodeError>) {
        if x.len() < 2 {
            return Err(DecodeError::TruncatedInput);
        }
        Ok(
            ProcessGroupId {
                group_id: read_u16(x, 0),
            },
        )
    }
}

/// Entry of the thread attributes extension.
#[derive(Clone, Copy, Debug)]
pub struct Thread {
    pub stack_size: u32,
    pub flags: u32,
    pub scheduling_policy: u32,
    pub reserved: u32,
}

impl FromBytes for Thread {
    open spec fn layout_size() -> nat {
        16
    }

    open spec fn decoded_from(self, s: Seq<u8>) -> bool {
        &&& self.stack_size == le32(s, 0)
        &&& self.flags == le32(s, 4)
        &&& self.scheduling_policy == le32(s, 8)
        &&& self.reserved == le32(s, 12)
    }

    open spec fn rejection(s: Seq<u8>) -> Option<DecodeError> {
        None
    }

    fn size() -> (r: usize) {
        16
    }

    fn from_bytes(x: &[u8]) -> (r: Result<Self, DecodeError>) {
        if x.len() < 16 {
            return Err(DecodeError::TruncatedInput);
        }
        Ok(
            Thread {
                stack_size: read_u32(x, 0),
                flags: read_u32(x, 4),
                scheduling_policy: read_u32(x, 8),
                reserved: read_u32(x, 12),
            },
        )
    }
}

/// Entry of the locked ranges extension.
#[derive(Clone, Copy, Debug)]
pub struct LockedRange {
    pub range_base: u32,
    pub range_size: u32,
}

impl FromBytes for LockedRange {
    open spec fn layout_size() -> nat {
        8
    }

    open spec fn decoded_from(self, s: Seq<u8>) -> bool {
        &&& self.range_base == le32(s, 0)
        &&& self.range_size == le32(s, 4)
    }

    open spec fn rejection(s: Seq<u8>) -> Option<DecodeError> {
        None
    }

    fn size() -> (r: usize) {
        8
    }

    fn from_bytes(x: &[u8]) -> (r: Result<Self, DecodeError>) {
        if x.len() < 8 {
            return Err(DecodeError::TruncatedInput);
        }
        Ok(
            LockedRange {
                range_base: read_u32(x, 0),
                range_size: read_u32(x, 4),
            },
        )
    }
}

/// Entry of the device ids extension.
#[derive(Clone, Copy, Debug)]
pub struct Device {
    pub device_id: u32,
    pub reserved: u32,
}

impl FromBytes for Device {
    open spec fn layout_size() -> nat {
        8
    }

    open spec fn decoded_from(self, s: Seq<u8>) -> bool {
        &&& self.device_id == le32(s, 0)
        &&& self.reserved == le32(s, 4)
    }

    open spec fn rejection(s: Seq<u8>) -> Option<DecodeError> {
        None
    }

    fn size() -> (r: usize) {
        8
    }

    fn from_bytes(x: &[u8]) -> (r: Result<Self, DecodeError>) {
        if x.len() < 8 {
            return Err(DecodeError::TruncatedInput);
        }
        Ok(
            Device {
                device_id: read_u32(x, 0),
                reserved: read_u32(x, 4),
            },
        )
    }
}

/// Entry of the MMIO ranges extension.
#[derive(Clone, Copy, Debug)]
pub struct MmioRange {
    pub base: u32,
    pub size: u32,
    pub flags: u32,
}

impl FromBytes for MmioRange {
    open spec fn layout_size() -> nat {
        12
    }

    open spec fn decoded_from(self, s: Seq<u8>) -> bool {
        &&& self.base == le32(s, 0)
        &&& self.size == le32(s, 4)
        &&& self.flags == le32(s, 8)
    }

    open spec fn rejection(s: Seq<u8>) -> Option<DecodeError> {
        None
    }

    fn size() -> (r: usize) {
        12
    }

    fn from_bytes(x: &[u8]) -> (r: Result<Self, DecodeError>) {
        if x.len() < 12 {
            return Err(DecodeError::TruncatedInput);
        }
        Ok(
            MmioRange {
                base: read_u32(x, 0),
                size: read_u32(x, 4),
                flags: read_u32(x, 8),
            },
        )
    }
}

/// Entry of the special files extension.
#[derive(Clone, Copy, Debug)]
pub struct SpecialFileDef {
    pub name: [u8; 12],
    pub access_mode: u16,
    pub uid: u16,
    pub gid: u16,
    pub dev_minor_id: u8,
    pub reserved0: u8,
    pub reserved1: u32,
}

impl FromBytes for SpecialFileDef {
    open spec fn layout_size() -> nat {
        24
    }

    open spec fn decoded_from(self, s: Seq<u8>) -> bool {
        &&& self.name@ == s.subrange(0, 12)
        &&& self.access_mode == le16(s, 12)
        &&& self.uid == le16(s, 14)
        &&& self.gid == le16(s, 16)
        &&& self.dev_minor_id == s[18]
        &&& self.reserved0 == s[19]
        &&& self.reserved1 == le32(s, 20)
    }

    open spec fn rejection(s: Seq<u8>) -> Option<DecodeError> {
        None
    }

    fn size() -> (r: usize) {
        24
    }

    fn from_bytes(x: &[u8]) -> (r: Result<Self, DecodeError>) {
        if x.len() < 24 {
            return Err(DecodeError::TruncatedInput);
        }
        Ok(
            SpecialFileDef {
                name: read_array(x, 0),
                access_mode: read_u16(x, 12),
                uid: read_u16(x, 14),
                gid: read_u16(x, 16),
                dev_minor_id: read_u8(x, 18),
                reserved0: read_u8(x, 19),
                reserved1: read_u32(x, 20),
            },
        )
    }
}

/// Entry of the user information extension.
#[derive(Clone, Copy, Debug)]
pub struct UserInfoEntry {
    pub id: u16,
    pub reserved: u16,
    pub nvram_storage_quota: u32,
    pub ram_storage_quota: u32,
    pub wop_quota: u32,
    pub working_dir: [u8; 36],
}

impl FromBytes for UserInfoEntry {
    open spec fn layout_size() -> nat {
        52
    }

    open spec fn decoded_from(self, s: Seq<u8>) -> bool {
        &&& self.id == le16(s, 0)
        &&& self.reserved == le16(s, 2)
        &&& self.nvram_storage_quota == le32(s, 4)
        &&& self.ram_storage_quota == le32(s, 8)
        &&& self.wop_quota == le32(s, 12)
        &&& self.working_dir@ == s.subrange(16, 52)
    }

    open spec fn rejection(s: Seq<u8>) -> Option<DecodeError> {
        None
    }

    fn size() -> (r: usize) {
        52
    }

    fn from_bytes(x: &[u8]) -> (r: Result<Self, DecodeError>) {
        if x.len() < 52 {
            return Err(DecodeError::TruncatedInput);
        }
        Ok(
            UserInfoEntry {
                id: read_u16(x, 0),
                reserved: read_u16(x, 2),
                nvram_storage_quota: read_u32(x, 4),
                ram_storage_quota: read_u32(x, 8),
                wop_quota: read_u32(x, 12),
                working_dir: read_array(x, 16),
            },
        )
    }
}

} // verus!
