//! Code partitions: the directory, the manifest, and the modules assembled
//! from the metadata files and their data files.

use vstd::prelude::*;
use vstd::slice::{slice_subrange, slice_to_vec};
use crate::cpd::{CodePartitionDirectory, CpdEntry, ends_with, bytes_eq, has_suffix, met_suffix, man_suffix};
use crate::bytes::FromBytes;
use crate::error::{DecodeError, Field};
use crate::ext::{ManifestExtension, ModAttrExt, CompressionType, parse_extensions, stream_decoded, stream_error, module_attrs, spec_module_attrs};
use crate::lzma_codec::{lzma_input, lzma_stream};
use crate::man::CodePartitionManifest;

verus! {

/// The file of `e` lies within a partition of `n` bytes.
pub open spec fn range_fits(e: CpdEntry, n: nat) -> bool {
    e.attrs.spec_address() + e.length <= n
}

/// The bytes of the file of `e` within the partition `part`.
pub open spec fn spec_entry_bytes(e: CpdEntry, part: Seq<u8>) -> Seq<u8> {
    part.subrange(e.attrs.spec_address() as int, e.attrs.spec_address() + e.length)
}

/// The bytes of the file that `e` describes, checked against the partition's size.
pub fn entry_bytes<'a>(part: &'a [u8], e: &CpdEntry) -> (r: Result<&'a [u8], DecodeError>)
    ensures
        range_fits(*e, part@.len()) ==> (r matches Ok(b) && b@ == spec_entry_bytes(*e, part@)),
        !range_fits(*e, part@.len()) ==> r == Err::<&[u8], DecodeError>(
            DecodeError::OutOfBounds {
                offset: e.attrs.spec_address() as usize,
                length: e.length as usize,
                buffer_len: part@.len() as usize,
            },
        ),
{
    let offset = e.offset();
    let length = e.len();
    if offset > part.len() || length > part.len() - offset {
        return Err(DecodeError::OutOfBounds { offset, length, buffer_len: part.len() });
    }
    Ok(slice_subrange(part, offset, offset + length))
}

/// `d` is the one entry of `entries` whose file name is `name`.
pub open spec fn unique_named(entries: Seq<CpdEntry>, name: Seq<u8>, d: int) -> bool {
    &&& 0 <= d < entries.len()
    &&& entries[d].spec_filename() == name
    &&& forall|j: int|
        0 <= j < entries.len() && j != d ==> #[trigger] entries[j].spec_filename() != name
}

/// Finds the one directory entry whose file name is `name`.
pub fn find_module_data(entries: &Vec<CpdEntry>, name: &[u8]) -> (r: Result<usize, DecodeError>)
    ensures
        r matches Ok(d) ==> unique_named(entries@, name@, d as int),
        r == Err::<usize, DecodeError>(DecodeError::MissingModuleData) <==> forall|j: int|
            0 <= j < entries@.len() ==> #[trigger] entries@[j].spec_filename() != name@,
        r == Err::<usize, DecodeError>(DecodeError::AmbiguousModule) <==> exists|a: int, b: int|
            0 <= a < b < entries@.len() && #[trigger] entries@[a].spec_filename() == name@
                && #[trigger] entries@[b].spec_filename() == name@,
        r is Ok || r == Err::<usize, DecodeError>(DecodeError::MissingModuleData) || r == Err::<
            usize,
            DecodeError,
        >(DecodeError::AmbiguousModule),
{
    let mut found: Option<usize> = None;
    let mut i: usize = 0;
    while i < entries.len()
        invariant
            i <= entries@.len(),
            found matches Some(d) ==> d < i && entries@[d as int].spec_filename() == name@,
            forall|j: int|
                0 <= j < i && (found matches Some(d) ==> j != d) ==> #[trigger] entries@[j].spec_filename()
                    != name@,
        decreases entries@.len() - i,
    {
        let fname = entries[i].filename();
        if bytes_eq(fname.as_slice(), name) {
            if let Some(d) = found {
                assert(entries@[d as int].spec_filename() == name@);
                return Err(DecodeError::AmbiguousModule);
            }
            found = Some(i);
        }
        i = i + 1;
    }
    match found {
        Some(d) => {
            assert(forall|a: int, b: int|
                0 <= a < b < entries@.len() && #[trigger] entries@[a].spec_filename() == name@
                    ==> #[trigger] entries@[b].spec_filename() != name@);
            Ok(d)
        },
        None => Err(DecodeError::MissingModuleData),
    }
}

/// Some Vec holding `raw`, handed to `huffman` with the size `n`, may give `o`.
pub open spec fn huffman_gives<H: Fn(&Vec<u8>, usize) -> Option<Vec<u8>>>(
    huffman: H,
    raw: Seq<u8>,
    n: usize,
    o: Option<Vec<u8>>,
) -> bool {
    exists|v: Vec<u8>| v@ == raw && #[trigger] huffman.ensures((&v, n), o)
}

/// Some Vec holding `stream`, handed to `lzma`, may give `o`.
pub open spec fn lzma_gives<L: Fn(&Vec<u8>) -> Option<Vec<u8>>>(
    lzma: L,
    stream: Seq<u8>,
    o: Option<Vec<u8>>,
) -> bool {
    exists|v: Vec<u8>| v@ == stream && #[trigger] lzma.ensures((&v,), o)
}

/// `r` is what a codec outcome `o` gives once checked against the declared
/// size `n`: `fail` where the codec failed, a size mismatch where it gave
/// another length.
pub open spec fn checked_output(
    o: Option<Vec<u8>>,
    n: u32,
    fail: DecodeError,
    r: Result<Vec<u8>, DecodeError>,
) -> bool {
    match o {
        None => r == Err::<Vec<u8>, DecodeError>(fail),
        Some(w) => if w@.len() == n {
            r == Ok::<Vec<u8>, DecodeError>(w)
        } else {
            r == Err::<Vec<u8>, DecodeError>(
                DecodeError::SizeMismatch { expected: n, actual: w@.len() as usize },
            )
        },
    }
}

/// What decoding the stored module data `raw` under `attr` gives: `r` is
/// the outcome of the codec that the compression tag selects, checked
/// against the declared uncompressed size. An unknown tag is reported
/// against 2, the highest known tag.
pub open spec fn codec_outcome<
    H: Fn(&Vec<u8>, usize) -> Option<Vec<u8>>,
    L: Fn(&Vec<u8>) -> Option<Vec<u8>>,
>(huffman: H, lzma: L, raw: Seq<u8>, attr: ModAttrExt, r: Result<Vec<u8>, DecodeError>) -> bool {
    let n = attr.uncompressed_size;
    match CompressionType::spec_from_tag(attr.compression_type) {
        CompressionType::Stored => if raw.len() == n {
            r matches Ok(v) && v@ == raw
        } else {
            r == Err::<Vec<u8>, DecodeError>(
                DecodeError::SizeMismatch { expected: n, actual: raw.len() as usize },
            )
        },
        CompressionType::Huff => exists|o: Option<Vec<u8>>|
            #[trigger] huffman_gives(huffman, raw, n as usize, o) && checked_output(
                o,
                n,
                DecodeError::HuffmanError,
                r,
            ),
        CompressionType::Lzma => if raw.len() < 0x11 {
            r == Err::<Vec<u8>, DecodeError>(DecodeError::TruncatedInput)
        } else {
            exists|o: Option<Vec<u8>>|
                #[trigger] lzma_gives(lzma, lzma_input(raw), o) && checked_output(
                    o,
                    n,
                    DecodeError::LzmaError,
                    r,
                )
        },
        CompressionType::Unknown(t) => r == Err::<Vec<u8>, DecodeError>(
            DecodeError::ValidationFailed {
                field: Field::CompressionType,
                expected: 2,
                actual: t as u32,
            },
        ),
    }
}

/// Decoding `raw` under `attr` succeeds whatever the codecs give within
/// their contracts: every outcome they allow has the declared size.
pub open spec fn codec_succeeds<
    H: Fn(&Vec<u8>, usize) -> Option<Vec<u8>>,
    L: Fn(&Vec<u8>) -> Option<Vec<u8>>,
>(huffman: H, lzma: L, raw: Seq<u8>, attr: ModAttrExt) -> bool {
    let n = attr.uncompressed_size;
    match CompressionType::spec_from_tag(attr.compression_type) {
        CompressionType::Stored => raw.len() == n,
        CompressionType::Huff => forall|o: Option<Vec<u8>>|
            #[trigger] huffman_gives(huffman, raw, n as usize, o) ==> (o matches Some(w) && w@.len()
                == n),
        CompressionType::Lzma => raw.len() >= 0x11 && forall|o: Option<Vec<u8>>|
            #[trigger] lzma_gives(lzma, lzma_input(raw), o) ==> (o matches Some(w) && w@.len() == n),
        CompressionType::Unknown(_) => false,
    }
}

/// Decodes stored module data with the codec that `attr` names, then checks
/// that the result has the declared uncompressed size. Huffman data goes to
/// `huffman` with the declared size; LZMA data is rebuilt into a standard
/// stream and goes to `lzma`. Either returns `None` on failure.
pub fn decompress<H: Fn(&Vec<u8>, usize) -> Option<Vec<u8>>, L: Fn(&Vec<u8>) -> Option<Vec<u8>>>(
    raw: &Vec<u8>,
    attr: &ModAttrExt,
    huffman: &H,
    lzma: &L,
) -> (r: Result<Vec<u8>, DecodeError>)
    requires
        forall|v: &Vec<u8>, n: usize| #[trigger] huffman.requires((v, n)),
        forall|v: &Vec<u8>| #[trigger] lzma.requires((v,)),
    ensures
        codec_outcome(*huffman, *lzma, raw@, *attr, r),
        codec_succeeds(*huffman, *lzma, raw@, *attr) ==> r is Ok,
        r matches Ok(v) ==> v@.len() == attr.uncompressed_size,
{
    let n = attr.uncompressed_size();
    let out = match attr.compression_type() {
        CompressionType::Stored => raw.clone(),
        CompressionType::Huff => {
            let o = huffman(raw, n);
            assert(huffman_gives(*huffman, raw@, attr.uncompressed_size as usize, o));
            match o {
                Some(v) => v,
                None => {
                    return Err(DecodeError::HuffmanError);
                },
            }
        },
        CompressionType::Lzma => {
            let stream = lzma_stream(raw.as_slice())?;
            let o = lzma(&stream);
            assert(lzma_gives(*lzma, lzma_input(raw@), o));
            match o {
                Some(v) => v,
                None => {
                    return Err(DecodeError::LzmaError);
                },
            }
        },
        CompressionType::Unknown(t) => {
            return Err(
                DecodeError::ValidationFailed {
                    field: Field::CompressionType,
                    expected: 2,
                    actual: t as u32,
                },
            );
        },
    };
    if out.len() != n {
        return Err(DecodeError::SizeMismatch { expected: attr.uncompressed_size, actual: out.len() });
    }
    Ok(out)
}

/// A module: a metadata file and the data file of the same base name.
#[derive(Debug)]
pub struct Module {
    /// The metadata file's name without `.met`.
    pub name: Vec<u8>,
    /// The module attribute extension of the metadata file.
    pub attr: ModAttrExt,
    /// Every extension of the metadata file.
    pub ext: Vec<ManifestExtension>,
    /// The module's contents after decompression.
    pub data: Vec<u8>,
    /// The module's contents as stored in the partition.
    pub raw_data: Vec<u8>,
}

/// The directory entries whose file names end in `.met`, in directory order.
pub open spec fn metadata_entries(entries: Seq<CpdEntry>) -> Seq<CpdEntry> {
    entries.filter(|e: CpdEntry| has_suffix(e.spec_filename(), met_suffix()))
}

/// The module name a metadata file name stands for: the name without `.met`.
pub open spec fn module_name(met_name: Seq<u8>) -> Seq<u8> {
    met_name.subrange(0, met_name.len() - 4)
}

/// `m` is the module that the metadata entry `met` describes, in the
/// partition `part` whose directory entries are `entries`.
pub open spec fn module_decoded<
    H: Fn(&Vec<u8>, usize) -> Option<Vec<u8>>,
    L: Fn(&Vec<u8>) -> Option<Vec<u8>>,
>(m: Module, met: CpdEntry, entries: Seq<CpdEntry>, part: Seq<u8>, huffman: H, lzma: L) -> bool {
    &&& m.name@ == module_name(met.spec_filename())
    &&& !met.attrs.spec_compressed()
    &&& range_fits(met, part.len())
    &&& stream_decoded(m.ext@, spec_entry_bytes(met, part))
    &&& spec_module_attrs(m.ext@) == Some(m.attr)
    &&& exists|d: int|
        #[trigger] unique_named(entries, m.name@, d) && range_fits(entries[d], part.len())
            && m.raw_data@ == spec_entry_bytes(entries[d], part)
    &&& codec_outcome(huffman, lzma, m.raw_data@, m.attr, Ok::<Vec<u8>, DecodeError>(m.data))
    &&& m.data@.len() == m.attr.uncompressed_size
}

/// The error that finding and decoding the data of module `name`, with
/// attributes `a`, gives: no entry of that name, several, one outside the
/// partition, or the codec's error.
pub open spec fn data_fails_with<
    H: Fn(&Vec<u8>, usize) -> Option<Vec<u8>>,
    L: Fn(&Vec<u8>) -> Option<Vec<u8>>,
>(
    entries: Seq<CpdEntry>,
    name: Seq<u8>,
    part: Seq<u8>,
    a: ModAttrExt,
    huffman: H,
    lzma: L,
    e: DecodeError,
) -> bool {
    if forall|j: int| 0 <= j < entries.len() ==> #[trigger] entries[j].spec_filename() != name {
        e == DecodeError::MissingModuleData
    } else if exists|x: int, y: int|
        0 <= x < y < entries.len() && #[trigger] entries[x].spec_filename() == name
            && #[trigger] entries[y].spec_filename() == name {
        e == DecodeError::AmbiguousModule
    } else {
        forall|d: int|
            #[trigger] unique_named(entries, name, d) ==> if !range_fits(entries[d], part.len()) {
                e == DecodeError::OutOfBounds {
                    offset: entries[d].attrs.spec_address() as usize,
                    length: entries[d].length as usize,
                    buffer_len: part.len() as usize,
                }
            } else {
                codec_outcome(
                    huffman,
                    lzma,
                    spec_entry_bytes(entries[d], part),
                    a,
                    Err::<Vec<u8>, DecodeError>(e),
                )
            }
    }
}

/// The error that decoding the module of the metadata entry `met` gives,
/// in the order the checks are made: a compressed metadata file, one
/// outside the partition, extensions that do not decode, no module
/// attributes, then the module's data.
pub open spec fn module_fails_with<
    H: Fn(&Vec<u8>, usize) -> Option<Vec<u8>>,
    L: Fn(&Vec<u8>) -> Option<Vec<u8>>,
>(
    met: CpdEntry,
    entries: Seq<CpdEntry>,
    part: Seq<u8>,
    huffman: H,
    lzma: L,
    e: DecodeError,
) -> bool {
    if met.attrs.spec_compressed() {
        e == DecodeError::ValidationFailed { field: Field::MetadataCompressed, expected: 0, actual: 1 }
    } else if !range_fits(met, part.len()) {
        e == DecodeError::OutOfBounds {
            offset: met.attrs.spec_address() as usize,
            length: met.length as usize,
            buffer_len: part.len() as usize,
        }
    } else if stream_error(spec_entry_bytes(met, part)) is Some {
        Some(e) == stream_error(spec_entry_bytes(met, part))
    } else {
        exists|exts: Seq<ManifestExtension>|
            #[trigger] stream_decoded(exts, spec_entry_bytes(met, part)) && match spec_module_attrs(
                exts,
            ) {
                None => e == DecodeError::MissingModuleAttrs,
                Some(a) => data_fails_with(
                    entries,
                    module_name(met.spec_filename()),
                    part,
                    a,
                    huffman,
                    lzma,
                    e,
                ),
            }
    }
}

/// The module of the metadata entry `met` decodes whatever the codecs give
/// within their contracts.
pub open spec fn module_succeeds<
    H: Fn(&Vec<u8>, usize) -> Option<Vec<u8>>,
    L: Fn(&Vec<u8>) -> Option<Vec<u8>>,
>(met: CpdEntry, entries: Seq<CpdEntry>, part: Seq<u8>, huffman: H, lzma: L) -> bool {
    &&& !met.attrs.spec_compressed()
    &&& range_fits(met, part.len())
    &&& stream_error(spec_entry_bytes(met, part)) is None
    &&& forall|exts: Seq<ManifestExtension>|
        #[trigger] stream_decoded(exts, spec_entry_bytes(met, part)) ==> (spec_module_attrs(
            exts,
        ) matches Some(a) && exists|d: int|
            #[trigger] unique_named(entries, module_name(met.spec_filename()), d) && range_fits(
                entries[d],
                part.len(),
            ) && codec_succeeds(huffman, lzma, spec_entry_bytes(entries[d], part), a))
}

/// Decodes the module that the metadata entry `met` describes.
pub fn decode_module<H: Fn(&Vec<u8>, usize) -> Option<Vec<u8>>, L: Fn(&Vec<u8>) -> Option<Vec<u8>>>(
    part: &[u8],
    entries: &Vec<CpdEntry>,
    met: &CpdEntry,
    huffman: &H,
    lzma: &L,
) -> (r: Result<Module, DecodeError>)
    requires
        has_suffix(met.spec_filename(), met_suffix()),
        forall|v: &Vec<u8>, n: usize| #[trigger] huffman.requires((v, n)),
        forall|v: &Vec<u8>| #[trigger] lzma.requires((v,)),
    ensures
        r matches Ok(m) ==> module_decoded(m, *met, entries@, part@, *huffman, *lzma),
        r matches Err(e) ==> module_fails_with(*met, entries@, part@, *huffman, *lzma, e),
        module_succeeds(*met, entries@, part@, *huffman, *lzma) ==> r is Ok,
{
    if met.attrs.compress_flag() {
        return Err(
            DecodeError::ValidationFailed {
                field: Field::MetadataCompressed,
                expected: 0,
                actual: 1,
            },
        );
    }
    let met_bytes = entry_bytes(part, met)?;
    let ext = parse_extensions(met_bytes)?;
    assert(stream_decoded(ext@, spec_entry_bytes(*met, part@)));
    let attr = match module_attrs(&ext) {
        Some(a) => a,
        None => {
            return Err(DecodeError::MissingModuleAttrs);
        },
    };
    let fname = met.filename();
    let name = slice_to_vec(slice_subrange(fname.as_slice(), 0, fname.len() - 4));
    let d = find_module_data(entries, name.as_slice())?;
    let raw = match entry_bytes(part, &entries[d]) {
        Ok(b) => b,
        Err(e) => {
            assert(unique_named(entries@, name@, d as int));
            return Err(e);
        },
    };
    let raw_data = slice_to_vec(raw);
    assert(unique_named(entries@, name@, d as int));
    let data = match decompress(&raw_data, &attr, huffman, lzma) {
        Ok(v) => v,
        Err(e) => {
            return Err(e);
        },
    };
    let m = Module { name, attr, ext, data, raw_data };
    Ok(m)
}

/// Where decoding the partition `s` fails before its modules, given its
/// directory `d`: no manifest first, a manifest outside the partition, or a
/// manifest that does not decode.
pub open spec fn front_error(d: CodePartitionDirectory, s: Seq<u8>) -> Option<DecodeError> {
    let entries = d.entries@;
    if entries.len() == 0 || !has_suffix(entries[0].spec_filename(), man_suffix()) {
        Some(DecodeError::MissingManifest)
    } else if !range_fits(entries[0], s.len()) {
        Some(
            DecodeError::OutOfBounds {
                offset: entries[0].attrs.spec_address() as usize,
                length: entries[0].length as usize,
                buffer_len: s.len() as usize,
            },
        )
    } else {
        CodePartitionManifest::spec_error(spec_entry_bytes(entries[0], s))
    }
}

/// Every directory decoded from `s` has the entries of `c`.
proof fn lemma_same_entries(c: CodePartitionDirectory, s: Seq<u8>)
    requires
        c.decoded_from(s),
    ensures
        forall|d: CodePartitionDirectory| #[trigger] d.decoded_from(s) ==> d.entries@ == c.entries@,
{
    assert forall|d: CodePartitionDirectory| #[trigger] d.decoded_from(s) implies d.entries@
        == c.entries@ by {
        assert forall|i: int| 0 <= i < c.entries@.len() implies d.entries@[i] == c.entries@[i] by {
            let x = c.entries@[i];
            let y = d.entries@[i];
            assert(x.name =~= y.name);
        }
        assert(d.entries@ =~= c.entries@);
    }
}

/// The entry `e` is a metadata file: its name ends in `.met`.
pub open spec fn is_metadata(e: CpdEntry) -> bool {
    has_suffix(e.spec_filename(), met_suffix())
}

/// The `j`-th entry is a metadata file whose module is called `name`.
pub open spec fn names_module(entries: Seq<CpdEntry>, j: int, name: Seq<u8>) -> bool {
    is_metadata(entries[j]) && module_name(entries[j].spec_filename()) == name
}

/// The module of the metadata entry `met` decodes to some module.
pub open spec fn module_decodes<
    H: Fn(&Vec<u8>, usize) -> Option<Vec<u8>>,
    L: Fn(&Vec<u8>) -> Option<Vec<u8>>,
>(met: CpdEntry, entries: Seq<CpdEntry>, part: Seq<u8>, huffman: H, lzma: L) -> bool {
    exists|m: Module| #[trigger] module_decoded(m, met, entries, part, huffman, lzma)
}

/// Every module of a partition with directory entries `entries` decodes
/// whatever the codecs give within their contracts, and no two metadata
/// files give the same module name.
pub open spec fn partition_succeeds<
    H: Fn(&Vec<u8>, usize) -> Option<Vec<u8>>,
    L: Fn(&Vec<u8>) -> Option<Vec<u8>>,
>(entries: Seq<CpdEntry>, part: Seq<u8>, huffman: H, lzma: L) -> bool {
    &&& forall|j: int|
        0 <= j < entries.len() && is_metadata(#[trigger] entries[j]) ==> module_succeeds(
            entries[j],
            entries,
            part,
            huffman,
            lzma,
        )
    &&& forall|a: int, b: int|
        0 <= a < b < entries.len() && is_metadata(#[trigger] entries[a]) && is_metadata(
            #[trigger] entries[b],
        ) ==> module_name(entries[a].spec_filename()) != module_name(entries[b].spec_filename())
}

/// The module stage of a partition fails with `e` at the metadata entry
/// `j`: every metadata entry before it decodes, and `j`'s module fails with
/// `e` or, with `e` an ambiguity, takes the name of an earlier module.
pub open spec fn module_stage_fails_at<
    H: Fn(&Vec<u8>, usize) -> Option<Vec<u8>>,
    L: Fn(&Vec<u8>) -> Option<Vec<u8>>,
>(entries: Seq<CpdEntry>, part: Seq<u8>, huffman: H, lzma: L, j: int, e: DecodeError) -> bool {
    &&& 0 <= j < entries.len()
    &&& is_metadata(entries[j])
    &&& forall|a: int|
        0 <= a < j && is_metadata(#[trigger] entries[a]) ==> module_decodes(
            entries[a],
            entries,
            part,
            huffman,
            lzma,
        )
    &&& {
        ||| module_fails_with(entries[j], entries, part, huffman, lzma, e)
        ||| e == DecodeError::AmbiguousModule && module_decodes(
            entries[j],
            entries,
            part,
            huffman,
            lzma,
        ) && exists|a: int|
            0 <= a < j && #[trigger] names_module(
                entries,
                a,
                module_name(entries[j].spec_filename()),
            )
    }
}

/// A decoded code partition.
#[derive(Debug)]
pub struct CodePartition {
    /// Directory of files in this partition.
    pub cpd: CodePartitionDirectory,
    /// The partition's manifest.
    pub man: CodePartitionManifest,
    /// The modules, one per metadata file, in directory order.
    pub modules: Vec<Module>,
    /// A copy of the partition's bytes.
    pub raw_data: Vec<u8>,
}

impl CodePartition {
    /// `self` is the partition held in `part`, with module data decoded by
    /// `huffman` and `lzma`.
    pub open spec fn decoded_from<
        H: Fn(&Vec<u8>, usize) -> Option<Vec<u8>>,
        L: Fn(&Vec<u8>) -> Option<Vec<u8>>,
    >(self, part: Seq<u8>, huffman: H, lzma: L) -> bool {
        let entries = self.cpd.entries@;
        let mets = metadata_entries(entries);
        &&& self.cpd.decoded_from(part)
        &&& entries.len() > 0
        &&& has_suffix(entries[0].spec_filename(), man_suffix())
        &&& range_fits(entries[0], part.len())
        &&& self.man.decoded_from(spec_entry_bytes(entries[0], part))
        &&& self.modules@.len() == mets.len()
        &&& forall|k: int|
            0 <= k < mets.len() ==> module_decoded(
                #[trigger] self.modules@[k],
                mets[k],
                entries,
                part,
                huffman,
                lzma,
            )
        &&& forall|a: int, b: int|
            0 <= a < b < self.modules@.len() ==> #[trigger] self.modules@[a].name@
                != #[trigger] self.modules@[b].name@
        &&& self.raw_data@ == part
    }

    /// Decodes a code partition: its directory, the manifest named by the
    /// first entry, and one module per metadata file. Module data is decoded
    /// by `huffman` (given the declared size) or by `lzma` (given the
    /// rebuilt standard stream); either returns `None` on failure.
    pub fn new<H: Fn(&Vec<u8>, usize) -> Option<Vec<u8>>, L: Fn(&Vec<u8>) -> Option<Vec<u8>>>(
        data: &[u8],
        huffman: H,
        lzma: L,
    ) -> (r: Result<CodePartition, DecodeError>)
        requires
            forall|v: &Vec<u8>, n: usize| #[trigger] huffman.requires((v, n)),
            forall|v: &Vec<u8>| #[trigger] lzma.requires((v,)),
        ensures
            r matches Ok(p) ==> p.decoded_from(data@, huffman, lzma),
            CodePartitionDirectory::spec_error(data@) matches Some(e) ==> r == Err::<
                CodePartition,
                DecodeError,
            >(e),
            forall|d: CodePartitionDirectory|
                #[trigger] d.decoded_from(data@) && front_error(d, data@) is Some ==> r == Err::<
                    CodePartition,
                    DecodeError,
                >(front_error(d, data@)->Some_0),
            r matches Err(e) ==> forall|d: CodePartitionDirectory|
                #[trigger] d.decoded_from(data@) && front_error(d, data@) is None ==> exists|j: int|
                    #[trigger] module_stage_fails_at(d.entries@, data@, huffman, lzma, j, e),
            forall|d: CodePartitionDirectory|
                #[trigger] d.decoded_from(data@) && front_error(d, data@) is None
                    && partition_succeeds(d.entries@, data@, huffman, lzma) ==> r is Ok,
    {
        let cpd = CodePartitionDirectory::new(data)?;
        proof {
            lemma_same_entries(cpd, data@);
        }
        if cpd.entries.len() == 0 {
            return Err(DecodeError::MissingManifest);
        }
        let first = cpd.entries[0].filename();
        let man_suffix_bytes: [u8; 4] = [0x2e, 0x6d, 0x61, 0x6e];
        if !ends_with(first.as_slice(), man_suffix_bytes.as_slice()) {
            assert(man_suffix_bytes@ =~= man_suffix());
            return Err(DecodeError::MissingManifest);
        }
        assert(man_suffix_bytes@ =~= man_suffix());
        let man_bytes = entry_bytes(data, &cpd.entries[0])?;
        let man = CodePartitionManifest::new(man_bytes)?;

        let met_suffix_bytes: [u8; 4] = [0x2e, 0x6d, 0x65, 0x74];
        assert(met_suffix_bytes@ =~= met_suffix());
        let ghost entries = cpd.entries@;
        let mut modules: Vec<Module> = Vec::new();
        let ghost mut owners: Seq<int> = Seq::empty();
        let mut i: usize = 0;
        while i < cpd.entries.len()
            invariant
                i <= entries.len(),
                data@.len() >= 16,
                CodePartitionDirectory::spec_error(data@) is None,
                entries == cpd.entries@,
                forall|d: CodePartitionDirectory| #[trigger] d.decoded_from(data@) ==> d.entries@
                    == entries,
                front_error(cpd, data@) is None,
                owners.len() == modules@.len(),
                forall|k: int|
                    0 <= k < owners.len() ==> 0 <= #[trigger] owners[k] < i && names_module(
                        entries,
                        owners[k],
                        modules@[k].name@,
                    ),
                forall|a: int|
                    0 <= a < i && is_metadata(#[trigger] entries[a]) ==> module_decodes(
                        entries[a],
                        entries,
                        data@,
                        huffman,
                        lzma,
                    ),
                met_suffix_bytes@ == met_suffix(),
                forall|v: &Vec<u8>, n: usize| #[trigger] huffman.requires((v, n)),
                forall|v: &Vec<u8>| #[trigger] lzma.requires((v,)),
                modules@.len() == metadata_entries(entries.subrange(0, i as int)).len(),
                forall|k: int|
                    0 <= k < modules@.len() ==> module_decoded(
                        #[trigger] modules@[k],
                        metadata_entries(entries.subrange(0, i as int))[k],
                        entries,
                        data@,
                        huffman,
                        lzma,
                    ),
                forall|a: int, b: int|
                    0 <= a < b < modules@.len() ==> #[trigger] modules@[a].name@
                        != #[trigger] modules@[b].name@,
            decreases entries.len() - i,
        {
            let ghost before = entries.subrange(0, i as int);
            let ghost next = entries.subrange(0, i + 1);
            assert(next.drop_last() =~= before);
            assert(next.last() == entries[i as int]);
            proof {
                reveal(Seq::filter);
            }
            let e = &cpd.entries[i];
            let fname = e.filename();
            if ends_with(fname.as_slice(), met_suffix_bytes.as_slice()) {
                let m = match decode_module(data, &cpd.entries, e, &huffman, &lzma) {
                    Ok(m) => m,
                    Err(err) => {
                        assert(module_stage_fails_at(entries, data@, huffman, lzma, i as int, err));
                        assert forall|d: CodePartitionDirectory|
                            #[trigger] d.decoded_from(data@) && front_error(d, data@) is None implies exists|j: int|
                            #[trigger] module_stage_fails_at(d.entries@, data@, huffman, lzma, j, err) by {
                            assert(module_stage_fails_at(d.entries@, data@, huffman, lzma, i as int, err));
                        }
                        return Err(err);
                    },
                };
                assert(module_decoded(m, entries[i as int], entries, data@, huffman, lzma));
                let mut k: usize = 0;
                while k < modules.len()
                    invariant
                        k <= modules@.len(),
                        data@.len() >= 16,
                        CodePartitionDirectory::spec_error(data@) is None,
                        forall|d: CodePartitionDirectory| #[trigger] d.decoded_from(data@)
                            ==> d.entries@ == entries,
                        front_error(cpd, data@) is None,
                        i < entries.len(),
                        names_module(entries, i as int, m.name@),
                        module_decoded(m, entries[i as int], entries, data@, huffman, lzma),
                        forall|a: int|
                            0 <= a < i && is_metadata(#[trigger] entries[a]) ==> module_decodes(
                                entries[a],
                                entries,
                                data@,
                                huffman,
                                lzma,
                            ),
                        entries == cpd.entries@,
                        owners.len() == modules@.len(),
                        forall|k: int|
                            0 <= k < owners.len() ==> 0 <= #[trigger] owners[k] < i && names_module(
                                entries,
                                owners[k],
                                modules@[k].name@,
                            ),
                        forall|j: int| 0 <= j < k ==> #[trigger] modules@[j].name@ != m.name@,
                    decreases modules@.len() - k,
                {
                    if bytes_eq(modules[k].name.as_slice(), m.name.as_slice()) {
                        let ghost j = owners[k as int];
                        assert(names_module(entries, j, modules@[k as int].name@));
                        assert(is_metadata(entries[j]) && is_metadata(entries[i as int]));
                        assert(!partition_succeeds(entries, data@, huffman, lzma));
                        assert(names_module(entries, j, module_name(entries[i as int].spec_filename())));
                        assert(module_stage_fails_at(
                            entries,
                            data@,
                            huffman,
                            lzma,
                            i as int,
                            DecodeError::AmbiguousModule,
                        ));
                        assert forall|d: CodePartitionDirectory|
                            #[trigger] d.decoded_from(data@) && front_error(d, data@) is None implies exists|j: int|
                            #[trigger] module_stage_fails_at(
                                d.entries@,
                                data@,
                                huffman,
                                lzma,
                                j,
                                DecodeError::AmbiguousModule,
                            ) by {
                            assert(module_stage_fails_at(
                                d.entries@,
                                data@,
                                huffman,
                                lzma,
                                i as int,
                                DecodeError::AmbiguousModule,
                            ));
                        }
                        return Err(DecodeError::AmbiguousModule);
                    }
                    k = k + 1;
                }
                let ghost old_modules = modules@;
                modules.push(m);
                proof {
                    owners = owners.push(i as int);
                }
                assert(forall|k: int|
                    0 <= k < old_modules.len() ==> modules@[k] == old_modules[k]);
                assert(metadata_entries(next) == metadata_entries(before).push(entries[i as int]));
            } else {
                assert(metadata_entries(next) == metadata_entries(before));
            }
            i = i + 1;
        }
        assert(entries.subrange(0, entries.len() as int) =~= entries);
        let raw_data = slice_to_vec(data);
        Ok(CodePartition { cpd, man, modules, raw_data })
    }
}

} // verus!
