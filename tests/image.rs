use csme_rs::cpd::CodePartitionDirectory;
use csme_rs::ext::{CompressionType, ExtensionData, ExtensionHeader, ManifestExtension};
use csme_rs::fpt::{FlashPartitionTable, FptEntryAttributes, PartitionType};
use csme_rs::lzma_codec::lzma_stream;
use csme_rs::man::CodePartitionManifest;
use csme_rs::part::{decompress, CodePartition};
use csme_rs::{DecodeError, Field};
use csme_rs::ext::ModAttrExt;

fn put32(buf: &mut Vec<u8>, at: usize, v: u32) {
    buf[at..at + 4].copy_from_slice(&v.to_le_bytes());
}

fn fpt_bytes(num: u32, entries: &[(&[u8; 4], u32, u32, u32)]) -> Vec<u8> {
    let mut b = vec![0u8; 0x20];
    b[0..4].copy_from_slice(b"$FPT");
    put32(&mut b, 4, num);
    b[10] = 0x20;
    for (name, offset, length, attrs) in entries {
        let mut e = vec![0u8; 0x20];
        e[0..4].copy_from_slice(&name[..]);
        put32(&mut e, 8, *offset);
        put32(&mut e, 12, *length);
        put32(&mut e, 28, *attrs);
        b.extend_from_slice(&e);
    }
    b
}

fn extension(id: u32, payload: &[u8]) -> Vec<u8> {
    let mut b = vec![0u8; 8];
    put32(&mut b, 0, id);
    put32(&mut b, 4, (payload.len() + 8) as u32);
    b.extend_from_slice(payload);
    b
}

fn mod_attrs(compression: u8, uncompressed: u32, compressed: u32) -> Vec<u8> {
    let mut p = vec![0u8; 48];
    p[0] = compression;
    put32(&mut p, 4, uncompressed);
    put32(&mut p, 8, compressed);
    extension(0xa, &p)
}

fn manifest_bytes(stream: &[u8]) -> Vec<u8> {
    let mut b = vec![0u8; 644];
    put32(&mut b, 4, 0xa1);
    put32(&mut b, 16, 0x8086);
    b[28..32].copy_from_slice(b"$MN2");
    b.extend_from_slice(stream);
    b
}

/// A partition whose directory lists `files` in order, each stored right
/// after the directory.
fn partition(files: &[(&str, Vec<u8>)]) -> Vec<u8> {
    let dir_len = 0x10 + 24 * files.len();
    let mut b = vec![0u8; dir_len];
    b[0..4].copy_from_slice(b"$CPD");
    put32(&mut b, 4, files.len() as u32);
    b[10] = 0x10;
    b[12..16].copy_from_slice(b"FTPR");
    let mut offset = dir_len;
    for (k, (name, content)) in files.iter().enumerate() {
        let at = 0x10 + 24 * k;
        b[at..at + name.len()].copy_from_slice(name.as_bytes());
        put32(&mut b, at + 12, offset as u32);
        put32(&mut b, at + 16, content.len() as u32);
        offset += content.len();
    }
    for (_, content) in files {
        b.extend_from_slice(content);
    }
    b
}

fn fake_huffman(raw: &Vec<u8>, n: usize) -> Option<Vec<u8>> {
    if raw.is_empty() {
        None
    } else {
        Some(vec![raw[0]; n])
    }
}

fn real_lzma(stream: &Vec<u8>) -> Option<Vec<u8>> {
    let mut out = Vec::new();
    let mut reader = lzma::read(stream.as_slice()).ok()?;
    std::io::Read::read_to_end(&mut reader, &mut out).ok()?;
    Some(out)
}

fn failing_lzma(_stream: &Vec<u8>) -> Option<Vec<u8>> {
    None
}

fn no_huffman(_raw: &Vec<u8>, _n: usize) -> Option<Vec<u8>> {
    None
}

const LZMA_ALONE: [u8; 42] = [
    0x5d, 0x00, 0x00, 0x80, 0x00, 0xff, 0xff, 0xff, 0xff, 0xff, 0xff, 0xff, 0xff, 0x00, 0x36,
    0x9b, 0xc8, 0xb1, 0xae, 0x12, 0xee, 0xed, 0xc0, 0x40, 0xc8, 0x21, 0x90, 0x1e, 0xf8, 0xfd,
    0x17, 0x82, 0xc6, 0xc3, 0x9c, 0x1f, 0xff, 0xff, 0x67, 0xac, 0x00, 0x00,
];
const LZMA_PLAIN: &[u8] = b"module data, module data, module data!!";

fn lzma_stored() -> Vec<u8> {
    let mut raw = LZMA_ALONE[..0x0e].to_vec();
    raw.extend_from_slice(&[0xde, 0xad, 0xbe]);
    raw.extend_from_slice(&LZMA_ALONE[0x0e..]);
    raw
}

#[test]
fn fpt_rejects_buffer_shorter_than_declared_entries() {
    let mut b = fpt_bytes(2, &[(b"FTPR", 0x100, 0x10, 0)]);
    assert_eq!(FlashPartitionTable::from_bytes(&b).err(), Some(DecodeError::TruncatedInput));
    b.extend_from_slice(&[0u8; 0x20]);
    let t = FlashPartitionTable::from_bytes(&b).unwrap();
    assert_eq!(t.entries.len(), 2);
    assert_eq!(t.entries[0].offset, 0x100);
    assert_eq!(FlashPartitionTable::from_bytes(&b[..0x1f]).err(), Some(DecodeError::TruncatedInput));
}

#[test]
fn fpt_rejects_more_than_127_entries() {
    let b = fpt_bytes(128, &[]);
    assert_eq!(FlashPartitionTable::from_bytes(&b).err(), Some(DecodeError::EntryCountExceeded));
}

#[test]
fn fpt_rejects_bad_marker() {
    let mut b = fpt_bytes(0, &[]);
    b[0] = b'#';
    match FlashPartitionTable::from_bytes(&b) {
        Err(DecodeError::ValidationFailed { field, expected, .. }) => {
            assert_eq!(field, Field::FptMarker);
            assert_eq!(expected, u32::from_le_bytes(*b"$FPT"));
        }
        _ => panic!("expected a marker failure"),
    }
}

#[test]
fn fpt_entry_kind_and_validity() {
    assert_eq!(FptEntryAttributes(0x0000_0000).kind(), PartitionType::Code);
    assert_eq!(FptEntryAttributes(0xfe00_0001).kind(), PartitionType::Data);
    assert_eq!(FptEntryAttributes(0xffff_ffc0).kind(), PartitionType::Code);
    assert_eq!(FptEntryAttributes(0x0000_0045).kind(), PartitionType::Other(5));
    assert!(!FptEntryAttributes(0xff00_0000).entry_valid());
    assert!(!FptEntryAttributes(0xffff_ffff).entry_valid());
    assert!(FptEntryAttributes(0xfe00_0000).entry_valid());
    assert!(FptEntryAttributes(0x00ff_ffff).entry_valid());
}

#[test]
fn cpd_entry_bits() {
    let p = partition(&[("x.bin", vec![1, 2, 3])]);
    let mut d = CodePartitionDirectory::new(&p).unwrap();
    d.entries[0].attrs.0 = 0x0300_0010;
    let e = &d.entries[0];
    assert_eq!(e.attrs.address(), 0x0100_0010);
    assert!(e.attrs.compress_flag());
    assert_eq!(e.attrs.reserved(), 0);
    assert_eq!(e.offset(), 0x0100_0010);
    assert_eq!(e.filename(), b"x.bin".to_vec());
    assert_eq!(e.len(), 3);
    d.entries[0].attrs.0 = 0xfc00_0000;
    assert_eq!(d.entries[0].attrs.reserved(), 0x3f);
    assert!(!d.entries[0].attrs.compress_flag());
}

#[test]
fn cpd_rejects_wrong_header_length() {
    let mut p = partition(&[]);
    p[10] = 0x14;
    match CodePartitionDirectory::new(&p) {
        Err(DecodeError::ValidationFailed { field, expected, actual }) => {
            assert_eq!(field, Field::CpdHeaderLength);
            assert_eq!(expected, 0x10);
            assert_eq!(actual, 0x14);
        }
        _ => panic!("expected a header length failure"),
    }
}

#[test]
fn manifest_extension_cursor_positions() {
    let mut stream = extension(0x7, &[0u8; 8]);
    stream.extend(extension(0x6, &[0u8; 16]));
    stream.extend(extension(0xb, &[0u8; 32]));
    let m = CodePartitionManifest::new(&manifest_bytes(&stream)).unwrap();
    assert_eq!(m.extensions.len(), 3);
    let ids: Vec<u32> = m.extensions.iter().map(|e| e.hdr.id).collect();
    assert_eq!(ids, vec![0x7, 0x6, 0xb]);
    let mut positions = Vec::new();
    let mut cursor = 0u32;
    for e in &m.extensions {
        positions.push(cursor);
        cursor += e.hdr.length;
    }
    assert_eq!(positions, vec![0, 16, 40]);
    assert_eq!(cursor as usize, stream.len());
    match &m.extensions[2].data {
        ExtensionData::LockedRanges { entries } => assert_eq!(entries.len(), 4),
        _ => panic!("expected locked ranges"),
    }
}

#[test]
fn unknown_extension_id_is_an_error() {
    let stream = extension(0xff, &[0u8; 8]);
    assert_eq!(
        ManifestExtension::new(&stream).err(),
        Some(DecodeError::UnknownExtension(0xff))
    );
    let hdr = ExtensionHeader { id: 0xff, length: 16 };
    assert_eq!(ExtensionData::new(&hdr, &[0u8; 8]).err(), Some(DecodeError::UnknownExtension(0xff)));
    assert_eq!(
        CodePartitionManifest::new(&manifest_bytes(&stream)).err(),
        Some(DecodeError::UnknownExtension(0xff))
    );
}

#[test]
fn extension_length_below_header_is_an_error() {
    let mut b = extension(0x6, &[]);
    put32(&mut b, 4, 4);
    match ManifestExtension::new(&b) {
        Err(DecodeError::ValidationFailed { field, actual, .. }) => {
            assert_eq!(field, Field::ExtensionLength);
            assert_eq!(actual, 4);
        }
        _ => panic!("expected a length failure"),
    }
    let mut long = extension(0x6, &[0u8; 16]);
    put32(&mut long, 4, 64);
    assert_eq!(
        ManifestExtension::new(&long).err(),
        Some(DecodeError::OutOfBounds { offset: 0, length: 64, buffer_len: 24 })
    );
}

#[test]
fn extension_payload_shorter_than_fixed_part() {
    let b = extension(0xa, &[0u8; 40]);
    assert_eq!(ManifestExtension::new(&b).err(), Some(DecodeError::TruncatedInput));
}

#[test]
fn manifest_rejects_wrong_vendor() {
    let mut b = manifest_bytes(&[]);
    put32(&mut b, 16, 0x1022);
    match CodePartitionManifest::new(&b) {
        Err(DecodeError::ValidationFailed { field, expected, actual }) => {
            assert_eq!(field, Field::ManifestVendor);
            assert_eq!(expected, 0x8086);
            assert_eq!(actual, 0x1022);
        }
        _ => panic!("expected a vendor failure"),
    }
}

#[test]
fn module_attrs_accessors() {
    let b = mod_attrs(2, 0x1234, 0x99);
    let e = ManifestExtension::new(&b).unwrap();
    match e.data {
        ExtensionData::ModuleAttrs { data } => {
            assert_eq!(data.compression_type(), CompressionType::Lzma);
            assert_eq!(data.uncompressed_size(), 0x1234);
            assert_eq!(data.compressed_size(), 0x99);
        }
        _ => panic!("expected module attributes"),
    }
}

fn attrs_of(compression: u8, uncompressed: u32) -> ModAttrExt {
    match ManifestExtension::new(&mod_attrs(compression, uncompressed, 0)).unwrap().data {
        ExtensionData::ModuleAttrs { data } => data,
        _ => unreachable!(),
    }
}

#[test]
fn stored_module_has_declared_size() {
    let raw = vec![7u8; 12];
    assert_eq!(decompress(&raw, &attrs_of(0, 12), &fake_huffman, &real_lzma).unwrap(), raw);
    assert_eq!(
        decompress(&raw, &attrs_of(0, 13), &fake_huffman, &real_lzma).err(),
        Some(DecodeError::SizeMismatch { expected: 13, actual: 12 })
    );
}

#[test]
fn huffman_module_has_declared_size() {
    let raw = vec![9u8; 5];
    let out = decompress(&raw, &attrs_of(1, 16), &fake_huffman, &real_lzma).unwrap();
    assert_eq!(out, vec![9u8; 16]);
    assert_eq!(decompress(&raw, &attrs_of(1, 16), &no_huffman, &real_lzma).err(), Some(DecodeError::HuffmanError));
    let short = |_: &Vec<u8>, _: usize| Some(vec![0u8; 3]);
    assert_eq!(
        decompress(&raw, &attrs_of(1, 16), &short, &real_lzma).err(),
        Some(DecodeError::SizeMismatch { expected: 16, actual: 3 })
    );
}

#[test]
fn lzma_module_has_declared_size() {
    let raw = lzma_stored();
    let out = decompress(&raw, &attrs_of(2, LZMA_PLAIN.len() as u32), &fake_huffman, &real_lzma).unwrap();
    assert_eq!(out, LZMA_PLAIN.to_vec());
    assert_eq!(
        decompress(&raw, &attrs_of(2, 5), &fake_huffman, &real_lzma).err(),
        Some(DecodeError::SizeMismatch { expected: 5, actual: LZMA_PLAIN.len() })
    );
}

#[test]
fn lzma_rejects_corrupt_stream() {
    let raw = vec![0x5du8; 0x20];
    assert_eq!(decompress(&raw, &attrs_of(2, 4), &fake_huffman, &failing_lzma).err(), Some(DecodeError::LzmaError));
    let p = partition(&[
        ("P.man", manifest_bytes(&[])),
        ("z.met", mod_attrs(2, 4, 0x20)),
        ("z", raw.clone()),
    ]);
    assert_eq!(CodePartition::new(&p, no_huffman, failing_lzma).err(), Some(DecodeError::LzmaError));
}

#[test]
fn lzma_decoder_receives_patched_stream() {
    let raw: Vec<u8> = (0u8..0x20).collect();
    let echo = |s: &Vec<u8>| Some(s.clone());
    let mut expected: Vec<u8> = (0u8..0x0e).collect();
    expected.extend(0x11u8..0x20);
    let n = expected.len() as u32;
    assert_eq!(decompress(&raw, &attrs_of(2, n), &fake_huffman, &echo).unwrap(), expected);
}

#[test]
fn manifest_out_of_bounds_reports_manifest_offset() {
    let mut stream = extension(0x7, &[0u8; 8]);
    let mut bad = extension(0x6, &[0u8; 16]);
    put32(&mut bad, 4, 100);
    stream.extend(bad);
    let m = manifest_bytes(&stream);
    assert_eq!(
        CodePartitionManifest::new(&m).err(),
        Some(DecodeError::OutOfBounds { offset: 644 + 16, length: 100, buffer_len: m.len() })
    );
}

#[test]
fn unknown_compression_type_is_an_error() {
    match decompress(&vec![0u8; 4], &attrs_of(7, 4), &fake_huffman, &real_lzma) {
        Err(DecodeError::ValidationFailed { field, actual, .. }) => {
            assert_eq!(field, Field::CompressionType);
            assert_eq!(actual, 7);
        }
        _ => panic!("expected a compression type failure"),
    }
}

#[test]
fn lzma_header_patch() {
    let raw: Vec<u8> = (0u8..0x20).collect();
    let mut expected: Vec<u8> = (0u8..0x0e).collect();
    expected.extend(0x11u8..0x20);
    assert_eq!(lzma_stream(&raw).unwrap(), expected);
    assert_eq!(lzma_stream(&raw[..0x11]).unwrap(), (0u8..0x0e).collect::<Vec<u8>>());
    assert_eq!(lzma_stream(&raw[..0x10]).err(), Some(DecodeError::TruncatedInput));
    assert_eq!(
        decompress(&raw[..0x10].to_vec(), &attrs_of(2, 4), &fake_huffman, &real_lzma).err(),
        Some(DecodeError::TruncatedInput)
    );
}

fn two_module_partition() -> Vec<u8> {
    partition(&[
        ("FTPR.man", manifest_bytes(&extension(0x4, &[0u8; 20]))),
        ("a.met", mod_attrs(0, 8, 8)),
        ("a", vec![0x11u8; 8]),
        ("b.met", mod_attrs(1, 16, 5)),
        ("b", vec![0x22u8; 5]),
    ])
}

#[test]
fn end_to_end_minimal_image() {
    let part = two_module_partition();
    let mut image = vec![0u8; 0x10];
    image.extend(fpt_bytes(1, &[(b"FTPR", 0x100, part.len() as u32, 0)]));
    image.resize(0x100, 0);
    image.extend_from_slice(&part);

    let fpt = FlashPartitionTable::from_bytes(&image[0x10..]).unwrap();
    assert_eq!(fpt.entries.len(), 1);
    let entry = &fpt.entries[0];
    assert!(entry.attrs.entry_valid());
    assert_eq!(entry.attrs.kind(), PartitionType::Code);
    let off = entry.offset as usize;
    let len = entry.length as usize;
    let p = CodePartition::new(&image[off..off + len], fake_huffman, real_lzma).unwrap();
    assert_eq!(p.modules.len(), 2);
    assert_eq!(p.modules[0].name, b"a".to_vec());
    assert_eq!(p.modules[0].data, vec![0x11u8; 8]);
    assert_eq!(p.modules[0].raw_data, vec![0x11u8; 8]);
    assert_eq!(p.modules[1].name, b"b".to_vec());
    assert_eq!(p.modules[1].data.len(), 16);
    assert_eq!(p.modules[1].raw_data.len(), 5);
    assert_eq!(p.cpd.entries.len(), 5);
    assert_eq!(p.man.extensions.len(), 1);
    assert_eq!(p.raw_data, part);
}

#[test]
fn partition_without_manifest_first() {
    let p = partition(&[("a.met", mod_attrs(0, 1, 1)), ("a", vec![1])]);
    assert_eq!(CodePartition::new(&p, fake_huffman, real_lzma).err(), Some(DecodeError::MissingManifest));
    let empty = partition(&[]);
    assert_eq!(CodePartition::new(&empty, fake_huffman, real_lzma).err(), Some(DecodeError::MissingManifest));
}

#[test]
fn partition_module_errors() {
    let man = manifest_bytes(&[]);
    let no_attrs = partition(&[("P.man", man.clone()), ("a.met", extension(0x6, &[])), ("a", vec![1])]);
    assert_eq!(CodePartition::new(&no_attrs, fake_huffman, real_lzma).err(), Some(DecodeError::MissingModuleAttrs));
    let no_data = partition(&[("P.man", man.clone()), ("a.met", mod_attrs(0, 1, 1))]);
    assert_eq!(CodePartition::new(&no_data, fake_huffman, real_lzma).err(), Some(DecodeError::MissingModuleData));
    let twice = partition(&[
        ("P.man", man.clone()),
        ("a.met", mod_attrs(0, 1, 1)),
        ("a", vec![1]),
        ("a", vec![2]),
    ]);
    assert_eq!(CodePartition::new(&twice, fake_huffman, real_lzma).err(), Some(DecodeError::AmbiguousModule));
    let mismatch = partition(&[("P.man", man.clone()), ("a.met", mod_attrs(0, 2, 1)), ("a", vec![1])]);
    assert_eq!(
        CodePartition::new(&mismatch, fake_huffman, real_lzma).err(),
        Some(DecodeError::SizeMismatch { expected: 2, actual: 1 })
    );
    let huff_fails = partition(&[("P.man", man), ("a.met", mod_attrs(1, 2, 1)), ("a", vec![1])]);
    assert_eq!(CodePartition::new(&huff_fails, no_huffman, real_lzma).err(), Some(DecodeError::HuffmanError));
}

#[test]
fn partition_entry_out_of_bounds() {
    let mut p = two_module_partition();
    let at = 0x10 + 24 * 2 + 16;
    put32(&mut p, at, 0x10000);
    match CodePartition::new(&p, fake_huffman, real_lzma).err() {
        Some(DecodeError::OutOfBounds { length, buffer_len, .. }) => {
            assert_eq!(length, 0x10000);
            assert_eq!(buffer_len, p.len());
        }
        other => panic!("expected out of bounds, got {:?}", other),
    }
}

#[test]
fn compressed_metadata_is_rejected() {
    let mut p = two_module_partition();
    let at = 0x10 + 24 + 12;
    let attrs = u32::from_le_bytes(p[at..at + 4].try_into().unwrap()) | 0x0200_0000;
    put32(&mut p, at, attrs);
    match CodePartition::new(&p, fake_huffman, real_lzma).err() {
        Some(DecodeError::ValidationFailed { field, .. }) => assert_eq!(field, Field::MetadataCompressed),
        other => panic!("expected a metadata failure, got {:?}", other),
    }
}

#[test]
fn lzma_module_in_partition() {
    let raw = lzma_stored();
    let p = partition(&[
        ("P.man", manifest_bytes(&[])),
        ("z.met", mod_attrs(2, LZMA_PLAIN.len() as u32, raw.len() as u32)),
        ("z", raw.clone()),
    ]);
    let part = CodePartition::new(&p, no_huffman, real_lzma).unwrap();
    assert_eq!(part.modules.len(), 1);
    assert_eq!(part.modules[0].data, LZMA_PLAIN.to_vec());
    assert_eq!(part.modules[0].raw_data, raw);
}

#[test]
fn tag_conversions() {
    assert_eq!(CompressionType::from(0u8), CompressionType::Stored);
    assert_eq!(CompressionType::from(1u8), CompressionType::Huff);
    assert_eq!(CompressionType::from(2u8), CompressionType::Lzma);
    assert_eq!(CompressionType::from(3u8), CompressionType::Unknown(3));
    assert_eq!(PartitionType::from(0u32), PartitionType::Code);
    assert_eq!(PartitionType::from(1u32), PartitionType::Data);
    assert_eq!(PartitionType::from(9u32), PartitionType::Other(9));
}
