use std::cell::Cell;
use std::collections::HashMap;

use alkahest_core::activity::{Unk80809462, Unk80809468, Unk80809994, Unk80809b14, Unk80809b3a};
use alkahest_core::asset_id::AssetId;
use alkahest_core::pointer::{
    read_null_string, read_pointed, read_relative_pointer, read_table, read_table_pointer,
    read_u32_table, resolve_tag, decode_entry, ArchiveIndex, Decode, EntryMeta, Tag,
};
use alkahest_core::reader::{ByteReader, DecodeError};

/// An in-memory archive that counts how often it is asked.
struct StubArchive {
    entries: HashMap<u32, Vec<u8>>,
    meta: HashMap<u32, EntryMeta>,
    calls: Cell<usize>,
}

impl StubArchive {
    fn new() -> StubArchive {
        StubArchive { entries: HashMap::new(), meta: HashMap::new(), calls: Cell::new(0) }
    }
}

impl ArchiveIndex for StubArchive {
    fn resolve(&self, id: AssetId) -> Option<Vec<u8>> {
        self.calls.set(self.calls.get() + 1);
        self.entries.get(&id.hash).cloned()
    }

    fn entry_metadata(&self, id: AssetId) -> Option<EntryMeta> {
        self.calls.set(self.calls.get() + 1);
        self.meta.get(&id.hash).copied()
    }
}

fn put_u32(buf: &mut Vec<u8>, at: usize, v: u32) {
    buf[at..at + 4].copy_from_slice(&v.to_le_bytes());
}

fn put_u64(buf: &mut Vec<u8>, at: usize, v: u64) {
    buf[at..at + 8].copy_from_slice(&v.to_le_bytes());
}

/// A record of 0x18 bytes at `base`: a file size, then a table pointer at
/// +8 whose three u32 elements follow the record.
fn table_record(base: usize, total: usize) -> Vec<u8> {
    let mut buf = vec![0u8; total];
    put_u64(&mut buf, base, 0x40);
    // pointer field at base+8, elements at base+0x18: stored offset is 0x18 - 0x10.
    put_u64(&mut buf, base + 8, 0x8);
    put_u64(&mut buf, base + 0x10, 3);
    put_u32(&mut buf, base + 0x18, 0x1111_2222);
    put_u32(&mut buf, base + 0x1c, 7);
    put_u32(&mut buf, base + 0x20, 0xdead_beef);
    buf
}

#[test]
fn reads_little_endian_integers() {
    let mut r = ByteReader::new(vec![0x01, 0x02, 0x03, 0x04, 0x05, 0x06, 0x07, 0x08, 0x09]);
    assert_eq!(r.read_u8(), Ok(0x01));
    assert_eq!(r.read_u16(), Ok(0x0302));
    assert_eq!(r.read_u32(), Ok(0x0706_0504));
    assert_eq!(r.position(), 7);
    assert_eq!(r.read_u64(), Err(DecodeError::OutOfBounds));
    assert_eq!(r.position(), 7);
    let mut r = ByteReader::new(vec![1, 0, 0, 0, 0, 0, 0, 0x80]);
    assert_eq!(r.read_u64(), Ok(0x8000_0000_0000_0001));
}

#[test]
fn table_of_three_u32_and_cursor_after_field() {
    let buf = table_record(0, 0x24);
    let mut r = ByteReader::at(buf, 8);
    let archive = StubArchive::new();
    let items = read_u32_table(&mut r, &archive).unwrap();
    assert_eq!(items, vec![0x1111_2222, 7, 0xdead_beef]);
    assert_eq!(r.position(), 8 + 16);
    assert_eq!(archive.calls.get(), 0);
}

#[test]
fn relocated_record_decodes_the_same() {
    let archive = StubArchive::new();
    let a = table_record(0, 0x24);
    let b = table_record(37, 37 + 0x24 + 11);
    let mut ra = ByteReader::at(a, 8);
    let mut rb = ByteReader::at(b, 37 + 8);
    let va = read_u32_table(&mut ra, &archive).unwrap();
    let vb = read_u32_table(&mut rb, &archive).unwrap();
    assert_eq!(va, vb);
    assert_eq!(ra.position() + 37, rb.position());
}

#[test]
fn relative_pointer_counts_from_end_of_field() {
    let mut buf = vec![0u8; 32];
    put_u64(&mut buf, 4, 10);
    let mut r = ByteReader::at(buf, 4);
    assert_eq!(read_relative_pointer(&mut r), Ok(4 + 8 + 10));
    assert_eq!(r.position(), 12);
    let mut buf = vec![0u8; 16];
    put_u64(&mut buf, 0, u64::MAX);
    let mut r = ByteReader::new(buf);
    assert_eq!(read_relative_pointer(&mut r), Err(DecodeError::OutOfBounds));
}

#[test]
fn empty_table_is_never_followed() {
    let archive = StubArchive::new();
    for offset in [0u64, 5, u64::MAX] {
        let mut buf = vec![0u8; 16];
        put_u64(&mut buf, 0, offset);
        let mut r = ByteReader::new(buf.clone());
        assert_eq!(read_table_pointer(&mut r), Ok((0, 0)));
        let mut r = ByteReader::new(buf);
        let items: Vec<u32> = read_table(&mut r, &archive).unwrap();
        assert!(items.is_empty());
        assert_eq!(r.position(), 16);
    }
}

#[test]
fn table_past_the_end_is_out_of_bounds() {
    let archive = StubArchive::new();
    let mut buf = table_record(0, 0x24);
    put_u64(&mut buf, 0x10, 4);
    let mut r = ByteReader::at(buf, 8);
    assert_eq!(read_u32_table(&mut r, &archive), Err(DecodeError::OutOfBounds));
    let mut r = ByteReader::at(vec![0u8; 20], 8);
    assert_eq!(read_u32_table(&mut r, &archive), Err(DecodeError::OutOfBounds));
}

#[test]
fn table_too_long_for_the_address_space_is_out_of_bounds() {
    let archive = StubArchive::new();
    let mut buf = vec![0u8; 16];
    put_u64(&mut buf, 8, u64::MAX / 2);
    let mut r = ByteReader::new(buf);
    assert_eq!(read_u32_table(&mut r, &archive), Err(DecodeError::OutOfBounds));
}

#[test]
fn invalid_tag_is_absent_without_asking_the_archive() {
    let archive = StubArchive::new();
    for raw in [u32::MAX, 0, 0x8080_0000, 0x8200_0000] {
        let r: Result<Option<Unk80809b3a>, DecodeError> = resolve_tag(&archive, AssetId::from_raw(raw));
        assert!(matches!(r, Ok(None)));
    }
    assert_eq!(archive.calls.get(), 0);
}

#[test]
fn unknown_valid_tag_is_unresolved() {
    let archive = StubArchive::new();
    let id = AssetId::new(0x10, 3);
    let r: Result<Option<Unk80809b3a>, DecodeError> = resolve_tag(&archive, id);
    assert!(matches!(r, Err(DecodeError::UnresolvedReference)));
    assert_eq!(archive.calls.get(), 1);
}

#[test]
fn asset_id_packs_like_the_package_library() {
    let id = AssetId::new(0x123, 0x45);
    assert_eq!(id.hash, destiny_pkg::TagHash::new(0x123, 0x45).0);
    assert_eq!(id.pkg_id(), 0x123);
    assert_eq!(id.entry_index(), 0x45);
    assert!(id.is_valid());
    assert!(!AssetId::none().is_valid());
    assert!(!AssetId::from_raw(0x8080_0000).is_valid());
    assert!(AssetId::from_raw(0x81ff_ffff).is_valid());
}

fn b14_bytes(file_size: u64, hash: u32, a: u32, b: u32) -> Vec<u8> {
    let mut buf = vec![0u8; 0x14];
    put_u64(&mut buf, 0, file_size);
    put_u32(&mut buf, 8, hash);
    put_u32(&mut buf, 0xc, a);
    put_u32(&mut buf, 0x10, b);
    buf
}

#[test]
fn entity_pair_record_reads_in_place() {
    let archive = StubArchive::new();
    let mut r = ByteReader::new(b14_bytes(0x14, 0xabcd, 0x8090_0001, u32::MAX));
    let v = Unk80809b14::decode(&mut r, &archive).unwrap();
    assert_eq!(v.file_size, 0x14);
    assert_eq!(v.unk8, 0xabcd);
    assert_eq!(v.unkc, AssetId::from_raw(0x8090_0001));
    assert_eq!(v.unk10, AssetId::none());
    assert_eq!(r.position(), 0x14);
}

#[test]
fn truncated_record_is_out_of_bounds() {
    let archive = StubArchive::new();
    let full = b14_bytes(1, 2, 3, 4);
    for cut in 0..full.len() {
        let mut r = ByteReader::new(full[..cut].to_vec());
        assert!(matches!(Unk80809b14::decode(&mut r, &archive), Err(DecodeError::OutOfBounds)));
    }
    let mut r = ByteReader::new(vec![1, 2, 3, 4, 5, 6, 7]);
    assert!(matches!(Unk80809b3a::decode(&mut r, &archive), Err(DecodeError::OutOfBounds)));
}

#[test]
fn tag_table_resolves_through_the_archive() {
    let mut archive = StubArchive::new();
    let first = AssetId::new(2, 1);
    let second = AssetId::new(2, 2);
    archive.entries.insert(first.hash, b14_bytes(0x14, 11, 0, 0));
    archive.entries.insert(second.hash, b14_bytes(0x14, 22, 0, 0));
    let mut buf = vec![0u8; 0x20 + 12];
    let n = buf.len() as u64;
    put_u64(&mut buf, 0, n);
    put_u32(&mut buf, 8, 0x8080_1234);
    put_u64(&mut buf, 0x10, 0x8);
    put_u64(&mut buf, 0x18, 3);
    put_u32(&mut buf, 0x20, first.hash);
    put_u32(&mut buf, 0x24, u32::MAX);
    put_u32(&mut buf, 0x28, second.hash);
    let mut r = ByteReader::new(buf);
    let v = Unk80809468::decode(&mut r, &archive).unwrap();
    assert_eq!(r.position(), 0x20);
    assert_eq!(v.unk8, AssetId::from_raw(0x8080_1234));
    assert_eq!(v.unk10.len(), 3);
    assert_eq!(v.unk10[0].value.as_ref().unwrap().unk8, 11);
    assert!(v.unk10[1].value.is_none());
    assert_eq!(v.unk10[2].value.as_ref().unwrap().unk8, 22);
    assert_eq!(archive.calls.get(), 2);
}

#[test]
fn missing_tag_target_fails_the_whole_record() {
    let archive = StubArchive::new();
    let mut buf = vec![0u8; 0x24];
    put_u64(&mut buf, 0x10, 0x8);
    put_u64(&mut buf, 0x18, 1);
    put_u32(&mut buf, 0x20, AssetId::new(9, 9).hash);
    let mut r = ByteReader::new(buf);
    assert!(matches!(Unk80809468::decode(&mut r, &archive), Err(DecodeError::UnresolvedReference)));
}

#[test]
fn tag_field_keeps_its_identifier() {
    let mut archive = StubArchive::new();
    let id = AssetId::new(1, 1);
    archive.entries.insert(id.hash, vec![5, 0, 0, 0, 6, 0, 0, 0]);
    let mut r = ByteReader::new(id.hash.to_le_bytes().to_vec());
    let t = Tag::<Unk80809b3a>::decode(&mut r, &archive).unwrap();
    assert_eq!(t.id, id);
    let v = t.value.unwrap();
    assert_eq!((v.unk0, v.unk4), (5, 6));
}

#[test]
fn null_string_behind_pointer() {
    let mut buf = vec![0u8; 8];
    put_u64(&mut buf, 0, 2);
    buf.extend_from_slice(b"xyabc\0rest");
    let mut r = ByteReader::new(buf);
    assert_eq!(read_null_string(&mut r), Ok(b"abc".to_vec()));
    assert_eq!(r.position(), 8);
    let mut buf = vec![0u8; 8];
    buf.extend_from_slice(b"abc");
    let mut r = ByteReader::new(buf);
    assert_eq!(read_null_string(&mut r), Err(DecodeError::OutOfBounds));
}

#[test]
fn pointed_value_is_decoded_at_target() {
    let archive = StubArchive::new();
    let mut buf = vec![0u8; 8];
    put_u64(&mut buf, 0, 4);
    buf.extend_from_slice(&[0, 0, 0, 0, 9, 0, 0, 0, 8, 0, 0, 0]);
    let mut r = ByteReader::new(buf);
    let v: Unk80809b3a = read_pointed(&mut r, &archive).unwrap();
    assert_eq!((v.unk0, v.unk4), (9, 8));
    assert_eq!(r.position(), 8);
}

#[test]
fn activity_head_record() {
    let archive = StubArchive::new();
    let mut buf = vec![0u8; 0x60];
    put_u64(&mut buf, 0, 0x60);
    put_u32(&mut buf, 8, 0x1234_5678);
    // name right after the record: field at 0x30, target 0x60
    put_u64(&mut buf, 0x30, 0x60 - 0x38);
    buf.extend_from_slice(b"act\0");
    let mut r = ByteReader::new(buf);
    let v = Unk80809994::decode(&mut r, &archive).unwrap();
    assert_eq!(v.unk8, 0x1234_5678);
    assert_eq!(v.unk30, b"act".to_vec());
    assert!(v.unk50.is_empty());
    assert_eq!(r.position(), 0x60);
}

fn bubble_bytes(base: usize, total: usize) -> Vec<u8> {
    let mut buf = vec![0u8; total];
    put_u64(&mut buf, base, 0x58);
    put_u32(&mut buf, base + 8, 0x1234);
    put_u32(&mut buf, base + 0xc, 0x5678);
    // two word pairs right after the record, at base + 0x48
    put_u64(&mut buf, base + 0x20, 0x48 - 0x28);
    put_u64(&mut buf, base + 0x28, 2);
    put_u64(&mut buf, base + 0x30, 99);
    put_u32(&mut buf, base + 0x48, 1);
    put_u32(&mut buf, base + 0x4c, 2);
    put_u32(&mut buf, base + 0x50, 3);
    put_u32(&mut buf, base + 0x54, 4);
    buf
}

#[test]
fn relocated_nested_record_decodes_the_same() {
    let archive = StubArchive::new();
    let mut ra = ByteReader::new(bubble_bytes(0, 0x58));
    let mut rb = ByteReader::at(bubble_bytes(0x101, 0x101 + 0x58 + 3), 0x101);
    let a = Unk80809462::decode(&mut ra, &archive).unwrap();
    let b = Unk80809462::decode(&mut rb, &archive).unwrap();
    assert_eq!((a.file_size, a.unk8, a.unkc, a.unk30), (b.file_size, b.unk8, b.unkc, b.unk30));
    assert_eq!(a.unk30, 99);
    let pairs = |v: &Unk80809462| v.unk20.iter().map(|p| (p.unk0, p.unk4)).collect::<Vec<_>>();
    assert_eq!(pairs(&a), vec![(1, 2), (3, 4)]);
    assert_eq!(pairs(&a), pairs(&b));
    assert!(a.unk38.is_empty() && b.unk38.is_empty());
    assert_eq!(ra.position(), 0x48);
    assert_eq!(rb.position(), 0x101 + 0x48);
}

#[test]
fn decode_entry_reads_from_offset_zero() {
    let archive = StubArchive::new();
    let r: Result<Unk80809b3a, DecodeError> = decode_entry(&archive, None);
    assert!(matches!(r, Err(DecodeError::UnresolvedReference)));
    let r: Result<Unk80809b3a, DecodeError> = decode_entry(&archive, Some(vec![1, 2, 3]));
    assert!(matches!(r, Err(DecodeError::OutOfBounds)));
    let v: Unk80809b3a = decode_entry(&archive, Some(vec![3, 0, 0, 0, 4, 0, 0, 0, 9])).unwrap();
    assert_eq!((v.unk0, v.unk4), (3, 4));
    assert_eq!(archive.calls.get(), 0);
}

#[test]
fn found_tag_decodes_what_the_archive_holds() {
    let mut archive = StubArchive::new();
    let id = AssetId::new(2, 9);
    archive.entries.insert(id.hash, vec![7, 0, 0, 0, 8, 0, 0, 0]);
    let r: Option<Unk80809b3a> = resolve_tag(&archive, id).unwrap();
    let v = r.unwrap();
    assert_eq!((v.unk0, v.unk4), (7, 8));
    archive.entries.insert(id.hash, vec![7, 0, 0]);
    let r: Result<Option<Unk80809b3a>, DecodeError> = resolve_tag(&archive, id);
    assert!(matches!(r, Err(DecodeError::OutOfBounds)));
}
