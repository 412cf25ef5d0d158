use vstd::prelude::*;

use crate::asset_id::AssetId;
use crate::pointer::{
    in_window, lemma_string_relocates, lemma_table_relocates, lemma_window_u32, lemma_window_u64,
    null_string_at, read_null_string, read_table, rel_target, string_within, table_local_ok,
    table_read_from, table_within, terminated_from, ArchiveIndex, Decode, Tag,
};
use crate::reader::{fits, u32_le, u64_le, ByteReader, DecodeError};

verus! {

// Field offsets below are measured from the start of the record. The records
// that carry a `file_size` head an archive entry and are decoded at its offset 0.

/// A pair of 32-bit words (a string index and a hash).
pub struct Unk80809b3a {
    pub unk0: u32,
    pub unk4: u32,
}

impl Decode for Unk80809b3a {
    open spec fn size() -> nat {
        8
    }

    fn stride() -> (n: usize) {
        8
    }

    open spec fn read_from(self, data: Seq<u8>, pos: int) -> bool {
        &&& self.unk0 == u32_le(data, pos)
        &&& self.unk4 == u32_le(data, pos + 4)
    }

    open spec fn local_ok(data: Seq<u8>, pos: int) -> bool {
        fits(data, pos, 8)
    }

    open spec fn within(data: Seq<u8>, pos: int, lo: int, hi: int) -> bool {
        in_window(pos, 8, lo, hi)
    }

    proof fn lemma_relocate(self, d1: Seq<u8>, b1: int, d2: Seq<u8>, b2: int, n: int, k: int) {
        lemma_window_u32(d1, b1, d2, b2, n, k);
        lemma_window_u32(d1, b1, d2, b2, n, k + 4);
    }

    fn decode<A: ArchiveIndex>(r: &mut ByteReader, archive: &A) -> (res: Result<Self, DecodeError>) {
        if !r.has(8) {
            return Err(DecodeError::OutOfBounds);
        }
        let unk0 = r.read_u32().unwrap();
        let unk4 = r.read_u32().unwrap();
        Ok(Unk80809b3a { unk0, unk4 })
    }
}

/// An entity reference pair. The two identifiers name entity records, which
/// their consumer decodes.
pub struct Unk80809b14 {
    pub file_size: u64,
    pub unk8: u32,
    pub unkc: AssetId,
    pub unk10: AssetId,
}

impl Decode for Unk80809b14 {
    open spec fn size() -> nat {
        0x14
    }

    fn stride() -> (n: usize) {
        0x14
    }

    open spec fn read_from(self, data: Seq<u8>, pos: int) -> bool {
        &&& self.file_size == u64_le(data, pos)
        &&& self.unk8 == u32_le(data, pos + 8)
        &&& self.unkc.hash == u32_le(data, pos + 0xc)
        &&& self.unk10.hash == u32_le(data, pos + 0x10)
    }

    open spec fn local_ok(data: Seq<u8>, pos: int) -> bool {
        fits(data, pos, 0x14)
    }

    open spec fn within(data: Seq<u8>, pos: int, lo: int, hi: int) -> bool {
        in_window(pos, 0x14, lo, hi)
    }

    proof fn lemma_relocate(self, d1: Seq<u8>, b1: int, d2: Seq<u8>, b2: int, n: int, k: int) {
        lemma_window_u64(d1, b1, d2, b2, n, k);
        lemma_window_u32(d1, b1, d2, b2, n, k + 8);
        lemma_window_u32(d1, b1, d2, b2, n, k + 0xc);
        lemma_window_u32(d1, b1, d2, b2, n, k + 0x10);
    }

    fn decode<A: ArchiveIndex>(r: &mut ByteReader, archive: &A) -> (res: Result<Self, DecodeError>) {
        if !r.has(0x14) {
            return Err(DecodeError::OutOfBounds);
        }
        let file_size = r.read_u64().unwrap();
        let unk8 = r.read_u32().unwrap();
        let unkc = AssetId::from_raw(r.read_u32().unwrap());
        let unk10 = AssetId::from_raw(r.read_u32().unwrap());
        Ok(Unk80809b14 { file_size, unk8, unkc, unk10 })
    }
}

/// A list of entity reference pairs, each behind its own identifier.
pub struct Unk80809468 {
    pub file_size: u64,
    pub unk8: AssetId,
    pub unk10: Vec<Tag<Unk80809b14>>,
}

impl Decode for Unk80809468 {
    open spec fn size() -> nat {
        0x20
    }

    fn stride() -> (n: usize) {
        0x20
    }

    open spec fn read_from(self, data: Seq<u8>, pos: int) -> bool {
        &&& self.file_size == u64_le(data, pos)
        &&& self.unk8.hash == u32_le(data, pos + 8)
        &&& table_read_from(self.unk10@, data, pos + 0x10)
    }

    open spec fn local_ok(data: Seq<u8>, pos: int) -> bool {
        fits(data, pos, 0x20) && table_local_ok::<Tag<Unk80809b14>>(data, pos + 0x10)
    }

    open spec fn within(data: Seq<u8>, pos: int, lo: int, hi: int) -> bool {
        in_window(pos, 0x20, lo, hi) && table_within::<Tag<Unk80809b14>>(data, pos + 0x10, lo, hi)
    }

    proof fn lemma_relocate(self, d1: Seq<u8>, b1: int, d2: Seq<u8>, b2: int, n: int, k: int) {
        lemma_window_u64(d1, b1, d2, b2, n, k);
        lemma_window_u32(d1, b1, d2, b2, n, k + 8);
        lemma_table_relocates(self.unk10@, d1, b1, d2, b2, n, k + 0x10);
    }

    fn decode<A: ArchiveIndex>(r: &mut ByteReader, archive: &A) -> (res: Result<Self, DecodeError>) {
        if !r.has(0x20) {
            return Err(DecodeError::OutOfBounds);
        }
        let base = r.position();
        let file_size = r.read_u64().unwrap();
        let unk8 = AssetId::from_raw(r.read_u32().unwrap());
        r.seek(base + 0x10);
        let unk10 = match read_table(r, archive) {
            Ok(t) => t,
            Err(e) => return Err(e),
        };
        Ok(Unk80809468 { file_size, unk8, unk10 })
    }
}

/// An entity group: a hash and the entity lists it holds.
pub struct Unk80809464 {
    pub unk0: u32,
    pub unk4: u32,
    pub unk8: Vec<Tag<Unk80809468>>,
}

impl Decode for Unk80809464 {
    open spec fn size() -> nat {
        0x18
    }

    fn stride() -> (n: usize) {
        0x18
    }

    open spec fn read_from(self, data: Seq<u8>, pos: int) -> bool {
        &&& self.unk0 == u32_le(data, pos)
        &&& self.unk4 == u32_le(data, pos + 4)
        &&& table_read_from(self.unk8@, data, pos + 8)
    }

    open spec fn local_ok(data: Seq<u8>, pos: int) -> bool {
        fits(data, pos, 0x18) && table_local_ok::<Tag<Unk80809468>>(data, pos + 8)
    }

    open spec fn within(data: Seq<u8>, pos: int, lo: int, hi: int) -> bool {
        in_window(pos, 0x18, lo, hi) && table_within::<Tag<Unk80809468>>(data, pos + 8, lo, hi)
    }

    proof fn lemma_relocate(self, d1: Seq<u8>, b1: int, d2: Seq<u8>, b2: int, n: int, k: int) {
        lemma_window_u32(d1, b1, d2, b2, n, k);
        lemma_window_u32(d1, b1, d2, b2, n, k + 4);
        lemma_table_relocates(self.unk8@, d1, b1, d2, b2, n, k + 8);
    }

    fn decode<A: ArchiveIndex>(r: &mut ByteReader, archive: &A) -> (res: Result<Self, DecodeError>) {
        if !r.has(0x18) {
            return Err(DecodeError::OutOfBounds);
        }
        let unk0 = r.read_u32().unwrap();
        let unk4 = r.read_u32().unwrap();
        let unk8 = match read_table(r, archive) {
            Ok(t) => t,
            Err(e) => return Err(e),
        };
        Ok(Unk80809464 { unk0, unk4, unk8 })
    }
}

/// An activity's bubble: its hashes, a list of word pairs and its entity groups.
pub struct Unk80809462 {
    pub file_size: u64,
    pub unk8: u32,
    pub unkc: u32,
    pub unk20: Vec<Unk80809b3a>,
    pub unk30: u64,
    pub unk38: Vec<Unk80809464>,
}

impl Decode for Unk80809462 {
    open spec fn size() -> nat {
        0x48
    }

    fn stride() -> (n: usize) {
        0x48
    }

    open spec fn read_from(self, data: Seq<u8>, pos: int) -> bool {
        &&& self.file_size == u64_le(data, pos)
        &&& self.unk8 == u32_le(data, pos + 8)
        &&& self.unkc == u32_le(data, pos + 0xc)
        &&& table_read_from(self.unk20@, data, pos + 0x20)
        &&& self.unk30 == u64_le(data, pos + 0x30)
        &&& table_read_from(self.unk38@, data, pos + 0x38)
    }

    open spec fn local_ok(data: Seq<u8>, pos: int) -> bool {
        &&& fits(data, pos, 0x48)
        &&& table_local_ok::<Unk80809b3a>(data, pos + 0x20)
        &&& table_local_ok::<Unk80809464>(data, pos + 0x38)
    }

    open spec fn within(data: Seq<u8>, pos: int, lo: int, hi: int) -> bool {
        &&& in_window(pos, 0x48, lo, hi)
        &&& table_within::<Unk80809b3a>(data, pos + 0x20, lo, hi)
        &&& table_within::<Unk80809464>(data, pos + 0x38, lo, hi)
    }

    proof fn lemma_relocate(self, d1: Seq<u8>, b1: int, d2: Seq<u8>, b2: int, n: int, k: int) {
        lemma_window_u64(d1, b1, d2, b2, n, k);
        lemma_window_u32(d1, b1, d2, b2, n, k + 8);
        lemma_window_u32(d1, b1, d2, b2, n, k + 0xc);
        lemma_table_relocates(self.unk20@, d1, b1, d2, b2, n, k + 0x20);
        lemma_window_u64(d1, b1, d2, b2, n, k + 0x30);
        lemma_table_relocates(self.unk38@, d1, b1, d2, b2, n, k + 0x38);
    }

    fn decode<A: ArchiveIndex>(r: &mut ByteReader, archive: &A) -> (res: Result<Self, DecodeError>) {
        if !r.has(0x48) {
            return Err(DecodeError::OutOfBounds);
        }
        let base = r.position();
        let file_size = r.read_u64().unwrap();
        let unk8 = r.read_u32().unwrap();
        let unkc = r.read_u32().unwrap();
        r.seek(base + 0x20);
        let unk20 = match read_table(r, archive) {
            Ok(t) => t,
            Err(e) => return Err(e),
        };
        let unk30 = r.read_u64().unwrap();
        let unk38 = match read_table(r, archive) {
            Ok(t) => t,
            Err(e) => return Err(e),
        };
        Ok(Unk80809462 { file_size, unk8, unkc, unk20, unk30, unk38 })
    }
}

/// A reference to a bubble.
pub struct Unk80809260 {
    pub unk0: Tag<Unk80809462>,
}

impl Decode for Unk80809260 {
    open spec fn size() -> nat {
        4
    }

    fn stride() -> (n: usize) {
        4
    }

    open spec fn read_from(self, data: Seq<u8>, pos: int) -> bool {
        self.unk0.read_from(data, pos)
    }

    open spec fn local_ok(data: Seq<u8>, pos: int) -> bool {
        Tag::<Unk80809462>::local_ok(data, pos)
    }

    open spec fn within(data: Seq<u8>, pos: int, lo: int, hi: int) -> bool {
        Tag::<Unk80809462>::within(data, pos, lo, hi)
    }

    proof fn lemma_relocate(self, d1: Seq<u8>, b1: int, d2: Seq<u8>, b2: int, n: int, k: int) {
        self.unk0.lemma_relocate(d1, b1, d2, b2, n, k);
    }

    fn decode<A: ArchiveIndex>(r: &mut ByteReader, archive: &A) -> (res: Result<Self, DecodeError>) {
        match Tag::<Unk80809462>::decode(r, archive) {
            Ok(unk0) => Ok(Unk80809260 { unk0 }),
            Err(e) => Err(e),
        }
    }
}

/// Two lists of bubble references.
pub struct Unk8080925e {
    pub file_size: u64,
    pub unk8: Vec<Unk80809260>,
    pub unk28: Vec<Unk80809260>,
}

impl Decode for Unk8080925e {
    open spec fn size() -> nat {
        0x38
    }

    fn stride() -> (n: usize) {
        0x38
    }

    open spec fn read_from(self, data: Seq<u8>, pos: int) -> bool {
        &&& self.file_size == u64_le(data, pos)
        &&& table_read_from(self.unk8@, data, pos + 8)
        &&& table_read_from(self.unk28@, data, pos + 0x28)
    }

    open spec fn local_ok(data: Seq<u8>, pos: int) -> bool {
        &&& fits(data, pos, 0x38)
        &&& table_local_ok::<Unk80809260>(data, pos + 8)
        &&& table_local_ok::<Unk80809260>(data, pos + 0x28)
    }

    open spec fn within(data: Seq<u8>, pos: int, lo: int, hi: int) -> bool {
        &&& in_window(pos, 0x38, lo, hi)
        &&& table_within::<Unk80809260>(data, pos + 8, lo, hi)
        &&& table_within::<Unk80809260>(data, pos + 0x28, lo, hi)
    }

    proof fn lemma_relocate(self, d1: Seq<u8>, b1: int, d2: Seq<u8>, b2: int, n: int, k: int) {
        lemma_window_u64(d1, b1, d2, b2, n, k);
        lemma_table_relocates(self.unk8@, d1, b1, d2, b2, n, k + 8);
        lemma_table_relocates(self.unk28@, d1, b1, d2, b2, n, k + 0x28);
    }

    fn decode<A: ArchiveIndex>(r: &mut ByteReader, archive: &A) -> (res: Result<Self, DecodeError>) {
        if !r.has(0x38) {
            return Err(DecodeError::OutOfBounds);
        }
        let base = r.position();
        let file_size = r.read_u64().unwrap();
        let unk8 = match read_table(r, archive) {
            Ok(t) => t,
            Err(e) => return Err(e),
        };
        r.seek(base + 0x28);
        let unk28 = match read_table(r, archive) {
            Ok(t) => t,
            Err(e) => return Err(e),
        };
        Ok(Unk8080925e { file_size, unk8, unk28 })
    }
}

/// A named phase: its name and the bubble lists it refers to.
pub struct Unk8080925b {
    pub file_size: u64,
    pub unk8: Vec<u8>,
    pub unk10: u32,
    pub unk14: Tag<Unk8080925e>,
}

impl Decode for Unk8080925b {
    open spec fn size() -> nat {
        0x18
    }

    fn stride() -> (n: usize) {
        0x18
    }

    open spec fn read_from(self, data: Seq<u8>, pos: int) -> bool {
        &&& self.file_size == u64_le(data, pos)
        &&& null_string_at(data, rel_target(data, pos + 8), self.unk8@)
        &&& self.unk10 == u32_le(data, pos + 0x10)
        &&& self.unk14.read_from(data, pos + 0x14)
    }

    open spec fn local_ok(data: Seq<u8>, pos: int) -> bool {
        &&& fits(data, pos, 0x18)
        &&& terminated_from(data, rel_target(data, pos + 8))
        &&& Tag::<Unk8080925e>::local_ok(data, pos + 0x14)
    }

    open spec fn within(data: Seq<u8>, pos: int, lo: int, hi: int) -> bool {
        &&& in_window(pos, 0x18, lo, hi)
        &&& string_within(data, pos + 8, lo, hi)
    }

    proof fn lemma_relocate(self, d1: Seq<u8>, b1: int, d2: Seq<u8>, b2: int, n: int, k: int) {
        lemma_window_u64(d1, b1, d2, b2, n, k);
        lemma_string_relocates(self.unk8@, d1, b1, d2, b2, n, k + 8);
        lemma_window_u32(d1, b1, d2, b2, n, k + 0x10);
        self.unk14.lemma_relocate(d1, b1, d2, b2, n, k + 0x14);
    }

    fn decode<A: ArchiveIndex>(r: &mut ByteReader, archive: &A) -> (res: Result<Self, DecodeError>) {
        if !r.has(0x18) {
            return Err(DecodeError::OutOfBounds);
        }
        let file_size = r.read_u64().unwrap();
        let unk8 = match read_null_string(r) {
            Ok(s) => s,
            Err(e) => return Err(e),
        };
        let unk10 = r.read_u32().unwrap();
        let unk14 = match Tag::<Unk8080925e>::decode(r, archive) {
            Ok(t) => t,
            Err(e) => return Err(e),
        };
        Ok(Unk8080925b { file_size, unk8, unk10, unk14 })
    }
}

/// One phase entry of an activity.
pub struct Unk8080924f {
    pub unk0: u32,
    pub unk4: u32,
    pub unk44: Tag<Unk8080925b>,
    pub unk48: u32,
}

impl Decode for Unk8080924f {
    open spec fn size() -> nat {
        0x4c
    }

    fn stride() -> (n: usize) {
        0x4c
    }

    open spec fn read_from(self, data: Seq<u8>, pos: int) -> bool {
        &&& self.unk0 == u32_le(data, pos)
        &&& self.unk4 == u32_le(data, pos + 4)
        &&& self.unk44.read_from(data, pos + 0x44)
        &&& self.unk48 == u32_le(data, pos + 0x48)
    }

    open spec fn local_ok(data: Seq<u8>, pos: int) -> bool {
        fits(data, pos, 0x4c) && Tag::<Unk8080925b>::local_ok(data, pos + 0x44)
    }

    open spec fn within(data: Seq<u8>, pos: int, lo: int, hi: int) -> bool {
        in_window(pos, 0x4c, lo, hi)
    }

    proof fn lemma_relocate(self, d1: Seq<u8>, b1: int, d2: Seq<u8>, b2: int, n: int, k: int) {
        lemma_window_u32(d1, b1, d2, b2, n, k);
        lemma_window_u32(d1, b1, d2, b2, n, k + 4);
        self.unk44.lemma_relocate(d1, b1, d2, b2, n, k + 0x44);
        lemma_window_u32(d1, b1, d2, b2, n, k + 0x48);
    }

    fn decode<A: ArchiveIndex>(r: &mut ByteReader, archive: &A) -> (res: Result<Self, DecodeError>) {
        if !r.has(0x4c) {
            return Err(DecodeError::OutOfBounds);
        }
        let base = r.position();
        let unk0 = r.read_u32().unwrap();
        let unk4 = r.read_u32().unwrap();
        r.seek(base + 0x44);
        let unk44 = match Tag::<Unk8080925b>::decode(r, archive) {
            Ok(t) => t,
            Err(e) => return Err(e),
        };
        let unk48 = r.read_u32().unwrap();
        Ok(Unk8080924f { unk0, unk4, unk44, unk48 })
    }
}

/// A list of phase entries.
pub struct Unk8080924d {
    pub unk0: u64,
    pub unk8: Vec<Unk8080924f>,
}

impl Decode for Unk8080924d {
    open spec fn size() -> nat {
        0x18
    }

    fn stride() -> (n: usize) {
        0x18
    }

    open spec fn read_from(self, data: Seq<u8>, pos: int) -> bool {
        &&& self.unk0 == u64_le(data, pos)
        &&& table_read_from(self.unk8@, data, pos + 8)
    }

    open spec fn local_ok(data: Seq<u8>, pos: int) -> bool {
        fits(data, pos, 0x18) && table_local_ok::<Unk8080924f>(data, pos + 8)
    }

    open spec fn within(data: Seq<u8>, pos: int, lo: int, hi: int) -> bool {
        in_window(pos, 0x18, lo, hi) && table_within::<Unk8080924f>(data, pos + 8, lo, hi)
    }

    proof fn lemma_relocate(self, d1: Seq<u8>, b1: int, d2: Seq<u8>, b2: int, n: int, k: int) {
        lemma_window_u64(d1, b1, d2, b2, n, k);
        lemma_table_relocates(self.unk8@, d1, b1, d2, b2, n, k + 8);
    }

    fn decode<A: ArchiveIndex>(r: &mut ByteReader, archive: &A) -> (res: Result<Self, DecodeError>) {
        if !r.has(0x18) {
            return Err(DecodeError::OutOfBounds);
        }
        let unk0 = r.read_u64().unwrap();
        let unk8 = match read_table(r, archive) {
            Ok(t) => t,
            Err(e) => return Err(e),
        };
        Ok(Unk8080924d { unk0, unk8 })
    }
}

/// The head record of an activity entry: its name and its phase lists.
pub struct Unk80809994 {
    pub file_size: u64,
    pub unk8: u32,
    pub unk30: Vec<u8>,
    pub unk50: Vec<Unk8080924d>,
}

impl Decode for Unk80809994 {
    open spec fn size() -> nat {
        0x60
    }

    fn stride() -> (n: usize) {
        0x60
    }

    open spec fn read_from(self, data: Seq<u8>, pos: int) -> bool {
        &&& self.file_size == u64_le(data, pos)
        &&& self.unk8 == u32_le(data, pos + 8)
        &&& null_string_at(data, rel_target(data, pos + 0x30), self.unk30@)
        &&& table_read_from(self.unk50@, data, pos + 0x50)
    }

    open spec fn local_ok(data: Seq<u8>, pos: int) -> bool {
        &&& fits(data, pos, 0x60)
        &&& terminated_from(data, rel_target(data, pos + 0x30))
        &&& table_local_ok::<Unk8080924d>(data, pos + 0x50)
    }

    open spec fn within(data: Seq<u8>, pos: int, lo: int, hi: int) -> bool {
        &&& in_window(pos, 0x60, lo, hi)
        &&& string_within(data, pos + 0x30, lo, hi)
        &&& table_within::<Unk8080924d>(data, pos + 0x50, lo, hi)
    }

    proof fn lemma_relocate(self, d1: Seq<u8>, b1: int, d2: Seq<u8>, b2: int, n: int, k: int) {
        lemma_window_u64(d1, b1, d2, b2, n, k);
        lemma_window_u32(d1, b1, d2, b2, n, k + 8);
        lemma_string_relocates(self.unk30@, d1, b1, d2, b2, n, k + 0x30);
        lemma_table_relocates(self.unk50@, d1, b1, d2, b2, n, k + 0x50);
    }

    fn decode<A: ArchiveIndex>(r: &mut ByteReader, archive: &A) -> (res: Result<Self, DecodeError>) {
        if !r.has(0x60) {
            return Err(DecodeError::OutOfBounds);
        }
        let base = r.position();
        let file_size = r.read_u64().unwrap();
        let unk8 = r.read_u32().unwrap();
        r.seek(base + 0x30);
        let unk30 = match read_null_string(r) {
            Ok(s) => s,
            Err(e) => return Err(e),
        };
        r.seek(base + 0x50);
        let unk50 = match read_table(r, archive) {
            Ok(t) => t,
            Err(e) => return Err(e),
        };
        r.seek(base + 0x60);
        Ok(Unk80809994 { file_size, unk8, unk30, unk50 })
    }
}

} // verus!
