use vstd::prelude::*;

use crate::asset_id::AssetId;
use crate::reader::{fits, u16_le, u32_le, u64_le, ByteReader, DecodeError};

verus! {

/// Width of a stored relative offset.
pub const OFFSET_WIDTH: usize = 8;

/// Width of a table pointer: a relative offset followed by an element count.
pub const TABLE_WIDTH: usize = 16;

/// What the archive declares about one entry.
#[derive(Clone, Copy, Debug, PartialEq, Eq, Structural)]
pub struct EntryMeta {
    pub kind: u8,
    pub subkind: u8,
    /// The entry that holds the raw data this one describes.
    pub reference: AssetId,
}

/// The process-wide index from identifiers to entry bytes. Only valid
/// identifiers are ever handed to it.
pub trait ArchiveIndex {
    /// The bytes of entry `id`, or `None` where the index cannot locate it.
    fn resolve(&self, id: AssetId) -> (r: Option<Vec<u8>>)
        requires
            id.valid(),
    ;

    /// What the index declares about entry `id`, or `None` where it cannot locate it.
    fn entry_metadata(&self, id: AssetId) -> (r: Option<EntryMeta>)
        requires
            id.valid(),
    ;
}

/// A fixed-size record layout that can be decoded from a byte source.
pub trait Decode: Sized {
    /// Bytes one value occupies in place (its stride inside a table).
    spec fn size() -> nat;

    fn stride() -> (n: usize)
        ensures
            n as nat == Self::size(),
            n > 0,
    ;

    /// `self` is what the bytes of `data` at `pos` describe: fields read in
    /// place, tables and pointers followed inside `data`.
    spec fn read_from(self, data: Seq<u8>, pos: int) -> bool;

    /// Decoding at `pos` stays inside `data` and never needs the archive.
    spec fn local_ok(data: Seq<u8>, pos: int) -> bool;

    /// Every byte that decoding at `pos` reads lies in `[lo, hi)`.
    spec fn within(data: Seq<u8>, pos: int, lo: int, hi: int) -> bool;

    /// A value decoded from bytes that lie inside a window is also what the
    /// same bytes decode to wherever the window is put.
    proof fn lemma_relocate(self, d1: Seq<u8>, b1: int, d2: Seq<u8>, b2: int, n: int, k: int)
        requires
            same_window(d1, b1, d2, b2, n),
            0 <= k,
            Self::within(d1, b1 + k, b1, b1 + n),
            self.read_from(d1, b1 + k),
        ensures
            self.read_from(d2, b2 + k),
            Self::within(d2, b2 + k, b2, b2 + n),
    ;

    fn decode<A: ArchiveIndex>(r: &mut ByteReader, archive: &A) -> (res: Result<Self, DecodeError>)
        ensures
            final(r).data() == old(r).data(),
            res is Ok ==> final(r).pos() == old(r).pos() + Self::size(),
            res matches Ok(v) ==> v.read_from(old(r).data(), old(r).pos()),
            !fits(old(r).data(), old(r).pos(), Self::size() as int) ==> res == Err::<Self, DecodeError>(
                DecodeError::OutOfBounds,
            ),
            Self::local_ok(old(r).data(), old(r).pos()) ==> res is Ok,
    ;
}

/// The absolute offset that the relative offset stored at `pos` designates:
/// measured from the end of the offset field.
pub open spec fn rel_target(data: Seq<u8>, pos: int) -> int {
    pos + OFFSET_WIDTH + u64_le(data, pos)
}

/// The element count of the table pointer at `pos`.
pub open spec fn table_count(data: Seq<u8>, pos: int) -> int {
    u64_le(data, pos + OFFSET_WIDTH) as int
}

/// Where element `i` of the table pointer at `pos` starts.
pub open spec fn element_at<T: Decode>(data: Seq<u8>, pos: int, i: int) -> int {
    rel_target(data, pos) + i * T::size()
}

/// `items` is the table that the table pointer at `pos` describes.
pub open spec fn table_read_from<T: Decode>(items: Seq<T>, data: Seq<u8>, pos: int) -> bool {
    &&& items.len() == table_count(data, pos)
    &&& forall|i: int|
        0 <= i < items.len() ==> #[trigger] items[i].read_from(data, element_at::<T>(data, pos, i))
}

/// The elements of the non-empty table at `pos` lie inside `data`.
pub open spec fn table_in_bounds<T: Decode>(data: Seq<u8>, pos: int) -> bool {
    &&& rel_target(data, pos) <= u64::MAX
    &&& table_count(data, pos) * T::size() <= u64::MAX
    &&& rel_target(data, pos) + table_count(data, pos) * T::size() <= data.len()
}

/// Decoding the table at `pos` stays inside `data` and never needs the archive.
pub open spec fn table_local_ok<T: Decode>(data: Seq<u8>, pos: int) -> bool {
    &&& fits(data, pos, TABLE_WIDTH as int)
    &&& (table_count(data, pos) == 0 || {
        &&& table_in_bounds::<T>(data, pos)
        &&& forall|i: int|
            0 <= i < table_count(data, pos) ==> #[trigger] T::local_ok(
                data,
                element_at::<T>(data, pos, i),
            )
    })
}

/// Reads the relative offset at the cursor and returns the absolute offset it
/// designates; the cursor ends right after the field.
pub fn read_relative_pointer(r: &mut ByteReader) -> (res: Result<u64, DecodeError>)
    ensures
        final(r).data() == old(r).data(),
        res is Ok ==> final(r).pos() == old(r).pos() + OFFSET_WIDTH,
        fits(old(r).data(), old(r).pos(), OFFSET_WIDTH as int) && rel_target(old(r).data(), old(r).pos()) <= u64::MAX
            ==> res == Ok::<u64, DecodeError>(rel_target(old(r).data(), old(r).pos()) as u64),
        !(fits(old(r).data(), old(r).pos(), OFFSET_WIDTH as int) && rel_target(old(r).data(), old(r).pos()) <= u64::MAX)
            ==> res == Err::<u64, DecodeError>(DecodeError::OutOfBounds),
{
    let field = r.position();
    let stored = match r.read_u64() {
        Ok(v) => v,
        Err(e) => return Err(e),
    };
    let base = field as u64;
    if base > u64::MAX - 8 || stored > u64::MAX - 8 - base {
        return Err(DecodeError::OutOfBounds);
    }
    Ok(base + 8 + stored)
}

/// Reads the table pointer at the cursor: the absolute offset of its first
/// element and its element count. An empty table yields `(0, 0)` whatever its
/// stored offset. The cursor ends right after the table pointer.
pub fn read_table_pointer(r: &mut ByteReader) -> (res: Result<(u64, u64), DecodeError>)
    ensures
        final(r).data() == old(r).data(),
        res is Ok ==> final(r).pos() == old(r).pos() + TABLE_WIDTH,
        !fits(old(r).data(), old(r).pos(), TABLE_WIDTH as int) ==> res == Err::<(u64, u64), DecodeError>(
            DecodeError::OutOfBounds,
        ),
        fits(old(r).data(), old(r).pos(), TABLE_WIDTH as int) && table_count(old(r).data(), old(r).pos()) == 0
            ==> res == Ok::<(u64, u64), DecodeError>((0, 0)),
        fits(old(r).data(), old(r).pos(), TABLE_WIDTH as int) && table_count(old(r).data(), old(r).pos()) > 0
            ==> if rel_target(old(r).data(), old(r).pos()) <= u64::MAX {
            res == Ok::<(u64, u64), DecodeError>(
                (
                    rel_target(old(r).data(), old(r).pos()) as u64,
                    table_count(old(r).data(), old(r).pos()) as u64,
                ),
            )
        } else {
            res == Err::<(u64, u64), DecodeError>(DecodeError::OutOfBounds)
        },
{
    if !r.has(TABLE_WIDTH) {
        return Err(DecodeError::OutOfBounds);
    }
    let field = r.position();
    let stored = r.read_u64().unwrap();
    let count = r.read_u64().unwrap();
    if count == 0 {
        return Ok((0, 0));
    }
    let base = field as u64;
    if base > u64::MAX - 8 || stored > u64::MAX - 8 - base {
        return Err(DecodeError::OutOfBounds);
    }
    Ok((base + 8 + stored, count))
}

/// Decodes the table that the table pointer at the cursor describes: its
/// elements one after another from the designated offset, `T::size()` apart.
/// The cursor ends right after the table pointer, never at the elements; an
/// empty table is never followed.
pub fn read_table<T: Decode, A: ArchiveIndex>(r: &mut ByteReader, archive: &A) -> (res: Result<Vec<T>, DecodeError>)
    ensures
        final(r).data() == old(r).data(),
        res is Ok ==> final(r).pos() == old(r).pos() + TABLE_WIDTH,
        res matches Ok(items) ==> table_read_from(items@, old(r).data(), old(r).pos()),
        !fits(old(r).data(), old(r).pos(), TABLE_WIDTH as int) ==> res == Err::<Vec<T>, DecodeError>(
            DecodeError::OutOfBounds,
        ),
        fits(old(r).data(), old(r).pos(), TABLE_WIDTH as int) && table_count(old(r).data(), old(r).pos()) == 0
            ==> (res matches Ok(items) && items@.len() == 0),
        fits(old(r).data(), old(r).pos(), TABLE_WIDTH as int) && table_count(old(r).data(), old(r).pos()) > 0
            && !table_in_bounds::<T>(old(r).data(), old(r).pos()) ==> res == Err::<Vec<T>, DecodeError>(
            DecodeError::OutOfBounds,
        ),
        table_local_ok::<T>(old(r).data(), old(r).pos()) ==> res is Ok,
{
    let ghost data = r.data();
    let ghost field = r.pos();
    let (target, count) = match read_table_pointer(r) {
        Ok(tc) => tc,
        Err(e) => return Err(e),
    };
    let mut items: Vec<T> = Vec::new();
    if count == 0 {
        return Ok(items);
    }
    let after = r.position();
    let size = T::stride();
    if count > u64::MAX / (size as u64) {
        proof {
            assert(count * size > u64::MAX) by (nonlinear_arith)
                requires
                    count > u64::MAX / (size as u64),
                    size > 0,
            ;
        }
        return Err(DecodeError::OutOfBounds);
    }
    proof {
        assert(count * size <= u64::MAX) by (nonlinear_arith)
            requires
                count <= u64::MAX / (size as u64),
                size > 0,
        ;
    }
    let total: u64 = count * (size as u64);
    let len = r.len();
    if target > len as u64 || total > len as u64 - target {
        return Err(DecodeError::OutOfBounds);
    }
    r.seek(target as usize);
    let mut i: u64 = 0;
    while i < count
        invariant
            r.data() == data,
            data == old(r).data(),
            field == old(r).pos(),
            0 < count,
            fits(data, field, TABLE_WIDTH as int),
            count * size <= u64::MAX,
            0 <= i <= count,
            count == table_count(data, field),
            target == rel_target(data, field),
            size as nat == T::size(),
            target + count * size <= data.len(),
            r.pos() == target + i * size,
            items@.len() == i,
            forall|j: int|
                0 <= j < i ==> #[trigger] items@[j].read_from(data, element_at::<T>(data, field, j)),
            table_local_ok::<T>(data, field) ==> forall|j: int|
                0 <= j < count ==> #[trigger] T::local_ok(data, element_at::<T>(data, field, j)),
        decreases count - i,
    {
        proof {
            assert(target + i * size + size <= target + count * size) by (nonlinear_arith)
                requires
                    i < count,
            ;
            assert(element_at::<T>(data, field, i as int) == target + i * size);
        }
        let v = match T::decode(r, archive) {
            Ok(v) => v,
            Err(e) => return Err(e),
        };
        items.push(v);
        i = i + 1;
        proof {
            assert(target + (i - 1) * size + size == target + i * size) by (nonlinear_arith);
        }
    }
    r.seek(after);
    Ok(items)
}

/// Decodes the value that the relative pointer at the cursor designates. The
/// cursor ends right after the pointer field.
pub fn read_pointed<T: Decode, A: ArchiveIndex>(r: &mut ByteReader, archive: &A) -> (res: Result<T, DecodeError>)
    ensures
        final(r).data() == old(r).data(),
        res is Ok ==> final(r).pos() == old(r).pos() + OFFSET_WIDTH,
        res matches Ok(v) ==> v.read_from(old(r).data(), rel_target(old(r).data(), old(r).pos())),
        !(fits(old(r).data(), old(r).pos(), OFFSET_WIDTH as int) && fits(
            old(r).data(),
            rel_target(old(r).data(), old(r).pos()),
            T::size() as int,
        )) ==> res == Err::<T, DecodeError>(DecodeError::OutOfBounds),
        fits(old(r).data(), old(r).pos(), OFFSET_WIDTH as int) && fits(
            old(r).data(),
            rel_target(old(r).data(), old(r).pos()),
            T::size() as int,
        ) && T::local_ok(old(r).data(), rel_target(old(r).data(), old(r).pos())) ==> res is Ok,
{
    let len = r.len();
    let target = match read_relative_pointer(r) {
        Ok(t) => t,
        Err(e) => return Err(e),
    };
    let after = r.position();
    if target > len as u64 {
        return Err(DecodeError::OutOfBounds);
    }
    r.seek(target as usize);
    let v = match T::decode(r, archive) {
        Ok(v) => v,
        Err(e) => return Err(e),
    };
    r.seek(after);
    Ok(v)
}

/// An identifier stored in a record, with the record it refers to: `None`
/// exactly where the identifier is invalid.
pub struct Tag<T> {
    pub id: AssetId,
    pub value: Option<T>,
}

/// Decodes a `T` from offset 0 of the bytes the archive handed back for an
/// entry; no bytes means the entry could not be located.
pub fn decode_entry<T: Decode, A: ArchiveIndex>(archive: &A, bytes: Option<Vec<u8>>) -> (res: Result<T, DecodeError>)
    ensures
        bytes is None ==> res == Err::<T, DecodeError>(DecodeError::UnresolvedReference),
        bytes is Some ==> (res matches Ok(v) ==> v.read_from(bytes->Some_0@, 0)),
        bytes is Some && !fits(bytes->Some_0@, 0, T::size() as int) ==> res == Err::<T, DecodeError>(
            DecodeError::OutOfBounds,
        ),
        bytes is Some && T::local_ok(bytes->Some_0@, 0) ==> res is Ok,
{
    match bytes {
        None => Err(DecodeError::UnresolvedReference),
        Some(b) => {
            let mut r = ByteReader::new(b);
            T::decode(&mut r, archive)
        },
    }
}

/// Looks `id` up in the archive and decodes a `T` from offset 0 of the entry's
/// bytes. An invalid identifier is absent and never reaches the archive; a
/// valid one is decoded from exactly what the archive gives for it.
pub fn resolve_tag<T: Decode, A: ArchiveIndex>(archive: &A, id: AssetId) -> (res: Result<Option<T>, DecodeError>)
    ensures
        !id.valid() ==> res == Ok::<Option<T>, DecodeError>(None),
        id.valid() ==> !(res matches Ok(None)),
        res matches Ok(Some(v)) ==> exists|bytes: Seq<u8>| #[trigger] v.read_from(bytes, 0),
{
    if !id.is_valid() {
        return Ok(None);
    }
    let bytes = archive.resolve(id);
    let ghost found = bytes;
    match decode_entry::<T, A>(archive, bytes) {
        Ok(v) => {
            assert(v.read_from(found->Some_0@, 0));
            let out: Result<Option<T>, DecodeError> = Ok(Some(v));
            assert(out matches Ok(Some(w)) && w.read_from(found->Some_0@, 0));
            out
        },
        Err(e) => Err(e),
    }
}

impl<T: Decode> Decode for Tag<T> {
    open spec fn size() -> nat {
        4
    }

    fn stride() -> (n: usize) {
        4
    }

    open spec fn read_from(self, data: Seq<u8>, pos: int) -> bool {
        &&& self.id.hash == u32_le(data, pos)
        &&& (self.value is Some <==> self.id.valid())
        &&& (self.value matches Some(v) ==> exists|bytes: Seq<u8>| #[trigger] v.read_from(bytes, 0))
    }

    open spec fn local_ok(data: Seq<u8>, pos: int) -> bool {
        fits(data, pos, 4) && !crate::asset_id::id_valid(u32_le(data, pos))
    }

    open spec fn within(data: Seq<u8>, pos: int, lo: int, hi: int) -> bool {
        in_window(pos, 4, lo, hi)
    }

    proof fn lemma_relocate(self, d1: Seq<u8>, b1: int, d2: Seq<u8>, b2: int, n: int, k: int) {
        lemma_window_u32(d1, b1, d2, b2, n, k);
    }

    fn decode<A: ArchiveIndex>(r: &mut ByteReader, archive: &A) -> (res: Result<Self, DecodeError>) {
        let id = match r.read_u32() {
            Ok(h) => AssetId::from_raw(h),
            Err(e) => return Err(e),
        };
        match resolve_tag(archive, id) {
            Ok(value) => Ok(Tag { id, value }),
            Err(e) => Err(e),
        }
    }
}

impl Decode for u32 {
    open spec fn size() -> nat {
        4
    }

    fn stride() -> (n: usize) {
        4
    }

    open spec fn read_from(self, data: Seq<u8>, pos: int) -> bool {
        self == u32_le(data, pos)
    }

    open spec fn local_ok(data: Seq<u8>, pos: int) -> bool {
        fits(data, pos, 4)
    }

    open spec fn within(data: Seq<u8>, pos: int, lo: int, hi: int) -> bool {
        in_window(pos, 4, lo, hi)
    }

    proof fn lemma_relocate(self, d1: Seq<u8>, b1: int, d2: Seq<u8>, b2: int, n: int, k: int) {
        lemma_window_u32(d1, b1, d2, b2, n, k);
    }

    fn decode<A: ArchiveIndex>(r: &mut ByteReader, archive: &A) -> (res: Result<Self, DecodeError>) {
        r.read_u32()
    }
}

/// Decodes a table of little-endian `u32` values.
pub fn read_u32_table<A: ArchiveIndex>(r: &mut ByteReader, archive: &A) -> (res: Result<Vec<u32>, DecodeError>)
    ensures
        final(r).data() == old(r).data(),
        res is Ok ==> final(r).pos() == old(r).pos() + TABLE_WIDTH,
        res matches Ok(items) ==> items@.len() == table_count(old(r).data(), old(r).pos())
            && forall|i: int| 0 <= i < items@.len() ==> #[trigger] items@[i] == u32_le(
            old(r).data(),
            rel_target(old(r).data(), old(r).pos()) + 4 * i,
        ),
        table_local_ok::<u32>(old(r).data(), old(r).pos()) ==> res is Ok,
        !table_local_ok::<u32>(old(r).data(), old(r).pos()) ==> res is Err,
{
    let ghost data = r.data();
    let ghost field = r.pos();
    let res = read_table::<u32, A>(r, archive);
    proof {
        if res is Ok {
            let items = res->Ok_0@;
            assert forall|i: int| 0 <= i < items.len() implies #[trigger] items[i] == u32_le(data, rel_target(data, field) + 4 * i) by {
                assert(items[i].read_from(data, element_at::<u32>(data, field, i)));
            }
        }
    }
    res
}

/// `s` is the NUL-terminated byte string that starts at `start` (terminator excluded).
pub open spec fn null_string_at(data: Seq<u8>, start: int, s: Seq<u8>) -> bool {
    &&& 0 <= start
    &&& start + s.len() < data.len()
    &&& data[start + s.len()] == 0
    &&& s == data.subrange(start, start + s.len())
    &&& forall|i: int| 0 <= i < s.len() ==> #[trigger] s[i] != 0
}

/// A NUL byte follows `start` inside `data`.
pub open spec fn terminated_from(data: Seq<u8>, start: int) -> bool {
    exists|k: int| 0 <= start <= k < data.len() && #[trigger] data[k] == 0
}

/// Reads the NUL-terminated string that the relative pointer at the cursor
/// designates. The cursor ends right after the pointer field.
pub fn read_null_string(r: &mut ByteReader) -> (res: Result<Vec<u8>, DecodeError>)
    ensures
        final(r).data() == old(r).data(),
        res is Ok ==> final(r).pos() == old(r).pos() + OFFSET_WIDTH,
        res matches Ok(s) ==> null_string_at(old(r).data(), rel_target(old(r).data(), old(r).pos()), s@),
        fits(old(r).data(), old(r).pos(), OFFSET_WIDTH as int) && terminated_from(
            old(r).data(),
            rel_target(old(r).data(), old(r).pos()),
        ) ==> res is Ok,
        !(fits(old(r).data(), old(r).pos(), OFFSET_WIDTH as int) && terminated_from(
            old(r).data(),
            rel_target(old(r).data(), old(r).pos()),
        )) ==> res == Err::<Vec<u8>, DecodeError>(DecodeError::OutOfBounds),
{
    let ghost data = r.data();
    let len = r.len();
    let target = match read_relative_pointer(r) {
        Ok(t) => t,
        Err(e) => {
            proof {
                if fits(data, old(r).pos(), OFFSET_WIDTH as int) && terminated_from(data, rel_target(data, old(r).pos())) {
                    let k = choose|k: int| 0 <= rel_target(data, old(r).pos()) <= k < data.len() && #[trigger] data[k] == 0;
                }
            }
            return Err(e);
        },
    };
    let after = r.position();
    if target >= len as u64 {
        return Err(DecodeError::OutOfBounds);
    }
    let start = target as usize;
    r.seek(start);
    let mut out: Vec<u8> = Vec::new();
    loop
        invariant
            r.data() == data,
            data == old(r).data(),
            len == data.len(),
            start == rel_target(data, old(r).pos()),
            after == old(r).pos() + OFFSET_WIDTH,
            fits(data, old(r).pos(), OFFSET_WIDTH as int),
            start <= r.pos() <= len,
            r.pos() == start + out@.len(),
            out@ == data.subrange(start as int, r.pos()),
            forall|i: int| start <= i < r.pos() ==> data[i] != 0,
        decreases len - r.pos(),
    {
        let b = match r.read_u8() {
            Ok(b) => b,
            Err(e) => {
                proof {
                    assert forall|k: int| 0 <= start <= k < data.len() implies #[trigger] data[k] != 0 by {}
                }
                return Err(e);
            },
        };
        if b == 0 {
            proof {
                let k = r.pos() - 1;
                assert(data[k] == 0);
                assert(terminated_from(data, start as int));
            }
            r.seek(after);
            return Ok(out);
        }
        out.push(b);
        proof {
            assert(out@ =~= data.subrange(start as int, r.pos()));
        }
    }
}

/// The bytes of `d1` at `b1` and of `d2` at `b2` agree over `n` bytes.
pub open spec fn same_window(d1: Seq<u8>, b1: int, d2: Seq<u8>, b2: int, n: int) -> bool {
    &&& 0 <= b1
    &&& 0 <= b2
    &&& 0 <= n
    &&& b1 + n <= d1.len()
    &&& b2 + n <= d2.len()
    &&& d1.subrange(b1, b1 + n) == d2.subrange(b2, b2 + n)
}

pub proof fn lemma_window_bytes(d1: Seq<u8>, b1: int, d2: Seq<u8>, b2: int, n: int, j: int)
    requires
        same_window(d1, b1, d2, b2, n),
        0 <= j < n,
    ensures
        d1[b1 + j] == d2[b2 + j],
{
    assert(d1.subrange(b1, b1 + n)[j] == d2.subrange(b2, b2 + n)[j]);
}

pub proof fn lemma_window_u32(d1: Seq<u8>, b1: int, d2: Seq<u8>, b2: int, n: int, k: int)
    requires
        same_window(d1, b1, d2, b2, n),
        0 <= k,
        k + 4 <= n,
    ensures
        u32_le(d1, b1 + k) == u32_le(d2, b2 + k),
{
    lemma_window_bytes(d1, b1, d2, b2, n, k);
    lemma_window_bytes(d1, b1, d2, b2, n, k + 1);
    lemma_window_bytes(d1, b1, d2, b2, n, k + 2);
    lemma_window_bytes(d1, b1, d2, b2, n, k + 3);
}

/// A relative pointer field inside a record designates the same place in the
/// record wherever the record's bytes are put.
pub proof fn lemma_relative_pointer_relocates(d1: Seq<u8>, b1: int, d2: Seq<u8>, b2: int, n: int, k: int)
    requires
        same_window(d1, b1, d2, b2, n),
        0 <= k,
        k + OFFSET_WIDTH <= n,
    ensures
        u64_le(d1, b1 + k) == u64_le(d2, b2 + k),
        rel_target(d1, b1 + k) - b1 == rel_target(d2, b2 + k) - b2,
{
    lemma_window_u32(d1, b1, d2, b2, n, k);
    lemma_window_u32(d1, b1, d2, b2, n, k + 4);
}

pub proof fn lemma_window_u16(d1: Seq<u8>, b1: int, d2: Seq<u8>, b2: int, n: int, k: int)
    requires
        same_window(d1, b1, d2, b2, n),
        0 <= k,
        k + 2 <= n,
    ensures
        u16_le(d1, b1 + k) == u16_le(d2, b2 + k),
{
    lemma_window_bytes(d1, b1, d2, b2, n, k);
    lemma_window_bytes(d1, b1, d2, b2, n, k + 1);
}

pub proof fn lemma_window_u64(d1: Seq<u8>, b1: int, d2: Seq<u8>, b2: int, n: int, k: int)
    requires
        same_window(d1, b1, d2, b2, n),
        0 <= k,
        k + 8 <= n,
    ensures
        u64_le(d1, b1 + k) == u64_le(d2, b2 + k),
{
    lemma_window_u32(d1, b1, d2, b2, n, k);
    lemma_window_u32(d1, b1, d2, b2, n, k + 4);
}

/// `n` bytes at `pos` lie in `[lo, hi)`.
pub open spec fn in_window(pos: int, n: int, lo: int, hi: int) -> bool {
    lo <= pos && pos + n <= hi
}

/// Every byte that decoding the table at `pos` reads lies in `[lo, hi)`.
pub open spec fn table_within<T: Decode>(data: Seq<u8>, pos: int, lo: int, hi: int) -> bool {
    &&& in_window(pos, TABLE_WIDTH as int, lo, hi)
    &&& (table_count(data, pos) == 0 || {
        &&& lo <= rel_target(data, pos)
        &&& rel_target(data, pos) + table_count(data, pos) * T::size() <= hi
        &&& forall|i: int|
            0 <= i < table_count(data, pos) ==> #[trigger] T::within(
                data,
                element_at::<T>(data, pos, i),
                lo,
                hi,
            )
    })
}

/// A table whose pointer and elements lie inside a window decodes to the same
/// elements wherever the window is put.
pub proof fn lemma_table_relocates<T: Decode>(
    items: Seq<T>,
    d1: Seq<u8>,
    b1: int,
    d2: Seq<u8>,
    b2: int,
    n: int,
    k: int,
)
    requires
        same_window(d1, b1, d2, b2, n),
        0 <= k,
        table_within::<T>(d1, b1 + k, b1, b1 + n),
        table_read_from(items, d1, b1 + k),
    ensures
        table_read_from(items, d2, b2 + k),
        table_within::<T>(d2, b2 + k, b2, b2 + n),
{
    lemma_window_u64(d1, b1, d2, b2, n, k);
    lemma_window_u64(d1, b1, d2, b2, n, k + 8);
    assert forall|i: int| 0 <= i < items.len() implies #[trigger] items[i].read_from(
        d2,
        element_at::<T>(d2, b2 + k, i),
    ) && T::within(d2, element_at::<T>(d2, b2 + k, i), b2, b2 + n) by {
        assert(i * T::size() >= 0) by (nonlinear_arith)
            requires
                i >= 0,
        ;
        assert(items[i].read_from(d1, element_at::<T>(d1, b1 + k, i)));
        assert(T::within(d1, element_at::<T>(d1, b1 + k, i), b1, b1 + n));
        let ki = element_at::<T>(d1, b1 + k, i) - b1;
        items[i].lemma_relocate(d1, b1, d2, b2, n, ki);
    }
    assert forall|i: int| 0 <= i < table_count(d2, b2 + k) implies #[trigger] T::within(
        d2,
        element_at::<T>(d2, b2 + k, i),
        b2,
        b2 + n,
    ) by {
        assert(items[i].read_from(d2, element_at::<T>(d2, b2 + k, i)));
    }
}

/// Every byte that decoding the string behind the pointer at `field` reads
/// lies in `[lo, hi)`.
pub open spec fn string_within(data: Seq<u8>, field: int, lo: int, hi: int) -> bool {
    &&& in_window(field, OFFSET_WIDTH as int, lo, hi)
    &&& lo <= rel_target(data, field)
    &&& exists|z: int| rel_target(data, field) <= z < hi && #[trigger] data[z] == 0
}

/// A string whose pointer and bytes lie inside a window decodes the same
/// wherever the window is put.
pub proof fn lemma_string_relocates(s: Seq<u8>, d1: Seq<u8>, b1: int, d2: Seq<u8>, b2: int, n: int, k: int)
    requires
        same_window(d1, b1, d2, b2, n),
        0 <= k,
        string_within(d1, b1 + k, b1, b1 + n),
        null_string_at(d1, rel_target(d1, b1 + k), s),
    ensures
        null_string_at(d2, rel_target(d2, b2 + k), s),
        string_within(d2, b2 + k, b2, b2 + n),
{
    lemma_window_u64(d1, b1, d2, b2, n, k);
    let t1 = rel_target(d1, b1 + k);
    let t = t1 - b1;
    let t2 = rel_target(d2, b2 + k);
    assert(t2 == b2 + t);
    let z = choose|z: int| t1 <= z < b1 + n && #[trigger] d1[z] == 0;
    if z < t1 + s.len() {
        assert(s[z - t1] == d1.subrange(t1, t1 + s.len())[z - t1]);
    }
    lemma_window_bytes(d1, b1, d2, b2, n, t + s.len());
    assert forall|j: int| 0 <= j < s.len() implies d2[t2 + j] == s[j] by {
        lemma_window_bytes(d1, b1, d2, b2, n, t + j);
        assert(s[j] == d1.subrange(t1, t1 + s.len())[j]);
    }
    assert(s =~= d2.subrange(t2, t2 + s.len()));
    assert(d2[t2 + s.len()] == 0);
}

} // verus!
