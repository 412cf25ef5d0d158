use vstd::prelude::*;

use crate::asset_id::AssetId;
use crate::cache::ResourceCache;
use crate::pointer::{
    in_window, lemma_window_bytes, lemma_window_u16, lemma_window_u32, lemma_window_u64,
    ArchiveIndex, Decode, EntryMeta,
};
use crate::reader::{fits, u16_le, u32_le, u64_le, ByteReader, DecodeError};

verus! {

/// Progress of the workers of one resource class. `start_time` is in
/// milliseconds on a clock the caller chooses; `remaining` is the queue depth
/// last reported.
#[derive(Clone, Copy, Debug, PartialEq, Eq, Structural)]
pub enum LoadingThreadState {
    Idle,
    Loading { start_time: u64, remaining: usize },
}

/// The state after a worker reports queue depth `remaining` at time `now`.
pub open spec fn status_after(
    state: LoadingThreadState,
    remaining: usize,
    now: u64,
) -> LoadingThreadState {
    if remaining == 0 {
        LoadingThreadState::Idle
    } else {
        match state {
            LoadingThreadState::Idle => LoadingThreadState::Loading { start_time: now, remaining },
            LoadingThreadState::Loading { start_time, .. } => LoadingThreadState::Loading {
                start_time,
                remaining,
            },
        }
    }
}

/// Records the queue depth a worker saw after one item: idle at zero, else
/// loading since the first report after idle.
pub fn update_status(state: &mut LoadingThreadState, remaining: usize, now: u64)
    ensures
        *final(state) == status_after(*old(state), remaining, now),
{
    if remaining == 0 {
        *state = LoadingThreadState::Idle;
    } else {
        let start_time = match *state {
            LoadingThreadState::Idle => now,
            LoadingThreadState::Loading { start_time, .. } => start_time,
        };
        *state = LoadingThreadState::Loading { start_time, remaining };
    }
}

/// The remaining count a state reports (zero when idle).
pub open spec fn reported(state: LoadingThreadState) -> int {
    match state {
        LoadingThreadState::Idle => 0,
        LoadingThreadState::Loading { remaining, .. } => remaining as int,
    }
}

/// The state after each report of `reports`, a queue depth with the time it
/// was made, in turn.
pub open spec fn status_after_all(
    state: LoadingThreadState,
    reports: Seq<(usize, u64)>,
) -> LoadingThreadState
    decreases reports.len(),
{
    if reports.len() == 0 {
        state
    } else {
        status_after_all(status_after(state, reports[0].0, reports[0].1), reports.drop_first())
    }
}

/// A report of depth `depth`, which can be no more than the items enqueued
/// minus those completed, never shows more than that; a report of an empty
/// queue leaves the class idle.
pub proof fn lemma_status_within_outstanding(
    state: LoadingThreadState,
    depth: usize,
    now: u64,
    enqueued: nat,
    completed: nat,
)
    requires
        completed <= enqueued,
        depth <= enqueued - completed,
    ensures
        reported(status_after(state, depth, now)) == depth,
        reported(status_after(state, depth, now)) <= enqueued - completed,
        depth == 0 ==> status_after(state, depth, now) == LoadingThreadState::Idle,
{
}

/// Whatever was reported before, and at whatever times, once the last report
/// is of a drained queue the class is idle.
pub proof fn lemma_drained_settles_idle(state: LoadingThreadState, reports: Seq<(usize, u64)>)
    requires
        reports.len() > 0,
        reports.last().0 == 0,
    ensures
        status_after_all(state, reports) == LoadingThreadState::Idle,
    decreases reports.len(),
{
    let next = status_after(state, reports[0].0, reports[0].1);
    assert(status_after_all(state, reports) == status_after_all(next, reports.drop_first()));
    if reports.len() > 1 {
        assert(reports.drop_first().last() == reports.last());
        lemma_drained_settles_idle(next, reports.drop_first());
    } else {
        assert(reports.drop_first().len() == 0);
        assert(reports[0].0 == 0);
    }
}

/// After any non-empty run of reports the class shows exactly the last
/// reported depth (none when idle), so it never shows more than the last
/// report allowed.
pub proof fn lemma_shows_last_depth(state: LoadingThreadState, reports: Seq<(usize, u64)>)
    requires
        reports.len() > 0,
    ensures
        reported(status_after_all(state, reports)) == reports.last().0,
    decreases reports.len(),
{
    let next = status_after(state, reports[0].0, reports[0].1);
    assert(status_after_all(state, reports) == status_after_all(next, reports.drop_first()));
    if reports.len() > 1 {
        assert(reports.drop_first().last() == reports.last());
        lemma_shows_last_depth(next, reports.drop_first());
    } else {
        assert(reports.drop_first().len() == 0);
    }
}

/// Whether a texture worker should build `id`: it names an entry and is not cached yet.
pub fn should_load_texture<R>(id: AssetId, textures: &ResourceCache<R>) -> (r: bool)
    ensures
        r == (id.valid() && !textures@.contains_key(id.hash)),
{
    id.is_valid() && !textures.contains(id)
}

/// Entry kind of buffer entries.
pub const BUFFER_KIND: u8 = 32;

/// Entry subkind of vertex buffers.
pub const VERTEX_SUBKIND: u8 = 4;

/// Entry subkind of index buffers.
pub const INDEX_SUBKIND: u8 = 6;

#[derive(Clone, Copy, Debug, PartialEq, Eq, Structural)]
pub enum BufferClass {
    Vertex,
    Index,
}

/// The buffer class that an entry of `kind` and `subkind` holds, if any.
pub open spec fn class_of(kind: u8, subkind: u8) -> Option<BufferClass> {
    if kind == BUFFER_KIND && subkind == VERTEX_SUBKIND {
        Some(BufferClass::Vertex)
    } else if kind == BUFFER_KIND && subkind == INDEX_SUBKIND {
        Some(BufferClass::Index)
    } else {
        None
    }
}

pub fn buffer_class(kind: u8, subkind: u8) -> (r: Option<BufferClass>)
    ensures
        r == class_of(kind, subkind),
{
    if kind == BUFFER_KIND && subkind == VERTEX_SUBKIND {
        Some(BufferClass::Vertex)
    } else if kind == BUFFER_KIND && subkind == INDEX_SUBKIND {
        Some(BufferClass::Index)
    } else {
        None
    }
}

/// The head of a vertex buffer entry.
pub struct VertexBufferHeader {
    pub data_size: u32,
    pub stride: u16,
    pub vtype: u16,
}

impl Decode for VertexBufferHeader {
    open spec fn size() -> nat {
        8
    }

    fn stride() -> (n: usize) {
        8
    }

    open spec fn read_from(self, data: Seq<u8>, pos: int) -> bool {
        &&& self.data_size == u32_le(data, pos)
        &&& self.stride == u16_le(data, pos + 4)
        &&& self.vtype == u16_le(data, pos + 6)
    }

    open spec fn local_ok(data: Seq<u8>, pos: int) -> bool {
        fits(data, pos, 8)
    }

    open spec fn within(data: Seq<u8>, pos: int, lo: int, hi: int) -> bool {
        in_window(pos, 8, lo, hi)
    }

    proof fn lemma_relocate(self, d1: Seq<u8>, b1: int, d2: Seq<u8>, b2: int, n: int, k: int) {
        lemma_window_u32(d1, b1, d2, b2, n, k);
        lemma_window_u16(d1, b1, d2, b2, n, k + 4);
        lemma_window_u16(d1, b1, d2, b2, n, k + 6);
    }

    fn decode<A: ArchiveIndex>(r: &mut ByteReader, archive: &A) -> (res: Result<Self, DecodeError>) {
        if !r.has(8) {
            return Err(DecodeError::OutOfBounds);
        }
        let data_size = r.read_u32().unwrap();
        let stride = r.read_u16().unwrap();
        let vtype = r.read_u16().unwrap();
        Ok(VertexBufferHeader { data_size, stride, vtype })
    }
}

/// The head of an index buffer entry.
pub struct IndexBufferHeader {
    pub unk0: u8,
    pub is_32bit: bool,
    pub unk2: u16,
    pub zero: u32,
    pub data_size: u64,
}

impl Decode for IndexBufferHeader {
    open spec fn size() -> nat {
        0x10
    }

    fn stride() -> (n: usize) {
        0x10
    }

    open spec fn read_from(self, data: Seq<u8>, pos: int) -> bool {
        &&& self.unk0 == data[pos]
        &&& self.is_32bit == (data[pos + 1] != 0)
        &&& self.unk2 == u16_le(data, pos + 2)
        &&& self.zero == u32_le(data, pos + 4)
        &&& self.data_size == u64_le(data, pos + 8)
    }

    open spec fn local_ok(data: Seq<u8>, pos: int) -> bool {
        fits(data, pos, 0x10)
    }

    open spec fn within(data: Seq<u8>, pos: int, lo: int, hi: int) -> bool {
        in_window(pos, 0x10, lo, hi)
    }

    proof fn lemma_relocate(self, d1: Seq<u8>, b1: int, d2: Seq<u8>, b2: int, n: int, k: int) {
        lemma_window_bytes(d1, b1, d2, b2, n, k);
        lemma_window_bytes(d1, b1, d2, b2, n, k + 1);
        lemma_window_u16(d1, b1, d2, b2, n, k + 2);
        lemma_window_u32(d1, b1, d2, b2, n, k + 4);
        lemma_window_u64(d1, b1, d2, b2, n, k + 8);
    }

    fn decode<A: ArchiveIndex>(r: &mut ByteReader, archive: &A) -> (res: Result<Self, DecodeError>) {
        if !r.has(0x10) {
            return Err(DecodeError::OutOfBounds);
        }
        let unk0 = r.read_u8().unwrap();
        let flag = r.read_u8().unwrap();
        let unk2 = r.read_u16().unwrap();
        let zero = r.read_u32().unwrap();
        let data_size = r.read_u64().unwrap();
        Ok(IndexBufferHeader { unk0, is_32bit: flag != 0, unk2, zero, data_size })
    }
}

/// Why one queued request produced no resource.
#[derive(Clone, Copy, Debug, PartialEq, Eq, Structural)]
pub enum LoadError {
    /// The entry's head or data could not be decoded.
    Decode(DecodeError),
    /// The entry's declared kind has no resource mapping.
    UnsupportedEntryKind { kind: u8, subkind: u8 },
    /// The graphics layer refused to build the resource (reported by the
    /// caller that makes the graphics call).
    ResourceCreationFailed,
}

/// What a buffer worker does with one identifier.
pub enum BufferJob {
    /// Nothing: invalid, unknown to the archive, or already cached.
    Skip,
    /// Build a vertex buffer of `data` with `stride` bytes per vertex.
    Vertex { data: Vec<u8>, stride: u32 },
    /// Build an index buffer of `data` with 32-bit or 16-bit indices.
    Index { data: Vec<u8>, is_32bit: bool },
    /// Drop the request for this reason.
    Failed(LoadError),
}

/// The job for a buffer of `class`, given what the archive handed back: the
/// referenced data entry's bytes and the described entry's own bytes.
pub fn plan_buffer(class: BufferClass, data: Option<Vec<u8>>, head: Option<Vec<u8>>) -> (job: BufferJob)
    ensures
        data is None ==> job == BufferJob::Failed(LoadError::Decode(DecodeError::UnresolvedReference)),
        data is Some && head is None ==> job == BufferJob::Failed(
            LoadError::Decode(DecodeError::UnresolvedReference),
        ),
        data is Some && head is Some && class == BufferClass::Vertex ==> if fits(head->Some_0@, 0, 8) {
            job == BufferJob::Vertex { data: data->Some_0, stride: u16_le(head->Some_0@, 4) as u32 }
        } else {
            job == BufferJob::Failed(LoadError::Decode(DecodeError::OutOfBounds))
        },
        data is Some && head is Some && class == BufferClass::Index ==> if fits(head->Some_0@, 0, 0x10) {
            job == BufferJob::Index { data: data->Some_0, is_32bit: head->Some_0@[1] != 0 }
        } else {
            job == BufferJob::Failed(LoadError::Decode(DecodeError::OutOfBounds))
        },
{
    let data = match data {
        Some(d) => d,
        None => return BufferJob::Failed(LoadError::Decode(DecodeError::UnresolvedReference)),
    };
    let head = match head {
        Some(h) => h,
        None => return BufferJob::Failed(LoadError::Decode(DecodeError::UnresolvedReference)),
    };
    let mut r = ByteReader::new(head);
    match class {
        BufferClass::Vertex => match VertexBufferHeader::decode(&mut r, &NoArchive) {
            Ok(h) => BufferJob::Vertex { data, stride: h.stride as u32 },
            Err(e) => BufferJob::Failed(LoadError::Decode(e)),
        },
        BufferClass::Index => match IndexBufferHeader::decode(&mut r, &NoArchive) {
            Ok(h) => BufferJob::Index { data, is_32bit: h.is_32bit },
            Err(e) => BufferJob::Failed(LoadError::Decode(e)),
        },
    }
}

/// An archive that locates nothing, for layouts that never follow an identifier.
pub struct NoArchive;

impl ArchiveIndex for NoArchive {
    fn resolve(&self, id: AssetId) -> (r: Option<Vec<u8>>) {
        None
    }

    fn entry_metadata(&self, id: AssetId) -> (r: Option<EntryMeta>) {
        None
    }
}

/// What a buffer worker does once the archive has declared an entry.
pub enum BufferStep {
    /// Nothing: unknown to the archive, or already cached.
    Skip,
    /// Read the data entry `data` (a valid identifier) and the entry's own head,
    /// and build a buffer of `class`.
    Fetch { class: BufferClass, data: AssetId },
    /// Drop the request for this reason.
    Failed(LoadError),
}

/// The step for an entry that the archive declared as `meta` (`None` where it
/// does not know the entry), given whether each buffer cache already holds it.
/// A supported entry whose data reference is invalid cannot be resolved.
pub fn plan_entry(meta: Option<EntryMeta>, in_vertex_cache: bool, in_index_cache: bool) -> (s: BufferStep)
    ensures
        meta is None ==> s is Skip,
        meta is Some && class_of(meta->Some_0.kind, meta->Some_0.subkind) is None ==> s
            == BufferStep::Failed(
            LoadError::UnsupportedEntryKind { kind: meta->Some_0.kind, subkind: meta->Some_0.subkind },
        ),
        meta is Some && class_of(meta->Some_0.kind, meta->Some_0.subkind) == Some(BufferClass::Vertex)
            ==> if in_vertex_cache {
            s is Skip
        } else if !meta->Some_0.reference.valid() {
            s == BufferStep::Failed(LoadError::Decode(DecodeError::UnresolvedReference))
        } else {
            s == BufferStep::Fetch { class: BufferClass::Vertex, data: meta->Some_0.reference }
        },
        meta is Some && class_of(meta->Some_0.kind, meta->Some_0.subkind) == Some(BufferClass::Index)
            ==> if in_index_cache {
            s is Skip
        } else if !meta->Some_0.reference.valid() {
            s == BufferStep::Failed(LoadError::Decode(DecodeError::UnresolvedReference))
        } else {
            s == BufferStep::Fetch { class: BufferClass::Index, data: meta->Some_0.reference }
        },
{
    let m = match meta {
        Some(m) => m,
        None => return BufferStep::Skip,
    };
    match buffer_class(m.kind, m.subkind) {
        None => BufferStep::Failed(LoadError::UnsupportedEntryKind { kind: m.kind, subkind: m.subkind }),
        Some(BufferClass::Vertex) => if in_vertex_cache {
            BufferStep::Skip
        } else if !m.reference.is_valid() {
            BufferStep::Failed(LoadError::Decode(DecodeError::UnresolvedReference))
        } else {
            BufferStep::Fetch { class: BufferClass::Vertex, data: m.reference }
        },
        Some(BufferClass::Index) => if in_index_cache {
            BufferStep::Skip
        } else if !m.reference.is_valid() {
            BufferStep::Failed(LoadError::Decode(DecodeError::UnresolvedReference))
        } else {
            BufferStep::Fetch { class: BufferClass::Index, data: m.reference }
        },
    }
}

/// Index width of an index buffer.
#[derive(Clone, Copy, Debug, PartialEq, Eq, Structural)]
pub enum IndexFormat {
    R16Uint,
    R32Uint,
}

pub fn index_format(is_32bit: bool) -> (f: IndexFormat)
    ensures
        f == (if is_32bit { IndexFormat::R32Uint } else { IndexFormat::R16Uint }),
{
    if is_32bit {
        IndexFormat::R32Uint
    } else {
        IndexFormat::R16Uint
    }
}

/// Carries out a worker's decision for `id`: an invalid identifier is skipped
/// before the archive is asked anything; otherwise the archive's declaration
/// goes to `plan_entry`, and for a fetch the data entry and the head of `id`
/// go to `plan_buffer`. The archive is only ever asked about valid identifiers.
pub fn prepare_buffer<A: ArchiveIndex>(
    archive: &A,
    id: AssetId,
    in_vertex_cache: bool,
    in_index_cache: bool,
) -> (job: BufferJob)
    ensures
        !id.valid() ==> job is Skip,
        job is Vertex ==> !in_vertex_cache,
        job is Index ==> !in_index_cache,
        job matches BufferJob::Failed(LoadError::UnsupportedEntryKind { kind, subkind }) ==> class_of(
            kind,
            subkind,
        ) is None,
{
    if !id.is_valid() {
        return BufferJob::Skip;
    }
    let meta = archive.entry_metadata(id);
    match plan_entry(meta, in_vertex_cache, in_index_cache) {
        BufferStep::Skip => BufferJob::Skip,
        BufferStep::Failed(e) => BufferJob::Failed(e),
        BufferStep::Fetch { class, data } => {
            let bytes = archive.resolve(data);
            let head = archive.resolve(id);
            plan_buffer(class, bytes, head)
        },
    }
}

} // verus!
