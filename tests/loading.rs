use std::collections::HashMap;

use alkahest_core::asset_id::AssetId;
use alkahest_core::cache::ResourceCache;
use alkahest_core::loader::{
    buffer_class, index_format, plan_buffer, plan_entry, prepare_buffer, should_load_texture,
    update_status, BufferClass, BufferJob, BufferStep, IndexFormat, LoadError, LoadingThreadState,
};
use alkahest_core::pointer::{ArchiveIndex, EntryMeta};
use alkahest_core::reader::DecodeError;
use parking_lot::RwLock;

struct MapArchive {
    entries: HashMap<u32, Vec<u8>>,
    meta: HashMap<u32, EntryMeta>,
}

impl ArchiveIndex for MapArchive {
    fn resolve(&self, id: AssetId) -> Option<Vec<u8>> {
        self.entries.get(&id.hash).cloned()
    }

    fn entry_metadata(&self, id: AssetId) -> Option<EntryMeta> {
        self.meta.get(&id.hash).copied()
    }
}

#[test]
fn second_insert_keeps_first_value() {
    let mut cache: ResourceCache<&str> = ResourceCache::new();
    let id = AssetId::new(1, 2);
    assert!(cache.insert_if_absent(id, "first"));
    assert!(!cache.insert_if_absent(id, "second"));
    assert_eq!(cache.get(id), Some(&"first"));
    assert_eq!(cache.len(), 1);
    assert!(cache.contains(id));
    assert_eq!(cache.get(AssetId::new(1, 3)), None);
}

#[test]
fn concurrent_inserts_of_one_id_leave_one_entry() {
    let cache: RwLock<ResourceCache<usize>> = RwLock::new(ResourceCache::new());
    let id = AssetId::new(7, 7);
    crossbeam::scope(|s| {
        for n in 0..8usize {
            let cache = &cache;
            s.spawn(move |_| {
                if !cache.read().contains(id) {
                    cache.write().insert_if_absent(id, n);
                }
            });
        }
    })
    .unwrap();
    let cache = cache.read();
    assert_eq!(cache.len(), 1);
    assert!(cache.get(id).is_some());
}

#[test]
fn status_goes_loading_then_idle() {
    let mut s = LoadingThreadState::Idle;
    update_status(&mut s, 3, 100);
    assert_eq!(s, LoadingThreadState::Loading { start_time: 100, remaining: 3 });
    update_status(&mut s, 2, 250);
    assert_eq!(s, LoadingThreadState::Loading { start_time: 100, remaining: 2 });
    update_status(&mut s, 0, 300);
    assert_eq!(s, LoadingThreadState::Idle);
    update_status(&mut s, 0, 400);
    assert_eq!(s, LoadingThreadState::Idle);
    update_status(&mut s, 5, 500);
    assert_eq!(s, LoadingThreadState::Loading { start_time: 500, remaining: 5 });
}

#[test]
fn remaining_never_exceeds_outstanding() {
    let mut s = LoadingThreadState::Idle;
    let enqueued = 4usize;
    for completed in 1..=enqueued {
        update_status(&mut s, enqueued - completed, completed as u64);
        match s {
            LoadingThreadState::Idle => assert_eq!(completed, enqueued),
            LoadingThreadState::Loading { remaining, start_time } => {
                assert!(remaining <= enqueued - completed);
                assert_eq!(start_time, 1);
            }
        }
    }
    assert_eq!(s, LoadingThreadState::Idle);
}

#[test]
fn textures_load_only_when_valid_and_absent() {
    let mut cache: ResourceCache<u8> = ResourceCache::new();
    let id = AssetId::new(3, 3);
    assert!(should_load_texture(id, &cache));
    assert!(!should_load_texture(AssetId::none(), &cache));
    cache.insert_if_absent(id, 1);
    assert!(!should_load_texture(id, &cache));
}

#[test]
fn buffer_classes() {
    assert_eq!(buffer_class(32, 4), Some(BufferClass::Vertex));
    assert_eq!(buffer_class(32, 6), Some(BufferClass::Index));
    assert_eq!(buffer_class(32, 5), None);
    assert_eq!(buffer_class(33, 4), None);
}

#[test]
fn plan_vertex_and_index_buffers() {
    let head = vec![0x10, 0, 0, 0, 0x18, 0, 0, 0];
    match plan_buffer(BufferClass::Vertex, Some(vec![1, 2, 3]), Some(head)) {
        BufferJob::Vertex { data, stride } => {
            assert_eq!(data, vec![1, 2, 3]);
            assert_eq!(stride, 0x18);
        }
        _ => panic!("expected a vertex buffer"),
    }
    let mut head = vec![0u8; 16];
    head[1] = 1;
    match plan_buffer(BufferClass::Index, Some(vec![9]), Some(head)) {
        BufferJob::Index { is_32bit, .. } => assert!(is_32bit),
        _ => panic!("expected an index buffer"),
    }
    match plan_buffer(BufferClass::Index, Some(vec![9]), Some(vec![0u8; 16])) {
        BufferJob::Index { is_32bit, .. } => assert!(!is_32bit),
        _ => panic!("expected an index buffer"),
    }
    assert!(matches!(
        plan_buffer(BufferClass::Index, Some(vec![9]), Some(vec![0u8; 15])),
        BufferJob::Failed(LoadError::Decode(DecodeError::OutOfBounds))
    ));
    assert!(matches!(
        plan_buffer(BufferClass::Vertex, None, Some(vec![0u8; 8])),
        BufferJob::Failed(LoadError::Decode(DecodeError::UnresolvedReference))
    ));
}

#[test]
fn prepare_buffer_follows_entry_kind() {
    let vid = AssetId::new(4, 1);
    let vdata = AssetId::new(4, 2);
    let odd = AssetId::new(4, 3);
    let mut archive = MapArchive { entries: HashMap::new(), meta: HashMap::new() };
    archive.meta.insert(vid.hash, EntryMeta { kind: 32, subkind: 4, reference: vdata });
    archive.meta.insert(odd.hash, EntryMeta { kind: 12, subkind: 1, reference: vdata });
    archive.entries.insert(vid.hash, vec![0x30, 0, 0, 0, 0x0c, 0, 0, 0]);
    archive.entries.insert(vdata.hash, vec![7; 0x30]);
    match prepare_buffer(&archive, vid, false, false) {
        BufferJob::Vertex { data, stride } => {
            assert_eq!(data.len(), 0x30);
            assert_eq!(stride, 0x0c);
        }
        _ => panic!("expected a vertex buffer"),
    }
    assert!(matches!(
        prepare_buffer(&archive, odd, false, false),
        BufferJob::Failed(LoadError::UnsupportedEntryKind { kind: 12, subkind: 1 })
    ));
    assert!(matches!(prepare_buffer(&archive, AssetId::none(), false, false), BufferJob::Skip));
    assert!(matches!(prepare_buffer(&archive, AssetId::new(5, 5), false, false), BufferJob::Skip));
    assert!(matches!(prepare_buffer(&archive, vid, true, false), BufferJob::Skip));
    assert!(matches!(prepare_buffer(&archive, vid, false, true), BufferJob::Vertex { .. }));
}

#[test]
fn plan_entry_follows_declared_kind() {
    let data = AssetId::new(6, 2);
    let vertex = EntryMeta { kind: 32, subkind: 4, reference: data };
    let index = EntryMeta { kind: 32, subkind: 6, reference: data };
    let other = EntryMeta { kind: 32, subkind: 5, reference: data };
    assert!(matches!(plan_entry(None, false, false), BufferStep::Skip));
    assert!(matches!(
        plan_entry(Some(other), false, false),
        BufferStep::Failed(LoadError::UnsupportedEntryKind { kind: 32, subkind: 5 })
    ));
    match plan_entry(Some(vertex), false, true) {
        BufferStep::Fetch { class, data: d } => {
            assert_eq!(class, BufferClass::Vertex);
            assert_eq!(d, data);
        }
        _ => panic!("expected a fetch"),
    }
    assert!(matches!(plan_entry(Some(vertex), true, false), BufferStep::Skip));
    match plan_entry(Some(index), true, false) {
        BufferStep::Fetch { class, data: d } => {
            assert_eq!(class, BufferClass::Index);
            assert_eq!(d, data);
        }
        _ => panic!("expected a fetch"),
    }
    assert!(matches!(plan_entry(Some(index), false, true), BufferStep::Skip));
}

#[test]
fn index_buffer_of_three_u32_gets_r32_format() {
    let id = AssetId::new(8, 1);
    let data = AssetId::new(8, 2);
    let mut archive = MapArchive { entries: HashMap::new(), meta: HashMap::new() };
    archive.meta.insert(id.hash, EntryMeta { kind: 32, subkind: 6, reference: data });
    let mut head = vec![0u8; 16];
    head[1] = 1;
    archive.entries.insert(id.hash, head);
    archive.entries.insert(data.hash, vec![1, 0, 0, 0, 2, 0, 0, 0, 3, 0, 0, 0]);
    match prepare_buffer(&archive, id, false, false) {
        BufferJob::Index { data, is_32bit } => {
            assert_eq!(data, vec![1, 0, 0, 0, 2, 0, 0, 0, 3, 0, 0, 0]);
            assert_eq!(index_format(is_32bit), IndexFormat::R32Uint);
        }
        _ => panic!("expected an index buffer"),
    }
    assert_eq!(index_format(false), IndexFormat::R16Uint);
}

#[test]
fn plan_entry_refuses_an_invalid_data_reference() {
    let meta = EntryMeta { kind: 32, subkind: 4, reference: AssetId::none() };
    assert!(matches!(
        plan_entry(Some(meta), false, false),
        BufferStep::Failed(LoadError::Decode(DecodeError::UnresolvedReference))
    ));
    assert!(matches!(plan_entry(Some(meta), true, false), BufferStep::Skip));
}
