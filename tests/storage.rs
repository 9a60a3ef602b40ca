use raytrace::{
    ChunkAction, ChunkEvent, ChunkStorage, ChunkStorageCoord, GenerateCause, Heightmap,
    PackedChunkData, Phase, StorageError, UnpackedChunkData, CHUNK_SIZE, NUM_BUFFERS,
};
use std::collections::HashMap;

const BASE: &str = "world";

fn fill_terrain(out: &mut UnpackedChunkData, coord: &ChunkStorageCoord) {
    let mut heightmap = Heightmap::new();
    for x in 0..CHUNK_SIZE {
        for y in 0..CHUNK_SIZE {
            let h = (x * 3 + y * 5) as isize + coord.0 * 7 - coord.1 * 11;
            heightmap.set(&(x, y), h.rem_euclid(40) - 8);
        }
    }
    for x in 0..CHUNK_SIZE {
        for y in 0..CHUNK_SIZE {
            for z in 0..CHUNK_SIZE {
                let world_z = coord.2 * CHUNK_SIZE as isize + z as isize;
                let material = if world_z < heightmap.get(&(x, y)) {
                    1 + ((x + y + z) % 3) as u32
                } else {
                    0
                };
                out.set_voxel(x, y, z, material, ((x ^ y ^ z) & 1) as u8);
            }
        }
    }
}

fn direct_generation(coord: &ChunkStorageCoord) -> PackedChunkData {
    let mut unpacked = UnpackedChunkData::new();
    fill_terrain(&mut unpacked, coord);
    let mut packed = PackedChunkData::new();
    unpacked.pack_into(&mut packed);
    packed
}

struct Outcome {
    result: Result<(usize, Option<usize>), StorageError>,
    causes: Vec<GenerateCause>,
    writes: usize,
}

fn run_request(
    storage: &mut ChunkStorage,
    store: &mut HashMap<String, Vec<u8>>,
    coord: ChunkStorageCoord,
    keep_unpacked: bool,
    writes_succeed: bool,
) -> Outcome {
    let mut causes = Vec::new();
    let mut writes = 0;
    let (mut req, mut action) = storage.begin_request(&coord, keep_unpacked);
    loop {
        let event = match action {
            ChunkAction::CheckExists(path) => ChunkEvent::Exists(store.contains_key(&path)),
            ChunkAction::ReadFile(path) => ChunkEvent::Read(store.get(&path).cloned()),
            ChunkAction::Generate { uc, coord, cause } => {
                causes.push(cause);
                fill_terrain(storage.unpacked_chunk_data_mut(uc), &coord);
                ChunkEvent::Generated
            }
            ChunkAction::WriteFile(path, bytes) => {
                writes += 1;
                if writes_succeed {
                    store.insert(path, bytes);
                }
                ChunkEvent::Written(writes_succeed)
            }
            ChunkAction::Deliver { pc, unpacked } => {
                return Outcome { result: Ok((pc, unpacked)), causes, writes }
            }
            ChunkAction::Fail(e) => return Outcome { result: Err(e), causes, writes },
        };
        let next = storage.advance(req, event);
        req = next.0;
        action = next.1;
    }
}

fn path_of(coord: &ChunkStorageCoord) -> String {
    ChunkStorage::get_path_for(BASE, coord)
}

#[test]
fn generate() {
    let mut storage = ChunkStorage::new(BASE.to_string());
    let mut store = HashMap::new();
    let out = run_request(&mut storage, &mut store, (0, 0, 0), false, true);
    let (pc, unpacked) = out.result.unwrap();
    assert_eq!(unpacked, None);
    assert!(store.contains_key(&path_of(&(0, 0, 0))));
    assert!(storage.release_packed(pc));
}

#[test]
fn path_for_joins_base_and_file_name() {
    assert_eq!(
        ChunkStorage::get_path_for("base", &(0, 0, 0)),
        "base/000000000000000000000000000000000000000000000000"
    );
}

#[test]
fn path_for_adds_no_separator_where_none_is_needed() {
    let name = "000000000000000100000000000000020000000000000003";
    assert_eq!(ChunkStorage::get_path_for("", &(1, 2, 3)), name);
    assert_eq!(
        ChunkStorage::get_path_for("a/", &(1, 2, 3)),
        format!("a/{}", name)
    );
}

#[test]
fn cache_miss_writes_file_and_matches_direct_generation() {
    let coord = (3, -2, 1);
    let mut storage = ChunkStorage::new(BASE.to_string());
    let mut store = HashMap::new();
    let out = run_request(&mut storage, &mut store, coord, false, true);
    assert_eq!(out.causes, vec![GenerateCause::Missing]);
    assert_eq!(out.writes, 1);
    let (pc, _) = out.result.unwrap();
    let expected = direct_generation(&coord);
    let got = storage.borrow_packed_chunk_data(pc);
    assert_eq!(got.materials(), expected.materials());
    assert_eq!(got.minefield(), expected.minefield());
    let stored = store.get(&path_of(&coord)).unwrap();
    assert_eq!(stored, &raytrace::serialize(&expected));
    assert_eq!(store.len(), 1);
}

#[test]
fn cache_hit_loads_without_generating() {
    let coord = (-5, 4, -1);
    let mut storage = ChunkStorage::new(BASE.to_string());
    let mut store = HashMap::new();
    let first = run_request(&mut storage, &mut store, coord, false, true);
    let (pc, _) = first.result.unwrap();
    assert!(storage.release_packed(pc));
    let second = run_request(&mut storage, &mut store, coord, false, true);
    assert!(second.causes.is_empty());
    assert_eq!(second.writes, 0);
    let (pc, _) = second.result.unwrap();
    let expected = direct_generation(&coord);
    assert_eq!(storage.borrow_packed_chunk_data(pc).materials(), expected.materials());
    assert_eq!(storage.borrow_packed_chunk_data(pc).minefield(), expected.minefield());
}

#[test]
fn corrupt_file_falls_back_to_generation() {
    let coord = (1, 1, 0);
    let mut storage = ChunkStorage::new(BASE.to_string());
    let mut store = HashMap::new();
    store.insert(path_of(&coord), vec![1, 2, 3, 4, 5, 6, 7, 8]);
    let out = run_request(&mut storage, &mut store, coord, false, true);
    assert_eq!(
        out.causes,
        vec![GenerateCause::Damaged(raytrace::DecodeError::Corrupt)]
    );
    let (pc, _) = out.result.unwrap();
    let expected = direct_generation(&coord);
    assert_eq!(storage.borrow_packed_chunk_data(pc).materials(), expected.materials());
    assert_eq!(storage.borrow_packed_chunk_data(pc).minefield(), expected.minefield());
    assert_eq!(
        store.get(&path_of(&coord)).unwrap(),
        &raytrace::serialize(&expected)
    );
}

#[test]
fn truncated_file_falls_back_to_generation() {
    let coord = (0, 2, -3);
    let mut storage = ChunkStorage::new(BASE.to_string());
    let mut store = HashMap::new();
    let full = raytrace::serialize(&direct_generation(&coord));
    store.insert(path_of(&coord), full[..full.len() / 2].to_vec());
    let out = run_request(&mut storage, &mut store, coord, false, true);
    assert_eq!(out.causes.len(), 1);
    assert!(matches!(out.causes[0], GenerateCause::Damaged(_)));
    let (pc, _) = out.result.unwrap();
    let expected = direct_generation(&coord);
    assert_eq!(storage.borrow_packed_chunk_data(pc).materials(), expected.materials());
    assert_eq!(storage.borrow_packed_chunk_data(pc).minefield(), expected.minefield());
}

#[test]
fn unreadable_file_falls_back_to_generation() {
    let coord = (2, 2, 2);
    let mut storage = ChunkStorage::new(BASE.to_string());
    let (req, _) = storage.begin_request(&coord, false);
    let (req, action) = storage.advance(req, ChunkEvent::Exists(true));
    assert!(matches!(req.phase, Phase::Load { .. }));
    assert!(matches!(action, ChunkAction::ReadFile(ref p) if *p == path_of(&coord)));
    let (req, action) = storage.advance(req, ChunkEvent::Read(None));
    assert!(matches!(req.phase, Phase::Generate { .. }));
    assert!(matches!(
        action,
        ChunkAction::Generate { cause: GenerateCause::Unreadable, .. }
    ));
}

#[test]
fn failed_write_is_not_fatal() {
    let coord = (7, 0, 0);
    let mut storage = ChunkStorage::new(BASE.to_string());
    let mut store = HashMap::new();
    let out = run_request(&mut storage, &mut store, coord, false, false);
    assert_eq!(out.writes, 1);
    assert!(store.is_empty());
    let (pc, _) = out.result.unwrap();
    let expected = direct_generation(&coord);
    assert_eq!(storage.borrow_packed_chunk_data(pc).materials(), expected.materials());
}

#[test]
fn generation_is_deterministic() {
    let coord = (-9, 12, 3);
    let mut store_a = HashMap::new();
    let mut store_b = HashMap::new();
    let mut a = ChunkStorage::new(BASE.to_string());
    let mut b = ChunkStorage::new(BASE.to_string());
    // Take a few buffers out of the second storage so that different slots are used.
    let warm = run_request(&mut b, &mut HashMap::new(), (0, 0, 0), true, true);
    assert!(warm.result.is_ok());
    run_request(&mut a, &mut store_a, coord, false, true).result.unwrap();
    run_request(&mut b, &mut store_b, coord, false, true).result.unwrap();
    assert_eq!(store_a.get(&path_of(&coord)), store_b.get(&path_of(&coord)));
    assert!(store_a.get(&path_of(&coord)).is_some());
}

#[test]
fn keep_unpacked_delivers_both_forms() {
    let coord = (4, 4, 0);
    let mut storage = ChunkStorage::new(BASE.to_string());
    let mut store = HashMap::new();
    let (pc, uc) = run_request(&mut storage, &mut store, coord, true, true).result.unwrap();
    let uc = uc.unwrap();
    let mut expected = UnpackedChunkData::new();
    fill_terrain(&mut expected, &coord);
    assert_eq!(storage.borrow_unpacked_chunk_data(uc).material(3, 5, 7), expected.material(3, 5, 7));
    assert!(storage.release_packed(pc));
    assert!(storage.release_unpacked(uc));
    // Loaded from the file this time, then unpacked.
    let out = run_request(&mut storage, &mut store, coord, true, true);
    assert!(out.causes.is_empty());
    let (_, uc) = out.result.unwrap();
    let uc = uc.unwrap();
    for (x, y, z) in [(0, 0, 0), (15, 0, 3), (2, 9, 15), (15, 15, 15)] {
        assert_eq!(storage.borrow_unpacked_chunk_data(uc).material(x, y, z), expected.material(x, y, z));
        assert_eq!(storage.borrow_unpacked_chunk_data(uc).mine(x, y, z), expected.mine(x, y, z));
    }
}

#[test]
fn pool_exhaustion_fails_and_release_reuses_slot() {
    let mut storage = ChunkStorage::new(BASE.to_string());
    let mut store = HashMap::new();
    let mut held = Vec::new();
    for i in 0..NUM_BUFFERS {
        let (pc, _) = run_request(&mut storage, &mut store, (i as isize, 0, 0), false, true)
            .result
            .unwrap();
        held.push(pc);
    }
    let out = run_request(&mut storage, &mut store, (-1, 0, 0), false, true);
    assert_eq!(out.result, Err(StorageError::PoolExhausted));
    let freed = held[17];
    assert!(storage.release_packed(freed));
    let (pc, _) = run_request(&mut storage, &mut store, (-1, 0, 0), false, true)
        .result
        .unwrap();
    assert_eq!(pc, freed);
}

#[test]
fn releasing_twice_is_refused() {
    let mut storage = ChunkStorage::new(BASE.to_string());
    let mut store = HashMap::new();
    let (pc, _) = run_request(&mut storage, &mut store, (0, 0, 1), false, true).result.unwrap();
    assert!(storage.release_packed(pc));
    assert!(!storage.release_packed(pc));
    assert!(!storage.release_unpacked(0));
}

#[test]
fn unexpected_event_is_reported() {
    let mut storage = ChunkStorage::new(BASE.to_string());
    let (req, _) = storage.begin_request(&(0, 0, 0), false);
    let (same, action) = storage.advance(req, ChunkEvent::Generated);
    assert_eq!(same.phase, Phase::Probe);
    assert!(matches!(action, ChunkAction::Fail(StorageError::UnexpectedEvent)));
}

#[test]
fn stale_request_is_reported() {
    let mut storage = ChunkStorage::new(BASE.to_string());
    let (req, _) = storage.begin_request(&(0, 0, 0), false);
    let (req, _) = storage.advance(req, ChunkEvent::Exists(true));
    let pc = match req.phase {
        Phase::Load { pc } => pc,
        _ => panic!("expected a load"),
    };
    assert!(storage.release_packed(pc));
    let (_, action) = storage.advance(req, ChunkEvent::Read(None));
    assert!(matches!(action, ChunkAction::Fail(StorageError::StaleRequest)));
}
