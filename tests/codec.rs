use raytrace::{
    decode_chunk, deserialize, encode_chunk, file_name_for, serialize, DecodeError, Heightmap,
    PackedChunkData, Pool, PoolExhausted, UnpackedChunkData, CHUNK_BYTES, CHUNK_SIZE,
    CHUNK_VOLUME,
};

fn patterned() -> UnpackedChunkData {
    let mut u = UnpackedChunkData::new();
    for x in 0..CHUNK_SIZE {
        for y in 0..CHUNK_SIZE {
            for z in 0..CHUNK_SIZE {
                let m = (x as u32) | ((y as u32) << 8) | ((z as u32) << 16) | 0x8000_0000;
                u.set_voxel(x, y, z, m, (x + 2 * y + 3 * z) as u8);
            }
        }
    }
    u
}

#[test]
fn heightmap_new_is_flat() {
    let h = Heightmap::new();
    assert_eq!(h.get(&(0, 0)), 0);
    assert_eq!(h.get(&(15, 15)), 0);
}

#[test]
fn heightmap_set_changes_one_column() {
    let mut h = Heightmap::new();
    h.set(&(3, 4), -17);
    assert_eq!(h.get(&(3, 4)), -17);
    assert_eq!(h.get(&(4, 3)), 0);
}

#[test]
fn pack_lays_out_x_fastest() {
    let u = patterned();
    let mut p = PackedChunkData::new();
    u.pack_into(&mut p);
    // Voxel (x, y, z) sits at x + 16 y + 256 z.
    assert_eq!(p.materials()[1], 0x8000_0001);
    assert_eq!(p.materials()[16], 0x8000_0100);
    assert_eq!(p.materials()[256], 0x8001_0000);
    assert_eq!(p.materials()[1 + 2 * 16 + 3 * 256], 0x8003_0201);
    assert_eq!(p.minefield()[1 + 2 * 16 + 3 * 256], 1 + 4 + 9);
}

#[test]
fn unpack_of_pack_is_identity() {
    let u = patterned();
    let mut p = PackedChunkData::new();
    u.pack_into(&mut p);
    let mut back = UnpackedChunkData::new();
    p.unpack_into(&mut back);
    for x in 0..CHUNK_SIZE {
        for y in 0..CHUNK_SIZE {
            for z in 0..CHUNK_SIZE {
                assert_eq!(back.material(x, y, z), u.material(x, y, z));
                assert_eq!(back.mine(x, y, z), u.mine(x, y, z));
            }
        }
    }
}

#[test]
fn encode_chunk_is_little_endian_then_minefield() {
    let mut u = UnpackedChunkData::new();
    u.set_voxel(0, 0, 0, 0x0102_0304, 9);
    u.set_voxel(1, 0, 0, 0xA0B0_C0D0, 7);
    let mut p = PackedChunkData::new();
    u.pack_into(&mut p);
    let bytes = encode_chunk(&p);
    assert_eq!(bytes.len(), CHUNK_BYTES);
    assert_eq!(CHUNK_BYTES, 5 * CHUNK_VOLUME);
    assert_eq!(&bytes[0..8], &[4, 3, 2, 1, 0xD0, 0xC0, 0xB0, 0xA0]);
    assert_eq!(bytes[4 * CHUNK_VOLUME], 9);
    assert_eq!(bytes[4 * CHUNK_VOLUME + 1], 7);
}

#[test]
fn decode_chunk_reads_back_encoded_bytes() {
    let u = patterned();
    let mut p = PackedChunkData::new();
    u.pack_into(&mut p);
    let mut q = PackedChunkData::new();
    assert_eq!(decode_chunk(&encode_chunk(&p), &mut q), Ok(()));
    assert_eq!(q.materials(), p.materials());
    assert_eq!(q.minefield(), p.minefield());
}

#[test]
fn decode_chunk_rejects_short_input() {
    let mut q = PackedChunkData::new();
    assert_eq!(decode_chunk(&[0u8; 10], &mut q), Err(DecodeError::Truncated));
    assert_eq!(
        decode_chunk(&vec![0u8; CHUNK_BYTES - 1], &mut q),
        Err(DecodeError::Truncated)
    );
}

#[test]
fn serialize_round_trip() {
    let u = patterned();
    let mut p = PackedChunkData::new();
    u.pack_into(&mut p);
    let stored = serialize(&p);
    let mut q = PackedChunkData::new();
    assert_eq!(deserialize(&stored, &mut q), Ok(()));
    assert_eq!(q.materials(), p.materials());
    assert_eq!(q.minefield(), p.minefield());
}

#[test]
fn serialize_is_a_function_of_the_chunk() {
    let mut a = PackedChunkData::new();
    patterned().pack_into(&mut a);
    let mut b = PackedChunkData::new();
    patterned().pack_into(&mut b);
    assert_eq!(serialize(&a), serialize(&b));
}

#[test]
fn serialize_compresses() {
    let p = PackedChunkData::new();
    let stored = serialize(&p);
    assert_ne!(stored, encode_chunk(&p));
    assert!(stored.len() < CHUNK_BYTES / 10);
    // An LZ4 frame starts with its magic number.
    assert_eq!(&stored[0..4], &[0x04, 0x22, 0x4D, 0x18]);
}

#[test]
fn deserialize_rejects_garbage() {
    let mut q = PackedChunkData::new();
    assert_eq!(
        deserialize(&[9, 9, 9, 9, 9, 9, 9, 9], &mut q),
        Err(DecodeError::Corrupt)
    );
}

#[test]
fn deserialize_rejects_short_frame() {
    let mut p = PackedChunkData::new();
    patterned().pack_into(&mut p);
    let stored = serialize(&p);
    let mut q = PackedChunkData::new();
    assert!(deserialize(&stored[..stored.len() / 2], &mut q).is_err());
    assert_eq!(q.materials()[0], 0);
}

#[test]
fn file_names_of_nearby_coordinates_differ() {
    let a = file_name_for(&(1, -1, 0));
    assert_eq!(
        a,
        "0000000000000001FFFFFFFFFFFFFFFF0000000000000000"
    );
    assert_ne!(a, file_name_for(&(0, 1, -1)));
    assert_ne!(a, file_name_for(&(1, -1, 1)));
    assert_ne!(a, file_name_for(&(1, 0, 0)));
    assert_ne!(a, file_name_for(&(2, -1, 0)));
}

#[test]
fn file_name_of_extreme_coordinates() {
    assert_eq!(
        file_name_for(&(isize::MIN, isize::MAX, -2)),
        "80000000000000007FFFFFFFFFFFFFFFFFFFFFFFFFFFFFFE"
    );
}

#[test]
fn pool_exhausts_and_reuses_released_slot() {
    let mut pool = Pool::from_slots(vec![10u8, 20, 30]);
    assert_eq!(pool.checkout(), Ok(2));
    assert_eq!(pool.checkout(), Ok(1));
    assert_eq!(pool.checkout(), Ok(0));
    assert_eq!(pool.checkout(), Err(PoolExhausted));
    assert!(pool.is_checked_out(1));
    pool.release(1);
    assert!(!pool.is_checked_out(1));
    assert_eq!(pool.checkout(), Ok(1));
    assert_eq!(*pool.get(1), 20);
    *pool.get_mut(1) = 21;
    assert_eq!(*pool.get(1), 21);
    assert_eq!(pool.slot_count(), 3);
}
