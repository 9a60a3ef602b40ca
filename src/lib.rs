//! Persistence of a sparse voxel world, one chunk at a time.
//!
//! Chunks live in two forms: an expanded one for simulation and a packed one
//! for storage and upload. Both are held in fixed pools of reusable buffers.
//! A request for a chunk reads its cached file, or generates it on a miss or a
//! corrupt file, and keeps the compressed copy on disk.

use vstd::prelude::*;

pub mod chunk;
pub mod codec;
pub mod coord;
pub mod heightmap;
pub mod pool;
pub mod storage;

pub use chunk::{PackedChunkData, UnpackedChunkData};
pub use codec::{decode_chunk, deserialize, encode_chunk, serialize, DecodeError, CHUNK_BYTES};
pub use coord::{file_name_for, ChunkStorageCoord};
pub use heightmap::Heightmap;
pub use pool::{Pool, PoolExhausted};
pub use storage::{
    ChunkAction, ChunkEvent, ChunkRequest, ChunkStorage, GenerateCause, Phase, StorageError,
};

verus! {

/// Side length of a chunk, in voxels.
pub const CHUNK_SIZE: usize = 16;

/// Number of voxels in a chunk.
pub const CHUNK_VOLUME: usize = 4096;

/// Number of buffers in each of the storage engine's two pools.
pub const NUM_BUFFERS: usize = 256;

} // verus!
