use vstd::prelude::*;
use vstd::string::*;

use crate::chunk::{PackedChunkData, UnpackedChunkData, VoxelArrays};
use crate::codec::{
    chunk_bytes, deserialize, deserialized, lemma_serialize_round_trip, lz4_frame_of, lz4_unframe,
    serialize,
    DecodeError,
};
use crate::coord::{chunk_file_name, file_name_for, ChunkStorageCoord};
use crate::pool::{next_checkout, Pool};
use crate::NUM_BUFFERS;

verus! {

/// A failure that ends a request: there is nothing to fall back on.
#[derive(Debug, Clone, Copy, PartialEq, Eq, Structural)]
pub enum StorageError {
    /// Every buffer of one of the two kinds is checked out.
    PoolExhausted,
    /// The terrain generator left the chunk's buffer malformed.
    GenerationFailure,
    /// The event does not answer what the request was waiting for.
    UnexpectedEvent,
    /// The request refers to a buffer that is no longer checked out.
    StaleRequest,
}

/// Why a chunk is being generated rather than loaded.
#[derive(Debug, Clone, Copy, PartialEq, Eq, Structural)]
pub enum GenerateCause {
    /// No file is stored for the chunk.
    Missing,
    /// The stored file could not be read.
    Unreadable,
    /// The stored file could not be decoded.
    Damaged(DecodeError),
}

/// What a request for a chunk waits for next.
#[derive(Debug, Clone, Copy, PartialEq, Eq, Structural)]
pub enum Phase {
    /// Whether the chunk's file exists.
    Probe,
    /// The bytes of the chunk's file, to be decoded into packed buffer `pc`.
    Load { pc: usize },
    /// The terrain generator, to fill unpacked buffer `uc`.
    Generate { pc: usize, uc: usize },
    /// The write of the chunk's file.
    Store { pc: usize, uc: usize },
    /// Nothing: the chunk is in packed buffer `pc`, and in an unpacked
    /// buffer where it was asked for.
    Done { pc: usize, unpacked: Option<usize> },
    /// Nothing: the request failed and holds no buffer.
    Failed,
}

/// One request for a chunk, carried from one step to the next.
#[derive(Debug, Clone, Copy)]
pub struct ChunkRequest {
    pub coord: ChunkStorageCoord,
    /// The caller wants the unpacked form as well as the packed one.
    pub keep_unpacked: bool,
    pub phase: Phase,
}

/// What happened outside since the last step.
pub enum ChunkEvent {
    /// The chunk's file exists, or not.
    Exists(bool),
    /// The chunk's file was read, or reading it failed.
    Read(Option<Vec<u8>>),
    /// The generator has filled the unpacked buffer it was given.
    Generated,
    /// The chunk's file was written, or writing it failed.
    Written(bool),
}

/// What the caller is to do next.
pub enum ChunkAction {
    /// Find out whether the file at this path exists.
    CheckExists(String),
    /// Read the whole file at this path.
    ReadFile(String),
    /// Build the chunk at `coord` into unpacked buffer `uc`: a heightmap
    /// over its columns, then its voxels.
    Generate { uc: usize, coord: ChunkStorageCoord, cause: GenerateCause },
    /// Write these bytes to the file at this path; a failure is not fatal.
    WriteFile(String, Vec<u8>),
    /// The chunk is ready in these buffers, which stay checked out until the
    /// caller releases them.
    Deliver { pc: usize, unpacked: Option<usize> },
    /// The request failed.
    Fail(StorageError),
}

/// The uncompressed bytes stored for a chunk whose unpacked form is `u`.
pub open spec fn stored_content(u: VoxelArrays) -> Seq<u8> {
    chunk_bytes(u.reordered())
}

/// Path of the file for `coord` under directory `base`.
///
/// A separator is put between them only where `base` is not empty and does
/// not already end in one.
pub open spec fn chunk_path(base: Seq<char>, coord: ChunkStorageCoord) -> Seq<char> {
    if base.len() == 0 || base.last() == '/' {
        base + chunk_file_name(coord)
    } else {
        base + seq!['/'] + chunk_file_name(coord)
    }
}

/// What the file's bytes give, as a request loading them sees it: the chunk,
/// or why it must be generated instead.
pub open spec fn load_outcome(bytes: Option<Seq<u8>>) -> Result<VoxelArrays, GenerateCause> {
    match bytes {
        None => Err(GenerateCause::Unreadable),
        Some(b) => match deserialized(b) {
            Ok(c) => Ok(c),
            Err(e) => Err(GenerateCause::Damaged(e)),
        },
    }
}

/// The file written for a generated chunk reads back as the packed form
/// that the generation delivered, so a later load gives what a fresh
/// generation gives.
pub proof fn lemma_stored_chunk_reads_back(u: VoxelArrays, stored: Seq<u8>)
    requires
        u.wf(),
        lz4_unframe(stored) == Some(stored_content(u)),
    ensures
        load_outcome(Some(stored)) == Ok::<VoxelArrays, GenerateCause>(u.reordered()),
{
    crate::chunk::lemma_unpack_pack(u);
    lemma_serialize_round_trip(u.reordered(), stored);
}

/// The bytes that a `Read` event carries.
pub open spec fn read_bytes(event: ChunkEvent) -> Option<Seq<u8>> {
    match event {
        ChunkEvent::Read(Some(v)) => Some(v@),
        _ => None,
    }
}

/// No buffer's contents changed from `a` to `b`.
pub open spec fn same_contents(a: ChunkStorage, b: ChunkStorage) -> bool {
    &&& forall|i: int| 0 <= i < NUM_BUFFERS ==> #[trigger] b.packed(i) == a.packed(i)
    &&& forall|i: int| 0 <= i < NUM_BUFFERS ==> #[trigger] b.unpacked(i) == a.unpacked(i)
}

/// Nothing changed from `a` to `b`.
pub open spec fn unchanged(a: ChunkStorage, b: ChunkStorage) -> bool {
    &&& same_contents(a, b)
    &&& b.packed_free() == a.packed_free()
    &&& b.unpacked_free() == a.unpacked_free()
}

/// Generation of the chunk at `coord` began in `new`, from the free lists
/// `pc_free` and `uc_free`: a buffer of each kind was checked out and the
/// generator asked for; or one of the pools was exhausted and the request
/// failed, holding nothing.
pub open spec fn generation_started(
    pc_free: Seq<usize>,
    uc_free: Seq<usize>,
    new: ChunkStorage,
    coord: ChunkStorageCoord,
    keep: bool,
    cause: GenerateCause,
    r: (ChunkRequest, ChunkAction),
) -> bool {
    match (next_checkout(pc_free), next_checkout(uc_free)) {
        (Some(pc), Some(uc)) => {
            &&& r.0 == (ChunkRequest { coord, keep_unpacked: keep, phase: Phase::Generate { pc, uc } })
            &&& r.1 == (ChunkAction::Generate { uc, coord, cause })
            &&& new.packed_free() == pc_free.drop_last()
            &&& new.unpacked_free() == uc_free.drop_last()
            &&& new.packed_checked_out(pc as int)
            &&& new.unpacked_checked_out(uc as int)
        },
        _ => {
            &&& r.0 == (ChunkRequest { coord, keep_unpacked: keep, phase: Phase::Failed })
            &&& r.1 == ChunkAction::Fail(StorageError::PoolExhausted)
            &&& new.packed_free() == pc_free
            &&& new.unpacked_free() == uc_free
        },
    }
}

/// The request for `coord` ended in `new` with the chunk in packed buffer
/// `pc`; unpacked buffer `uc` was kept where asked for, else released.
pub open spec fn finished(
    old: ChunkStorage,
    new: ChunkStorage,
    coord: ChunkStorageCoord,
    keep: bool,
    pc: usize,
    uc: usize,
    r: (ChunkRequest, ChunkAction),
) -> bool {
    let kept = if keep {
        Some(uc)
    } else {
        None
    };
    &&& r.0 == (ChunkRequest { coord, keep_unpacked: keep, phase: Phase::Done { pc, unpacked: kept } })
    &&& r.1 == (ChunkAction::Deliver { pc, unpacked: kept })
    &&& new.packed_checked_out(pc as int)
    &&& keep ==> new.unpacked_checked_out(uc as int)
    &&& new.packed_free() == old.packed_free()
    &&& new.unpacked_free() == if keep {
        old.unpacked_free()
    } else {
        old.unpacked_free().push(uc)
    }
}

/// Coordinate-addressed chunk storage over two fixed pools of buffers.
pub struct ChunkStorage {
    storage_dir: String,
    uc_buffers: Pool<UnpackedChunkData>,
    pc_buffers: Pool<PackedChunkData>,
}

impl ChunkStorage {
    pub closed spec fn storage_dir(&self) -> Seq<char> {
        self.storage_dir@
    }

    /// Free list of the packed buffers, the next one out last.
    pub closed spec fn packed_free(&self) -> Seq<usize> {
        self.pc_buffers.free_list()
    }

    /// Free list of the unpacked buffers, the next one out last.
    pub closed spec fn unpacked_free(&self) -> Seq<usize> {
        self.uc_buffers.free_list()
    }

    /// Contents of packed buffer `i`.
    pub closed spec fn packed(&self, i: int) -> VoxelArrays {
        self.pc_buffers.slots()[i]@
    }

    /// Contents of unpacked buffer `i`.
    pub closed spec fn unpacked(&self, i: int) -> VoxelArrays {
        self.uc_buffers.slots()[i]@
    }

    pub open spec fn packed_checked_out(&self, i: int) -> bool {
        0 <= i < NUM_BUFFERS && !self.packed_free().contains(i as usize)
    }

    pub open spec fn unpacked_checked_out(&self, i: int) -> bool {
        0 <= i < NUM_BUFFERS && !self.unpacked_free().contains(i as usize)
    }

    pub closed spec fn wf(&self) -> bool {
        &&& self.uc_buffers.wf()
        &&& self.pc_buffers.wf()
        &&& self.uc_buffers.capacity() == NUM_BUFFERS
        &&& self.pc_buffers.capacity() == NUM_BUFFERS
        &&& forall|i: int| 0 <= i < NUM_BUFFERS ==> (#[trigger] self.pc_buffers.slots()[i])@.wf()
    }

    /// Each free list of well-formed storage names a buffer at most once, and
    /// only buffers that exist.
    pub proof fn lemma_free_lists(&self)
        requires
            self.wf(),
        ensures
            self.packed_free().no_duplicates(),
            self.unpacked_free().no_duplicates(),
            forall|k: int| 0 <= k < self.packed_free().len() ==> #[trigger] self.packed_free()[k] < NUM_BUFFERS,
            forall|k: int|
                0 <= k < self.unpacked_free().len() ==> #[trigger] self.unpacked_free()[k] < NUM_BUFFERS,
    {
        self.pc_buffers.lemma_wf_free_list();
        self.uc_buffers.lemma_wf_free_list();
    }

    /// Storage under directory `storage_dir`, with every buffer free.
    pub fn new(storage_dir: String) -> (r: ChunkStorage)
        ensures
            r.wf(),
            r.storage_dir() == storage_dir@,
            r.packed_free() == Seq::new(NUM_BUFFERS as nat, |i: int| i as usize),
            r.unpacked_free() == Seq::new(NUM_BUFFERS as nat, |i: int| i as usize),
    {
        let mut uc: Vec<UnpackedChunkData> = Vec::new();
        let mut pc: Vec<PackedChunkData> = Vec::new();
        while pc.len() < NUM_BUFFERS
            invariant
                pc@.len() <= NUM_BUFFERS,
                uc@.len() == pc@.len(),
                forall|i: int| 0 <= i < pc@.len() ==> (#[trigger] pc@[i])@.wf(),
            decreases NUM_BUFFERS - pc@.len(),
        {
            uc.push(UnpackedChunkData::new());
            pc.push(PackedChunkData::new());
        }
        ChunkStorage {
            storage_dir,
            uc_buffers: Pool::from_slots(uc),
            pc_buffers: Pool::from_slots(pc),
        }
    }

    /// Path of the file for `coord` under directory `base`.
    pub fn get_path_for(base: &str, coord: &ChunkStorageCoord) -> (r: String)
        ensures
            r@ == chunk_path(base@, *coord),
    {
        let mut path = base.to_owned();
        let n = base.unicode_len();
        if n > 0 && base.get_char(n - 1) != '/' {
            let sep = "/";
            proof {
                reveal_strlit("/");
            }
            path.append(sep);
        }
        let name = file_name_for(coord);
        path.append(name.as_str());
        assert(path@ =~= chunk_path(base@, *coord));
        path
    }

    /// The packed form of the chunk in buffer `pc`, as a request delivered it.
    pub fn borrow_packed_chunk_data(&self, pc: usize) -> (r: &PackedChunkData)
        requires
            self.wf(),
            pc < NUM_BUFFERS,
        ensures
            r@ == self.packed(pc as int),
            r@.wf(),
    {
        self.pc_buffers.get(pc)
    }

    /// The unpacked form of the chunk in buffer `uc`.
    pub fn borrow_unpacked_chunk_data(&self, uc: usize) -> (r: &UnpackedChunkData)
        requires
            self.wf(),
            uc < NUM_BUFFERS,
        ensures
            r@ == self.unpacked(uc as int),
    {
        self.uc_buffers.get(uc)
    }

    /// Unpacked buffer `uc`, for the terrain generator to fill.
    pub fn unpacked_chunk_data_mut(&mut self, uc: usize) -> (r: &mut UnpackedChunkData)
        requires
            old(self).wf(),
            uc < NUM_BUFFERS,
        ensures
            r@ == old(self).unpacked(uc as int),
            final(self).wf(),
            final(self).unpacked(uc as int) == final(r)@,
            forall|i: int| 0 <= i < NUM_BUFFERS && i != uc ==> #[trigger] final(self).unpacked(i) == old(self).unpacked(i),
            forall|i: int| 0 <= i < NUM_BUFFERS ==> #[trigger] final(self).packed(i) == old(self).packed(i),
            final(self).packed_free() == old(self).packed_free(),
            final(self).unpacked_free() == old(self).unpacked_free(),
            final(self).storage_dir() == old(self).storage_dir(),
    {
        self.uc_buffers.get_mut(uc)
    }

    /// Returns packed buffer `pc` to its pool, where it is checked out.
    /// Whether it was is returned; if not, nothing changes.
    pub fn release_packed(&mut self, pc: usize) -> (r: bool)
        requires
            old(self).wf(),
        ensures
            final(self).wf(),
            final(self).storage_dir() == old(self).storage_dir(),
            same_contents(*old(self), *final(self)),
            r == old(self).packed_checked_out(pc as int),
            final(self).packed_free() == if r {
                old(self).packed_free().push(pc)
            } else {
                old(self).packed_free()
            },
            final(self).unpacked_free() == old(self).unpacked_free(),
    {
        if self.pc_buffers.is_checked_out(pc) {
            self.pc_buffers.release(pc);
            true
        } else {
            false
        }
    }

    /// Returns unpacked buffer `uc` to its pool, where it is checked out.
    /// Whether it was is returned; if not, nothing changes.
    pub fn release_unpacked(&mut self, uc: usize) -> (r: bool)
        requires
            old(self).wf(),
        ensures
            final(self).wf(),
            final(self).storage_dir() == old(self).storage_dir(),
            same_contents(*old(self), *final(self)),
            r == old(self).unpacked_checked_out(uc as int),
            final(self).unpacked_free() == if r {
                old(self).unpacked_free().push(uc)
            } else {
                old(self).unpacked_free()
            },
            final(self).packed_free() == old(self).packed_free(),
    {
        if self.uc_buffers.is_checked_out(uc) {
            self.uc_buffers.release(uc);
            true
        } else {
            false
        }
    }

    /// Checks out one buffer of each kind and asks for the chunk at
    /// `coord` to be generated into the unpacked one.
    fn start_generation(&mut self, coord: ChunkStorageCoord, keep: bool, cause: GenerateCause) -> (r: (
        ChunkRequest,
        ChunkAction,
    ))
        requires
            old(self).wf(),
        ensures
            final(self).wf(),
            final(self).storage_dir() == old(self).storage_dir(),
            same_contents(*old(self), *final(self)),
            generation_started(
                old(self).packed_free(),
                old(self).unpacked_free(),
                *final(self),
                coord,
                keep,
                cause,
                r,
            ),
    {
        let failed = ChunkRequest { coord, keep_unpacked: keep, phase: Phase::Failed };
        match self.pc_buffers.checkout() {
            Err(_) => (failed, ChunkAction::Fail(StorageError::PoolExhausted)),
            Ok(pc) => match self.uc_buffers.checkout() {
                Err(_) => {
                    self.pc_buffers.release(pc);
                    assert(self.pc_buffers.free_list() =~= old(self).pc_buffers.free_list());
                    (failed, ChunkAction::Fail(StorageError::PoolExhausted))
                },
                Ok(uc) => (
                    ChunkRequest { coord, keep_unpacked: keep, phase: Phase::Generate { pc, uc } },
                    ChunkAction::Generate { uc, coord, cause },
                ),
            },
        }
    }

    /// Ends a request whose chunk is in packed buffer `pc` and unpacked
    /// buffer `uc`.
    fn finish(&mut self, coord: ChunkStorageCoord, keep: bool, pc: usize, uc: usize) -> (r: (
        ChunkRequest,
        ChunkAction,
    ))
        requires
            old(self).wf(),
            old(self).packed_checked_out(pc as int),
            old(self).unpacked_checked_out(uc as int),
        ensures
            final(self).wf(),
            final(self).storage_dir() == old(self).storage_dir(),
            same_contents(*old(self), *final(self)),
            finished(*old(self), *final(self), coord, keep, pc, uc, r),
    {
        if keep {
            (
                ChunkRequest { coord, keep_unpacked: keep, phase: Phase::Done { pc, unpacked: Some(uc) } },
                ChunkAction::Deliver { pc, unpacked: Some(uc) },
            )
        } else {
            self.uc_buffers.release(uc);
            (
                ChunkRequest { coord, keep_unpacked: keep, phase: Phase::Done { pc, unpacked: None } },
                ChunkAction::Deliver { pc, unpacked: None },
            )
        }
    }

    /// Starts a request for the chunk at `coord`, for its packed form and,
    /// where `keep_unpacked` holds, its unpacked form too.
    pub fn begin_request(&self, coord: &ChunkStorageCoord, keep_unpacked: bool) -> (r: (
        ChunkRequest,
        ChunkAction,
    ))
        ensures
            r.0 == (ChunkRequest { coord: *coord, keep_unpacked, phase: Phase::Probe }),
            r.1 matches ChunkAction::CheckExists(p) && p@ == chunk_path(self.storage_dir(), *coord),
    {
        let path = Self::get_path_for(self.storage_dir.as_str(), coord);
        (ChunkRequest { coord: *coord, keep_unpacked, phase: Phase::Probe }, ChunkAction::CheckExists(path))
    }

    /// Takes a request one step on: from what it waited for and the event
    /// that answers it, to its next phase and what the caller is to do.
    ///
    /// A missing, unreadable or undecodable file leads to generation; a
    /// failed write does not stop the request. Only an exhausted pool, a
    /// generator that broke its buffer, or a misused request end it in
    /// failure.
    pub fn advance(&mut self, req: ChunkRequest, event: ChunkEvent) -> (r: (ChunkRequest, ChunkAction))
        requires
            old(self).wf(),
        ensures
            final(self).wf(),
            final(self).storage_dir() == old(self).storage_dir(),
            match (req.phase, event) {
                (Phase::Probe, ChunkEvent::Exists(false)) => {
                    &&& same_contents(*old(self), *final(self))
                    &&& generation_started(
                        old(self).packed_free(),
                        old(self).unpacked_free(),
                        *final(self),
                        req.coord,
                        req.keep_unpacked,
                        GenerateCause::Missing,
                        r,
                    )
                },
                (Phase::Probe, ChunkEvent::Exists(true)) => {
                    &&& same_contents(*old(self), *final(self))
                    &&& final(self).unpacked_free() == old(self).unpacked_free()
                    &&& match next_checkout(old(self).packed_free()) {
                        None => {
                            &&& r.0 == (ChunkRequest { phase: Phase::Failed, ..req })
                            &&& r.1 == ChunkAction::Fail(StorageError::PoolExhausted)
                            &&& final(self).packed_free() == old(self).packed_free()
                        },
                        Some(pc) => {
                            &&& r.0 == (ChunkRequest { phase: Phase::Load { pc }, ..req })
                            &&& r.1 matches ChunkAction::ReadFile(p) && p@ == chunk_path(
                                old(self).storage_dir(),
                                req.coord,
                            )
                            &&& final(self).packed_free() == old(self).packed_free().drop_last()
                            &&& final(self).packed_checked_out(pc as int)
                        },
                    }
                },
                (Phase::Load { pc }, ChunkEvent::Read(_)) => if !old(self).packed_checked_out(
                    pc as int,
                ) {
                    r.0 == req && r.1 == ChunkAction::Fail(StorageError::StaleRequest) && unchanged(
                        *old(self),
                        *final(self),
                    )
                } else {
                    match load_outcome(read_bytes(event)) {
                        Err(cause) => {
                            &&& same_contents(*old(self), *final(self))
                            &&& generation_started(
                                old(self).packed_free().push(pc),
                                old(self).unpacked_free(),
                                *final(self),
                                req.coord,
                                req.keep_unpacked,
                                cause,
                                r,
                            )
                        },
                        Ok(c) => {
                            &&& final(self).packed(pc as int) == c
                            &&& forall|i: int|
                                0 <= i < NUM_BUFFERS && i != pc ==> #[trigger] final(self).packed(i)
                                    == old(self).packed(i)
                            &&& if !req.keep_unpacked {
                                &&& r.0 == (ChunkRequest {
                                    phase: Phase::Done { pc, unpacked: None },
                                    ..req
                                })
                                &&& r.1 == (ChunkAction::Deliver { pc, unpacked: None })
                                &&& final(self).packed_checked_out(pc as int)
                                &&& final(self).packed_free() == old(self).packed_free()
                                &&& final(self).unpacked_free() == old(self).unpacked_free()
                                &&& forall|i: int|
                                    0 <= i < NUM_BUFFERS ==> #[trigger] final(self).unpacked(i)
                                        == old(self).unpacked(i)
                            } else {
                                match next_checkout(old(self).unpacked_free()) {
                                    None => {
                                        &&& r.0 == (ChunkRequest { phase: Phase::Failed, ..req })
                                        &&& r.1 == ChunkAction::Fail(StorageError::PoolExhausted)
                                        &&& final(self).packed_free() == old(self).packed_free().push(pc)
                                        &&& final(self).unpacked_free() == old(self).unpacked_free()
                                        &&& forall|i: int|
                                            0 <= i < NUM_BUFFERS ==> #[trigger] final(self).unpacked(
                                                i,
                                            ) == old(self).unpacked(i)
                                    },
                                    Some(uc) => {
                                        &&& r.0 == (ChunkRequest {
                                            phase: Phase::Done { pc, unpacked: Some(uc) },
                                            ..req
                                        })
                                        &&& r.1 == (ChunkAction::Deliver { pc, unpacked: Some(uc) })
                                        &&& final(self).packed_checked_out(pc as int)
                                        &&& final(self).unpacked_checked_out(uc as int)
                                        &&& final(self).packed_free() == old(self).packed_free()
                                        &&& final(self).unpacked_free()
                                            == old(self).unpacked_free().drop_last()
                                        &&& final(self).unpacked(uc as int) == c.reordered()
                                        &&& forall|i: int|
                                            0 <= i < NUM_BUFFERS && i != uc ==> #[trigger] final(self).unpacked(i) == old(self).unpacked(i)
                                    },
                                }
                            }
                        },
                    }
                },
                (Phase::Generate { pc, uc }, ChunkEvent::Generated) => if !old(self).packed_checked_out(pc as int) || !old(self).unpacked_checked_out(uc as int) {
                    r.0 == req && r.1 == ChunkAction::Fail(StorageError::StaleRequest) && unchanged(
                        *old(self),
                        *final(self),
                    )
                } else if !old(self).unpacked(uc as int).wf() {
                    &&& r.0 == (ChunkRequest { phase: Phase::Failed, ..req })
                    &&& r.1 == ChunkAction::Fail(StorageError::GenerationFailure)
                    &&& same_contents(*old(self), *final(self))
                    &&& final(self).packed_free() == old(self).packed_free().push(pc)
                    &&& final(self).unpacked_free() == old(self).unpacked_free().push(uc)
                } else {
                    &&& final(self).packed(pc as int) == old(self).unpacked(uc as int).reordered()
                    &&& forall|i: int|
                        0 <= i < NUM_BUFFERS && i != pc ==> #[trigger] final(self).packed(i) == old(self).packed(i)
                    &&& forall|i: int|
                        0 <= i < NUM_BUFFERS ==> #[trigger] final(self).unpacked(i) == old(self).unpacked(i)
                    &&& r.0 == (ChunkRequest { phase: Phase::Store { pc, uc }, ..req })
                    &&& r.1 matches ChunkAction::WriteFile(p, b) && p@ == chunk_path(
                        old(self).storage_dir(),
                        req.coord,
                    ) && b@ == lz4_frame_of(stored_content(old(self).unpacked(uc as int)))
                        && lz4_unframe(b@) == Some(stored_content(old(self).unpacked(uc as int)))
                    &&& final(self).packed_free() == old(self).packed_free()
                    &&& final(self).unpacked_free() == old(self).unpacked_free()
                    &&& final(self).packed_checked_out(pc as int)
                    &&& final(self).unpacked_checked_out(uc as int)
                },
                (Phase::Store { pc, uc }, ChunkEvent::Written(_)) => if !old(self).packed_checked_out(
                    pc as int,
                ) || !old(self).unpacked_checked_out(uc as int) {
                    r.0 == req && r.1 == ChunkAction::Fail(StorageError::StaleRequest) && unchanged(
                        *old(self),
                        *final(self),
                    )
                } else {
                    &&& same_contents(*old(self), *final(self))
                    &&& finished(
                        *old(self),
                        *final(self),
                        req.coord,
                        req.keep_unpacked,
                        pc,
                        uc,
                        r,
                    )
                },
                _ => r.0 == req && r.1 == ChunkAction::Fail(StorageError::UnexpectedEvent) && unchanged(
                    *old(self),
                    *final(self),
                ),
            },
    {
        let coord = req.coord;
        let keep = req.keep_unpacked;
        match req.phase {
            Phase::Probe => match event {
                ChunkEvent::Exists(false) => self.start_generation(coord, keep, GenerateCause::Missing),
                ChunkEvent::Exists(true) => match self.pc_buffers.checkout() {
                    Err(_) => (
                        ChunkRequest { phase: Phase::Failed, ..req },
                        ChunkAction::Fail(StorageError::PoolExhausted),
                    ),
                    Ok(pc) => {
                        let path = Self::get_path_for(self.storage_dir.as_str(), &coord);
                        (ChunkRequest { phase: Phase::Load { pc }, ..req }, ChunkAction::ReadFile(path))
                    },
                },
                _ => (req, ChunkAction::Fail(StorageError::UnexpectedEvent)),
            },
            Phase::Load { pc } => match event {
                ChunkEvent::Read(bytes) => {
                    if !self.pc_buffers.is_checked_out(pc) {
                        return (req, ChunkAction::Fail(StorageError::StaleRequest));
                    }
                    let cause = match bytes {
                        None => GenerateCause::Unreadable,
                        Some(b) => match deserialize(b.as_slice(), self.pc_buffers.get_mut(pc)) {
                            Err(e) => GenerateCause::Damaged(e),
                            Ok(()) => {
                                return self.deliver_loaded(req, pc);
                            },
                        },
                    };
                    self.pc_buffers.release(pc);
                    self.start_generation(coord, keep, cause)
                },
                _ => (req, ChunkAction::Fail(StorageError::UnexpectedEvent)),
            },
            Phase::Generate { pc, uc } => match event {
                ChunkEvent::Generated => {
                    if !self.pc_buffers.is_checked_out(pc) || !self.uc_buffers.is_checked_out(uc) {
                        return (req, ChunkAction::Fail(StorageError::StaleRequest));
                    }
                    if !self.uc_buffers.get(uc).is_well_formed() {
                        self.pc_buffers.release(pc);
                        self.uc_buffers.release(uc);
                        return (
                            ChunkRequest { phase: Phase::Failed, ..req },
                            ChunkAction::Fail(StorageError::GenerationFailure),
                        );
                    }
                    self.uc_buffers.get(uc).pack_into(self.pc_buffers.get_mut(pc));
                    let bytes = serialize(self.pc_buffers.get(pc));
                    let path = Self::get_path_for(self.storage_dir.as_str(), &coord);
                    (
                        ChunkRequest { phase: Phase::Store { pc, uc }, ..req },
                        ChunkAction::WriteFile(path, bytes),
                    )
                },
                _ => (req, ChunkAction::Fail(StorageError::UnexpectedEvent)),
            },
            Phase::Store { pc, uc } => match event {
                ChunkEvent::Written(_) => {
                    if !self.pc_buffers.is_checked_out(pc) || !self.uc_buffers.is_checked_out(uc) {
                        return (req, ChunkAction::Fail(StorageError::StaleRequest));
                    }
                    self.finish(coord, keep, pc, uc)
                },
                _ => (req, ChunkAction::Fail(StorageError::UnexpectedEvent)),
            },
            _ => (req, ChunkAction::Fail(StorageError::UnexpectedEvent)),
        }
    }

    /// Ends a request whose chunk was loaded into packed buffer `pc`,
    /// unpacking it first where the caller asked for that form too.
    fn deliver_loaded(&mut self, req: ChunkRequest, pc: usize) -> (r: (ChunkRequest, ChunkAction))
        requires
            old(self).wf(),
            old(self).packed_checked_out(pc as int),
        ensures
            final(self).wf(),
            final(self).storage_dir() == old(self).storage_dir(),
            forall|i: int| 0 <= i < NUM_BUFFERS ==> #[trigger] final(self).packed(i) == old(self).packed(i),
            if !req.keep_unpacked {
                &&& r.0 == (ChunkRequest { phase: Phase::Done { pc, unpacked: None }, ..req })
                &&& r.1 == (ChunkAction::Deliver { pc, unpacked: None })
                &&& final(self).packed_checked_out(pc as int)
                &&& final(self).packed_free() == old(self).packed_free()
                &&& final(self).unpacked_free() == old(self).unpacked_free()
                &&& forall|i: int|
                    0 <= i < NUM_BUFFERS ==> #[trigger] final(self).unpacked(i) == old(self).unpacked(i)
            } else {
                match next_checkout(old(self).unpacked_free()) {
                    None => {
                        &&& r.0 == (ChunkRequest { phase: Phase::Failed, ..req })
                        &&& r.1 == ChunkAction::Fail(StorageError::PoolExhausted)
                        &&& final(self).packed_free() == old(self).packed_free().push(pc)
                        &&& final(self).unpacked_free() == old(self).unpacked_free()
                        &&& forall|i: int|
                            0 <= i < NUM_BUFFERS ==> #[trigger] final(self).unpacked(i) == old(self).unpacked(i)
                    },
                    Some(uc) => {
                        &&& r.0 == (ChunkRequest {
                            phase: Phase::Done { pc, unpacked: Some(uc) },
                            ..req
                        })
                        &&& r.1 == (ChunkAction::Deliver { pc, unpacked: Some(uc) })
                        &&& final(self).packed_checked_out(pc as int)
                        &&& final(self).unpacked_checked_out(uc as int)
                        &&& final(self).packed_free() == old(self).packed_free()
                        &&& final(self).unpacked_free() == old(self).unpacked_free().drop_last()
                        &&& final(self).unpacked(uc as int) == old(self).packed(pc as int).reordered()
                        &&& forall|i: int|
                            0 <= i < NUM_BUFFERS && i != uc ==> #[trigger] final(self).unpacked(i)
                                == old(self).unpacked(i)
                    },
                }
            },
    {
        if !req.keep_unpacked {
            return (ChunkRequest { phase: Phase::Done { pc, unpacked: None }, ..req }, ChunkAction::Deliver { pc, unpacked: None });
        }
        match self.uc_buffers.checkout() {
            Err(_) => {
                self.pc_buffers.release(pc);
                (ChunkRequest { phase: Phase::Failed, ..req }, ChunkAction::Fail(StorageError::PoolExhausted))
            },
            Ok(uc) => {
                if !self.uc_buffers.get(uc).is_well_formed() {
                    *self.uc_buffers.get_mut(uc) = UnpackedChunkData::new();
                }
                self.pc_buffers.get(pc).unpack_into(self.uc_buffers.get_mut(uc));
                (
                    ChunkRequest { phase: Phase::Done { pc, unpacked: Some(uc) }, ..req },
                    ChunkAction::Deliver { pc, unpacked: Some(uc) },
                )
            },
        }
    }
}

} // verus!
