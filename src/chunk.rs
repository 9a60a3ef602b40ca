use vstd::prelude::*;

use crate::{CHUNK_SIZE, CHUNK_VOLUME};

verus! {

/// Position of voxel `(x, y, z)` in packed order: `x` varies fastest, as in
/// the three-dimensional images that the renderer uploads to.
pub open spec fn packed_index(x: int, y: int, z: int) -> int {
    x + y * CHUNK_SIZE + z * (CHUNK_SIZE * CHUNK_SIZE)
}

/// Position of voxel `(x, y, z)` in unpacked order: `z` varies fastest, so
/// that each vertical column is contiguous.
pub open spec fn unpacked_index(x: int, y: int, z: int) -> int {
    z + y * CHUNK_SIZE + x * (CHUNK_SIZE * CHUNK_SIZE)
}

/// Maps a position in one order to the position of the same voxel in the
/// other: the `x` and `z` digits of the index trade places.
pub open spec fn swap_xz(j: int) -> int {
    let c = CHUNK_SIZE as int;
    j / (c * c) + (j / c) % c * c + j % c * (c * c)
}

/// A per-voxel array laid out in the other order.
pub open spec fn reorder<T>(s: Seq<T>) -> Seq<T> {
    Seq::new(CHUNK_VOLUME as nat, |j: int| s[swap_xz(j)])
}

/// The two per-voxel arrays of a chunk, in the order of its representation.
pub ghost struct VoxelArrays {
    pub materials: Seq<u32>,
    pub minefield: Seq<u8>,
}

impl VoxelArrays {
    pub open spec fn wf(self) -> bool {
        self.materials.len() == CHUNK_VOLUME && self.minefield.len() == CHUNK_VOLUME
    }

    /// The same voxels, laid out in the other order.
    pub open spec fn reordered(self) -> VoxelArrays {
        VoxelArrays { materials: reorder(self.materials), minefield: reorder(self.minefield) }
    }
}

pub proof fn lemma_swap_xz(j: int)
    requires
        0 <= j < CHUNK_VOLUME,
    ensures
        0 <= swap_xz(j) < CHUNK_VOLUME,
        swap_xz(swap_xz(j)) == j,
{
    let jj = j as u32;
    assert(((jj / 256) + ((jj / 16) % 16) * 16 + (jj % 16) * 256) < 4096
        && (((jj / 256) + ((jj / 16) % 16) * 16 + (jj % 16) * 256) / 256) + (((((jj / 256) + ((
        jj / 16) % 16) * 16 + (jj % 16) * 256) / 16) % 16) * 16) + ((((jj / 256) + ((jj / 16)
        % 16) * 16 + (jj % 16) * 256) % 16) * 256) == jj) by (bit_vector)
        requires
            jj < 4096,
    ;
}

/// Both orders place voxel `(x, y, z)` within the chunk, and swapping
/// digits takes its packed position to its unpacked one.
pub proof fn lemma_voxel_positions(x: int, y: int, z: int)
    requires
        0 <= x < CHUNK_SIZE,
        0 <= y < CHUNK_SIZE,
        0 <= z < CHUNK_SIZE,
    ensures
        0 <= packed_index(x, y, z) < CHUNK_VOLUME,
        0 <= unpacked_index(x, y, z) < CHUNK_VOLUME,
        swap_xz(packed_index(x, y, z)) == unpacked_index(x, y, z),
{
    let j = packed_index(x, y, z);
    assert(0 <= j < 4096 && j / 256 == z && (j / 16) % 16 == y && j % 16 == x) by (nonlinear_arith)
        requires
            0 <= x < 16,
            0 <= y < 16,
            0 <= z < 16,
            j == x + y * 16 + z * 256,
    ;
    assert(0 <= unpacked_index(x, y, z) < 4096) by (nonlinear_arith)
        requires
            0 <= x < 16,
            0 <= y < 16,
            0 <= z < 16,
    ;
}

/// Reordering twice gives back the array that was started from.
pub proof fn lemma_reorder_involution<T>(s: Seq<T>)
    requires
        s.len() == CHUNK_VOLUME,
    ensures
        reorder(reorder(s)) == s,
{
    assert forall|j: int| 0 <= j < CHUNK_VOLUME implies #[trigger] reorder(reorder(s))[j]
        == s[j] by {
        lemma_swap_xz(j);
    }
    assert(reorder(reorder(s)) =~= s);
}

/// Packing a valid unpacked chunk and unpacking the result gives back the
/// chunk that was started from.
pub proof fn lemma_unpack_pack(u: VoxelArrays)
    requires
        u.wf(),
    ensures
        u.reordered().wf(),
        u.reordered().reordered() == u,
{
    lemma_reorder_involution(u.materials);
    lemma_reorder_involution(u.minefield);
}

fn swap_xz_index(j: usize) -> (r: usize)
    requires
        j < CHUNK_VOLUME,
    ensures
        r == swap_xz(j as int),
        r < CHUNK_VOLUME,
{
    proof {
        lemma_swap_xz(j as int);
    }
    (j / (CHUNK_SIZE * CHUNK_SIZE)) + ((j / CHUNK_SIZE) % CHUNK_SIZE) * CHUNK_SIZE + (j
        % CHUNK_SIZE) * (CHUNK_SIZE * CHUNK_SIZE)
}

fn unpacked_offset(x: usize, y: usize, z: usize) -> (r: usize)
    requires
        x < CHUNK_SIZE,
        y < CHUNK_SIZE,
        z < CHUNK_SIZE,
    ensures
        r == unpacked_index(x as int, y as int, z as int),
        r < CHUNK_VOLUME,
{
    assert(z + y * 16 + x * 256 < 4096) by (nonlinear_arith)
        requires
            x < 16,
            y < 16,
            z < 16,
    ;
    z + y * CHUNK_SIZE + x * (CHUNK_SIZE * CHUNK_SIZE)
}

/// Copies `src` into `dst`, laid out in the other order.
fn reorder_into<T: Copy>(src: &Vec<T>, dst: &mut Vec<T>)
    requires
        src@.len() == CHUNK_VOLUME,
        old(dst)@.len() == CHUNK_VOLUME,
    ensures
        final(dst)@ == reorder(src@),
{
    let mut j: usize = 0;
    while j < CHUNK_VOLUME
        invariant
            src@.len() == CHUNK_VOLUME,
            dst@.len() == CHUNK_VOLUME,
            j <= CHUNK_VOLUME,
            forall|k: int| 0 <= k < j ==> dst@[k] == src@[swap_xz(k)],
        decreases CHUNK_VOLUME - j,
    {
        let from = swap_xz_index(j);
        dst.set(j, src[from]);
        j += 1;
    }
    assert(dst@ =~= reorder(src@));
}

fn filled<T: Copy>(value: T) -> (r: Vec<T>)
    ensures
        r@ == Seq::new(CHUNK_VOLUME as nat, |j: int| value),
{
    let mut r: Vec<T> = Vec::new();
    while r.len() < CHUNK_VOLUME
        invariant
            r@.len() <= CHUNK_VOLUME,
            forall|k: int| 0 <= k < r@.len() ==> r@[k] == value,
        decreases CHUNK_VOLUME - r@.len(),
    {
        r.push(value);
    }
    assert(r@ =~= Seq::new(CHUNK_VOLUME as nat, |j: int| value));
    r
}

/// The expanded form of a chunk: one material and one minefield byte per
/// voxel, each vertical column stored contiguously.
pub struct UnpackedChunkData {
    materials: Vec<u32>,
    minefield: Vec<u8>,
}

/// The compact form of a chunk: the same two arrays in the renderer's order,
/// ready to be written out byte for byte.
pub struct PackedChunkData {
    materials: Vec<u32>,
    minefield: Vec<u8>,
}

impl View for UnpackedChunkData {
    type V = VoxelArrays;

    closed spec fn view(&self) -> VoxelArrays {
        VoxelArrays { materials: self.materials@, minefield: self.minefield@ }
    }
}

impl View for PackedChunkData {
    type V = VoxelArrays;

    closed spec fn view(&self) -> VoxelArrays {
        VoxelArrays { materials: self.materials@, minefield: self.minefield@ }
    }
}

impl UnpackedChunkData {
    /// A chunk of empty voxels: material zero, minefield zero.
    pub fn new() -> (r: UnpackedChunkData)
        ensures
            r@.wf(),
            forall|j: int| 0 <= j < CHUNK_VOLUME ==> r@.materials[j] == 0 && r@.minefield[j] == 0,
    {
        UnpackedChunkData { materials: filled(0u32), minefield: filled(0u8) }
    }

    /// Material of voxel `(x, y, z)`.
    pub fn material(&self, x: usize, y: usize, z: usize) -> (r: u32)
        requires
            self@.wf(),
            x < CHUNK_SIZE,
            y < CHUNK_SIZE,
            z < CHUNK_SIZE,
        ensures
            r == self@.materials[unpacked_index(x as int, y as int, z as int)],
    {
        self.materials[unpacked_offset(x, y, z)]
    }

    /// Minefield byte of voxel `(x, y, z)`.
    pub fn mine(&self, x: usize, y: usize, z: usize) -> (r: u8)
        requires
            self@.wf(),
            x < CHUNK_SIZE,
            y < CHUNK_SIZE,
            z < CHUNK_SIZE,
        ensures
            r == self@.minefield[unpacked_index(x as int, y as int, z as int)],
    {
        self.minefield[unpacked_offset(x, y, z)]
    }

    /// Sets the material and the minefield byte of voxel `(x, y, z)`.
    pub fn set_voxel(&mut self, x: usize, y: usize, z: usize, material: u32, mine: u8)
        requires
            old(self)@.wf(),
            x < CHUNK_SIZE,
            y < CHUNK_SIZE,
            z < CHUNK_SIZE,
        ensures
            final(self)@ == (VoxelArrays {
                materials: old(self)@.materials.update(
                    unpacked_index(x as int, y as int, z as int),
                    material,
                ),
                minefield: old(self)@.minefield.update(
                    unpacked_index(x as int, y as int, z as int),
                    mine,
                ),
            }),
    {
        let i = unpacked_offset(x, y, z);
        self.materials.set(i, material);
        self.minefield.set(i, mine);
    }

    /// Whether both arrays hold one entry per voxel.
    pub fn is_well_formed(&self) -> (r: bool)
        ensures
            r == self@.wf(),
    {
        self.materials.len() == CHUNK_VOLUME && self.minefield.len() == CHUNK_VOLUME
    }

    /// Writes the packed form of this chunk into `packed`.
    pub fn pack_into(&self, packed: &mut PackedChunkData)
        requires
            self@.wf(),
            old(packed)@.wf(),
        ensures
            final(packed)@ == self@.reordered(),
            final(packed)@.wf(),
            forall|x: int, y: int, z: int|
                0 <= x < CHUNK_SIZE && 0 <= y < CHUNK_SIZE && 0 <= z < CHUNK_SIZE ==> {
                    &&& #[trigger] final(packed)@.materials[packed_index(x, y, z)]
                        == self@.materials[unpacked_index(x, y, z)]
                    &&& final(packed)@.minefield[packed_index(x, y, z)]
                        == self@.minefield[unpacked_index(x, y, z)]
                },
    {
        reorder_into(&self.materials, &mut packed.materials);
        reorder_into(&self.minefield, &mut packed.minefield);
        assert forall|x: int, y: int, z: int|
            0 <= x < CHUNK_SIZE && 0 <= y < CHUNK_SIZE && 0 <= z < CHUNK_SIZE implies {
                &&& #[trigger] packed@.materials[packed_index(x, y, z)]
                    == self@.materials[unpacked_index(x, y, z)]
                &&& packed@.minefield[packed_index(x, y, z)]
                    == self@.minefield[unpacked_index(x, y, z)]
            } by {
            lemma_voxel_positions(x, y, z);
        }
    }
}

impl PackedChunkData {
    /// A chunk of empty voxels: material zero, minefield zero.
    pub fn new() -> (r: PackedChunkData)
        ensures
            r@.wf(),
            forall|j: int| 0 <= j < CHUNK_VOLUME ==> r@.materials[j] == 0 && r@.minefield[j] == 0,
    {
        PackedChunkData { materials: filled(0u32), minefield: filled(0u8) }
    }

    /// The materials, one per voxel, `x` varying fastest.
    pub fn materials(&self) -> (r: &Vec<u32>)
        ensures
            r@ == self@.materials,
    {
        &self.materials
    }

    /// The minefield bytes, one per voxel, `x` varying fastest.
    pub fn minefield(&self) -> (r: &Vec<u8>)
        ensures
            r@ == self@.minefield,
    {
        &self.minefield
    }

    /// Sets the material and the minefield byte at position `j` of packed order.
    pub fn set_at(&mut self, j: usize, material: u32, mine: u8)
        requires
            old(self)@.wf(),
            j < CHUNK_VOLUME,
        ensures
            final(self)@ == (VoxelArrays {
                materials: old(self)@.materials.update(j as int, material),
                minefield: old(self)@.minefield.update(j as int, mine),
            }),
    {
        self.materials.set(j, material);
        self.minefield.set(j, mine);
    }

    /// Writes the unpacked form of this chunk into `unpacked`.
    pub fn unpack_into(&self, unpacked: &mut UnpackedChunkData)
        requires
            self@.wf(),
            old(unpacked)@.wf(),
        ensures
            final(unpacked)@ == self@.reordered(),
            final(unpacked)@.wf(),
    {
        reorder_into(&self.materials, &mut unpacked.materials);
        reorder_into(&self.minefield, &mut unpacked.minefield);
    }
}

} // verus!
