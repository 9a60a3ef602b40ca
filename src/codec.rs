use vstd::prelude::*;

use crate::chunk::{PackedChunkData, VoxelArrays};
use crate::CHUNK_VOLUME;

verus! {

/// What lz4's frame decoder reads out of `frame`, or `None` where it
/// reports an error.
pub uninterp spec fn lz4_unframe(frame: Seq<u8>) -> Option<Seq<u8>>;

/// The LZ4 frame that lz4's encoder writes for `data` at level 4.
pub uninterp spec fn lz4_frame_of(data: Seq<u8>) -> Seq<u8>;

/// Relies on lz4's `EncoderBuilder` (level 4) writing into memory, then
/// `Encoder::finish`. Writing into a `Vec` fails only where memory runs
/// out; at level 4 the frame is a function of the input, and it decodes
/// back to that input.
#[verifier::external_body]
fn compress_frame(data: &[u8]) -> (r: Option<Vec<u8>>)
    ensures
        r is Some,
        r.unwrap()@ == lz4_frame_of(data@),
        lz4_unframe(r.unwrap()@) == Some(data@),
{
    let mut encoder = lz4::EncoderBuilder::new().level(4).build(Vec::new()).ok()?;
    std::io::Write::write_all(&mut encoder, data).ok()?;
    let (out, result) = encoder.finish();
    match result {
        Ok(()) => Some(out),
        Err(_) => None,
    }
}

/// Relies on `lz4::Decoder` read to its end: the outcome depends on the
/// frame alone.
#[verifier::external_body]
fn decompress_frame(frame: &[u8]) -> (r: Option<Vec<u8>>)
    ensures
        match r {
            Some(v) => lz4_unframe(frame@) == Some(v@),
            None => lz4_unframe(frame@) is None,
        },
{
    let mut decoder = lz4::Decoder::new(frame).ok()?;
    let mut out: Vec<u8> = Vec::new();
    match std::io::Read::read_to_end(&mut decoder, &mut out) {
        Ok(_) => Some(out),
        Err(_) => None,
    }
}

/// Number of bytes in the uncompressed form of a chunk: four per material,
/// then one per minefield entry.
pub const CHUNK_BYTES: usize = 20480;

/// The four bytes of `m`, least significant first.
pub open spec fn le_bytes(m: u32) -> Seq<u8> {
    seq![(m & 0xff) as u8, ((m >> 8u32) & 0xff) as u8, ((m >> 16u32) & 0xff) as u8, (m >> 24u32) as u8]
}

/// The `u32` whose bytes, least significant first, start at `b[at]`.
pub open spec fn u32_at(b: Seq<u8>, at: int) -> u32 {
    (b[at] as u32) | ((b[at + 1] as u32) << 8u32) | ((b[at + 2] as u32) << 16u32) | ((b[at
        + 3] as u32) << 24u32)
}

/// The uncompressed bytes of a chunk: each material as four little-endian
/// bytes, followed by the minefield bytes.
pub open spec fn chunk_bytes(c: VoxelArrays) -> Seq<u8> {
    let n = 4 * c.materials.len();
    Seq::new(
        (n + c.minefield.len()) as nat,
        |i: int|
            if i < n {
                le_bytes(c.materials[i / 4])[i % 4]
            } else {
                c.minefield[i - n]
            },
    )
}

/// The chunk whose uncompressed bytes begin `b`.
pub open spec fn chunk_of_bytes(b: Seq<u8>) -> VoxelArrays {
    VoxelArrays {
        materials: Seq::new(CHUNK_VOLUME as nat, |i: int| u32_at(b, 4 * i)),
        minefield: Seq::new(CHUNK_VOLUME as nat, |j: int| b[4 * CHUNK_VOLUME + j]),
    }
}

/// Why stored bytes could not be read back as a chunk.
#[derive(Debug, Clone, Copy, PartialEq, Eq, Structural)]
pub enum DecodeError {
    /// The bytes are not a well-formed LZ4 frame.
    Corrupt,
    /// The frame holds fewer bytes than a chunk needs.
    Truncated,
}

proof fn lemma_le_bytes(m: u32)
    ensures
        u32_at(le_bytes(m), 0) == m,
{
    let b0 = (m & 0xff) as u8;
    let b1 = ((m >> 8u32) & 0xff) as u8;
    let b2 = ((m >> 16u32) & 0xff) as u8;
    let b3 = (m >> 24u32) as u8;
    assert(((b0 as u32) | ((b1 as u32) << 8u32) | ((b2 as u32) << 16u32) | ((b3 as u32)
        << 24u32)) == m) by (bit_vector)
        requires
            b0 == (m & 0xff) as u8,
            b1 == ((m >> 8u32) & 0xff) as u8,
            b2 == ((m >> 16u32) & 0xff) as u8,
            b3 == (m >> 24u32) as u8,
    ;
}

/// Reading back the uncompressed bytes of a valid chunk gives that chunk.
pub proof fn lemma_chunk_bytes_round_trip(c: VoxelArrays)
    requires
        c.wf(),
    ensures
        chunk_bytes(c).len() == CHUNK_BYTES,
        chunk_of_bytes(chunk_bytes(c)) == c,
{
    let b = chunk_bytes(c);
    assert forall|i: int| 0 <= i < CHUNK_VOLUME implies #[trigger] u32_at(b, 4 * i)
        == c.materials[i] by {
        lemma_le_bytes(c.materials[i]);
        assert(b[4 * i] == le_bytes(c.materials[i])[0]);
        assert(b[4 * i + 1] == le_bytes(c.materials[i])[1]);
        assert(b[4 * i + 2] == le_bytes(c.materials[i])[2]);
        assert(b[4 * i + 3] == le_bytes(c.materials[i])[3]);
    }
    assert(chunk_of_bytes(b).materials =~= c.materials);
    assert(chunk_of_bytes(b).minefield =~= c.minefield);
}

/// The uncompressed bytes of `chunk`.
pub fn encode_chunk(chunk: &PackedChunkData) -> (r: Vec<u8>)
    requires
        chunk@.wf(),
    ensures
        r@ == chunk_bytes(chunk@),
{
    let materials = chunk.materials();
    let minefield = chunk.minefield();
    let ghost c = chunk@;
    let mut out: Vec<u8> = Vec::new();
    let mut i: usize = 0;
    while i < CHUNK_VOLUME
        invariant
            materials@ == c.materials,
            c.wf(),
            i <= CHUNK_VOLUME,
            out@.len() == 4 * i,
            forall|k: int| 0 <= k < 4 * i ==> out@[k] == chunk_bytes(c)[k],
        decreases CHUNK_VOLUME - i,
    {
        let m = materials[i];
        out.push((m & 0xff) as u8);
        out.push(((m >> 8u32) & 0xff) as u8);
        out.push(((m >> 16u32) & 0xff) as u8);
        out.push((m >> 24u32) as u8);
        i += 1;
    }
    let mut j: usize = 0;
    while j < CHUNK_VOLUME
        invariant
            minefield@ == c.minefield,
            c.wf(),
            j <= CHUNK_VOLUME,
            out@.len() == 4 * CHUNK_VOLUME + j,
            forall|k: int| 0 <= k < 4 * CHUNK_VOLUME + j ==> out@[k] == chunk_bytes(c)[k],
        decreases CHUNK_VOLUME - j,
    {
        out.push(minefield[j]);
        j += 1;
    }
    assert(out@ =~= chunk_bytes(c));
    out
}

/// Fills `out` from uncompressed chunk bytes. Bytes past the chunk's end
/// are ignored; too few leave `out` as it was.
pub fn decode_chunk(bytes: &[u8], out: &mut PackedChunkData) -> (r: Result<(), DecodeError>)
    requires
        old(out)@.wf(),
    ensures
        r is Ok <==> bytes@.len() >= CHUNK_BYTES,
        r is Ok ==> final(out)@ == chunk_of_bytes(bytes@),
        r is Err ==> r == Err::<(), _>(DecodeError::Truncated) && final(out)@ == old(out)@,
        final(out)@.wf(),
{
    if bytes.len() < CHUNK_BYTES {
        return Err(DecodeError::Truncated);
    }
    let ghost b = bytes@;
    let mut j: usize = 0;
    while j < CHUNK_VOLUME
        invariant
            bytes@ == b,
            b.len() >= CHUNK_BYTES,
            j <= CHUNK_VOLUME,
            out@.wf(),
            forall|k: int|
                0 <= k < j ==> out@.materials[k] == u32_at(b, 4 * k) && out@.minefield[k] == b[4
                    * CHUNK_VOLUME + k],
        decreases CHUNK_VOLUME - j,
    {
        let at: usize = 4 * j;
        let m: u32 = (bytes[at] as u32) | ((bytes[at + 1] as u32) << 8u32) | ((bytes[at + 2]
            as u32) << 16u32) | ((bytes[at + 3] as u32) << 24u32);
        out.set_at(j, m, bytes[4 * CHUNK_VOLUME + j]);
        j += 1;
    }
    assert(out@.materials =~= chunk_of_bytes(b).materials);
    assert(out@.minefield =~= chunk_of_bytes(b).minefield);
    Ok(())
}

/// What stored bytes read back as: the chunk, or why there is none.
pub open spec fn deserialized(stored: Seq<u8>) -> Result<VoxelArrays, DecodeError> {
    match lz4_unframe(stored) {
        None => Err(DecodeError::Corrupt),
        Some(d) => if d.len() >= CHUNK_BYTES {
            Ok(chunk_of_bytes(d))
        } else {
            Err(DecodeError::Truncated)
        },
    }
}

/// Bytes that `serialize` wrote for a valid chunk read back as that chunk.
pub proof fn lemma_serialize_round_trip(c: VoxelArrays, stored: Seq<u8>)
    requires
        c.wf(),
        lz4_unframe(stored) == Some(chunk_bytes(c)),
    ensures
        deserialized(stored) == Ok::<VoxelArrays, DecodeError>(c),
{
    lemma_chunk_bytes_round_trip(c);
}

/// The compressed bytes that are stored for `chunk`: an LZ4 frame of its
/// uncompressed bytes, with nothing before it.
pub fn serialize(chunk: &PackedChunkData) -> (r: Vec<u8>)
    requires
        chunk@.wf(),
    ensures
        r@ == lz4_frame_of(chunk_bytes(chunk@)),
        lz4_unframe(r@) == Some(chunk_bytes(chunk@)),
{
    let bytes = encode_chunk(chunk);
    compress_frame(bytes.as_slice()).unwrap()
}

/// Fills `out` from stored bytes: decompresses them, then reads the chunk
/// out of the result. On an error `out` is left as it was.
pub fn deserialize(stored: &[u8], out: &mut PackedChunkData) -> (r: Result<(), DecodeError>)
    requires
        old(out)@.wf(),
    ensures
        final(out)@.wf(),
        match deserialized(stored@) {
            Ok(c) => r is Ok && final(out)@ == c,
            Err(e) => r == Err::<(), DecodeError>(e) && final(out)@ == old(out)@,
        },
{
    match decompress_frame(stored) {
        None => Err(DecodeError::Corrupt),
        Some(bytes) => decode_chunk(bytes.as_slice(), out),
    }
}

} // verus!
