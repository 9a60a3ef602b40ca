use vstd::prelude::*;
use vstd::string::*;

verus! {

/// Position of a chunk, in chunk-grid units.
pub type ChunkStorageCoord = (isize, isize, isize);

/// The sixteen hexadecimal digits, in upper case.
pub open spec fn hex_digits() -> Seq<char> {
    seq!['0', '1', '2', '3', '4', '5', '6', '7', '8', '9', 'A', 'B', 'C', 'D', 'E', 'F']
}

pub open spec fn pow16(n: nat) -> nat
    decreases n,
{
    if n == 0 {
        1
    } else {
        16 * pow16((n - 1) as nat)
    }
}

/// The last `n` hexadecimal digits of `v`, most significant first.
pub open spec fn hex_field(v: nat, n: nat) -> Seq<char>
    decreases n,
{
    if n == 0 {
        Seq::empty()
    } else {
        hex_field(v / 16, (n - 1) as nat).push(hex_digits()[(v % 16) as int])
    }
}

/// `c` read as a 64-bit two's-complement bit pattern.
pub open spec fn twos_complement(c: int) -> nat {
    if c >= 0 {
        c as nat
    } else {
        (c + pow16(16)) as nat
    }
}

/// Name of the file that holds the chunk at `c`: each component as sixteen
/// hexadecimal digits of its two's-complement form, with no separators.
pub open spec fn chunk_file_name(c: ChunkStorageCoord) -> Seq<char> {
    hex_field(twos_complement(c.0 as int), 16) + hex_field(twos_complement(c.1 as int), 16)
        + hex_field(twos_complement(c.2 as int), 16)
}

proof fn lemma_hex_digit_injective(a: int, b: int)
    requires
        0 <= a < 16,
        0 <= b < 16,
        hex_digits()[a] == hex_digits()[b],
    ensures
        a == b,
{
}

proof fn lemma_pow16_16()
    ensures
        pow16(15) == 0x1000_0000_0000_0000,
        pow16(16) == 0x1_0000_0000_0000_0000,
{
    reveal_with_fuel(pow16, 17);
}

proof fn lemma_pow16_positive(n: nat)
    ensures
        pow16(n) > 0,
    decreases n,
{
    if n > 0 {
        lemma_pow16_positive((n - 1) as nat);
    }
}

proof fn lemma_hex_field_len(v: nat, n: nat)
    ensures
        hex_field(v, n).len() == n,
    decreases n,
{
    if n > 0 {
        lemma_hex_field_len(v / 16, (n - 1) as nat);
    }
}

proof fn lemma_hex_field_injective(a: nat, b: nat, n: nat)
    requires
        a < pow16(n),
        b < pow16(n),
        hex_field(a, n) == hex_field(b, n),
    ensures
        a == b,
    decreases n,
{
    if n > 0 {
        let m = (n - 1) as nat;
        lemma_hex_field_len(a / 16, m);
        lemma_hex_field_len(b / 16, m);
        assert(hex_field(a, n).last() == hex_digits()[(a % 16) as int]);
        assert(hex_field(b, n).last() == hex_digits()[(b % 16) as int]);
        lemma_hex_digit_injective((a % 16) as int, (b % 16) as int);
        assert(hex_field(a / 16, m) == hex_field(a, n).drop_last());
        assert(hex_field(b / 16, m) == hex_field(b, n).drop_last());
        lemma_hex_field_injective(a / 16, b / 16, m);
    }
}

/// Distinct coordinates name distinct files, over the whole range of
/// coordinates.
pub proof fn lemma_chunk_file_name_injective(a: ChunkStorageCoord, b: ChunkStorageCoord)
    requires
        chunk_file_name(a) == chunk_file_name(b),
    ensures
        a == b,
{
    lemma_pow16_16();
    let (fa, fb) = (chunk_file_name(a), chunk_file_name(b));
    let parts_a = seq![
        twos_complement(a.0 as int),
        twos_complement(a.1 as int),
        twos_complement(a.2 as int),
    ];
    let parts_b = seq![
        twos_complement(b.0 as int),
        twos_complement(b.1 as int),
        twos_complement(b.2 as int),
    ];
    assert forall|k: int| 0 <= k < 3 implies parts_a[k] == parts_b[k] by {
        lemma_hex_field_len(parts_a[0], 16);
        lemma_hex_field_len(parts_a[1], 16);
        lemma_hex_field_len(parts_a[2], 16);
        lemma_hex_field_len(parts_b[0], 16);
        lemma_hex_field_len(parts_b[1], 16);
        lemma_hex_field_len(parts_b[2], 16);
        assert(hex_field(parts_a[k], 16) == fa.subrange(16 * k, 16 * k + 16));
        assert(hex_field(parts_b[k], 16) == fb.subrange(16 * k, 16 * k + 16));
        lemma_hex_field_injective(parts_a[k], parts_b[k], 16);
    }
    assert(parts_a[0] == parts_b[0] && parts_a[1] == parts_b[1] && parts_a[2] == parts_b[2]);
}

fn twos_complement_u64(c: isize) -> (r: u64)
    ensures
        r as nat == twos_complement(c as int),
{
    proof {
        lemma_pow16_16();
    }
    let w = c as i64;
    if w >= 0 {
        w as u64
    } else {
        0xFFFF_FFFF_FFFF_FFFFu64 - ((-(w + 1)) as u64)
    }
}

/// Appends the sixteen hexadecimal digits of `v` to `s`.
fn push_hex_field(s: &mut String, v: u64)
    ensures
        final(s)@ == old(s)@ + hex_field(v as nat, 16),
{
    let digits = "0123456789ABCDEF";
    proof {
        reveal_strlit("0123456789ABCDEF");
        assert(digits@ =~= hex_digits());
        lemma_pow16_16();
    }
    let ghost start = s@;
    let mut q: u64 = 0x1000_0000_0000_0000;
    let mut i: usize = 0;
    while i < 16
        invariant
            digits@ == hex_digits(),
            i <= 16,
            i < 16 ==> q as nat == pow16((15 - i) as nat) && q > 0,
            s@ == start + hex_field(v as nat / pow16((16 - i) as nat), i as nat),
        decreases 16 - i,
    {
        let d = ((v / q) % 16) as usize;
        s.append(digits.substring_char(d, d + 1));
        proof {
            let k = (15 - i) as nat;
            assert(pow16(k + 1) == q * 16);
            vstd::arithmetic::div_mod::lemma_div_denominator(v as int, q as int, 16);
            assert(v as nat / pow16(k + 1) == (v as nat / q as nat) / 16);
            assert(hex_field(v as nat / q as nat, (i + 1) as nat) == hex_field(
                v as nat / pow16(k + 1),
                i as nat,
            ).push(hex_digits()[d as int]));
            assert(digits@.subrange(d as int, d + 1) =~= seq![hex_digits()[d as int]]);
            assert(s@ =~= start + hex_field(v as nat / q as nat, (i + 1) as nat));
            if i < 15 {
                assert(pow16(k) == pow16((k - 1) as nat) * 16);
                lemma_pow16_positive((k - 1) as nat);
            }
        }
        q = q / 16;
        i += 1;
    }
    assert(pow16(0) == 1);
    assert(v as nat / 1 == v as nat);
}

/// Name of the file that holds the chunk at `coord`.
pub fn file_name_for(coord: &ChunkStorageCoord) -> (r: String)
    ensures
        r@ == chunk_file_name(*coord),
{
    let mut name = String::new();
    push_hex_field(&mut name, twos_complement_u64(coord.0));
    push_hex_field(&mut name, twos_complement_u64(coord.1));
    push_hex_field(&mut name, twos_complement_u64(coord.2));
    assert(name@ =~= chunk_file_name(*coord));
    name
}

} // verus!
