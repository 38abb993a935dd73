use vstd::arithmetic::power2::{lemma2_to64, pow2};
use vstd::prelude::*;

verus! {

/// Big-endian bytes of a 16-bit value.
pub open spec fn be16(v: u16) -> Seq<u8> {
    seq![(v / 256) as u8, (v % 256) as u8]
}

/// Big-endian bytes of a 32-bit value.
pub open spec fn be32(v: u32) -> Seq<u8> {
    seq![
        (v / 0x1000000) as u8,
        ((v / 0x10000) % 256) as u8,
        ((v / 256) % 256) as u8,
        (v % 256) as u8,
    ]
}

/// The 16-bit value read big-endian from two bytes.
pub open spec fn read_be16(hi: u8, lo: u8) -> u16 {
    (hi as int * 256 + lo as int) as u16
}

pub fn push_u16_be(buf: &mut Vec<u8>, v: u16)
    ensures
        final(buf)@ == old(buf)@ + be16(v),
{
    buf.push((v / 256) as u8);
    buf.push((v % 256) as u8);
    assert(final(buf)@ =~= old(buf)@ + be16(v));
}

pub fn push_u32_be(buf: &mut Vec<u8>, v: u32)
    ensures
        final(buf)@ == old(buf)@ + be32(v),
{
    buf.push((v / 0x1000000) as u8);
    buf.push(((v / 0x10000) % 256) as u8);
    buf.push(((v / 256) % 256) as u8);
    buf.push((v % 256) as u8);
    assert(final(buf)@ =~= old(buf)@ + be32(v));
}

/// Appends every byte of `src` to `buf`.
pub fn push_all(buf: &mut Vec<u8>, src: &[u8])
    ensures
        final(buf)@ == old(buf)@ + src@,
{
    let mut i: usize = 0;
    while i < src.len()
        invariant
            i <= src@.len(),
            buf@ == old(buf)@ + src@.subrange(0, i as int),
        decreases src@.len() - i,
    {
        buf.push(src[i]);
        i += 1;
        assert(buf@ =~= old(buf)@ + src@.subrange(0, i as int));
    }
    assert(src@.subrange(0, src@.len() as int) =~= src@);
}

/// Button `i`, reading `false` past the end of the array.
pub open spec fn button_at(b: Seq<bool>, i: int) -> bool {
    0 <= i < b.len() && b[i]
}

/// The byte that holds buttons `start .. start + k`, button `start` in its
/// least significant bit.
pub open spec fn pack_lsb(b: Seq<bool>, start: int, k: nat) -> nat
    decreases k,
{
    if k == 0 {
        0
    } else {
        (if button_at(b, start) { 1nat } else { 0nat }) + 2 * pack_lsb(b, start + 1, (k - 1) as nat)
    }
}

/// Number of bytes that hold `n` buttons.
pub open spec fn button_byte_count(n: nat) -> nat {
    (n + 7) / 8
}

/// Buttons as they go on the wire: eight to a byte, least significant bit
/// first, the byte holding the last buttons first.
pub open spec fn button_bytes(b: Seq<bool>) -> Seq<u8> {
    let n = button_byte_count(b.len());
    Seq::new(n, |k: int| pack_lsb(b, 8 * (n - 1 - k), 8) as u8)
}

pub proof fn lemma_pack_bound(b: Seq<bool>, start: int, k: nat)
    ensures
        pack_lsb(b, start, k) < pow2(k),
    decreases k,
{
    lemma2_to64();
    if k > 0 {
        lemma_pack_bound(b, start + 1, (k - 1) as nat);
        vstd::arithmetic::power2::lemma_pow2_unfold(k);
    }
}

/// Packs a button array into the bytes that carry it on the wire.
pub fn to_u8_vec(vec_in: &[bool]) -> (r: Vec<u8>)
    ensures
        r@ == button_bytes(vec_in@),
{
    let len = vec_in.len();
    let n: usize = len / 8 + if len % 8 == 0 { 0 } else { 1 };
    assert(n == button_byte_count(len as nat));
    let mut out: Vec<u8> = Vec::new();
    let mut k: usize = 0;
    while k < n
        invariant
            k <= n,
            n == button_byte_count(vec_in@.len()),
            len == vec_in@.len(),
            out@.len() == k,
            forall|i: int| 0 <= i < k ==> out@[i] == button_bytes(vec_in@)[i],
        decreases n - k,
    {
        let base: usize = 8 * (n - 1 - k);
        let mut num: u8 = 0;
        let mut j: usize = 8;
        while j > 0
            invariant
                j <= 8,
                base == 8 * (n - 1 - k),
                len == vec_in@.len(),
                num as nat == pack_lsb(vec_in@, base + j, (8 - j) as nat),
            decreases j,
        {
            proof {
                lemma_pack_bound(vec_in@, base + j, (8 - j) as nat);
                lemma2_to64();
                assert(pow2((8 - j) as nat) <= 128) by {
                    if j == 8 {
                    } else if j == 7 {
                    } else if j == 6 {
                    } else if j == 5 {
                    } else if j == 4 {
                    } else if j == 3 {
                    } else if j == 2 {
                    } else {
                    }
                };
            }
            let idx = base + (j - 1);
            let bit: u8 = if idx < len && vec_in[idx] { 1 } else { 0 };
            num = 2 * num + bit;
            j -= 1;
            assert(pack_lsb(vec_in@, base + j, (8 - j) as nat) == (if button_at(vec_in@, base + j) {
                1nat
            } else {
                0nat
            }) + 2 * pack_lsb(vec_in@, base + j + 1, (8 - j - 1) as nat));
        }
        out.push(num);
        k += 1;
    }
    assert(out@ =~= button_bytes(vec_in@));
    out
}

} // verus!
