use vstd::prelude::*;

verus! {

/// The four bytes of `x`, least significant first (how ZIP stores a 32-bit field).
pub open spec fn u32_le_bytes(x: u32) -> Seq<u8> {
    seq![(x & 0xff) as u8, ((x >> 8) & 0xff) as u8, ((x >> 16) & 0xff) as u8, (x >> 24) as u8]
}

/// The four bytes of `x`, most significant first.
pub open spec fn u32_be_bytes(x: u32) -> Seq<u8> {
    seq![(x >> 24) as u8, ((x >> 16) & 0xff) as u8, ((x >> 8) & 0xff) as u8, (x & 0xff) as u8]
}

/// The two bytes of `x`, least significant first.
pub open spec fn u16_le_bytes(x: u16) -> Seq<u8> {
    seq![(x & 0xff) as u8, (x >> 8) as u8]
}

/// The two bytes of `x`, most significant first.
pub open spec fn u16_be_bytes(x: u16) -> Seq<u8> {
    seq![(x >> 8) as u8, (x & 0xff) as u8]
}

/// The 32-bit word whose bytes, most significant first, are the bytes of
/// `x` least significant first.
pub open spec fn swap32(x: u32) -> u32 {
    ((x & 0xff) << 24) | (((x >> 8) & 0xff) << 16) | (((x >> 16) & 0xff) << 8) | (x >> 24)
}

/// The 16-bit word whose bytes, most significant first, are the bytes of
/// `x` least significant first.
pub open spec fn swap16(x: u16) -> u16 {
    ((x & 0xff) << 8) | (x >> 8)
}

/// Reverses the byte order of a 32-bit word: written most significant byte
/// first, the result gives the bytes of `byte` least significant first.
pub fn le_from_u32(byte: u32) -> (r: u32)
    ensures
        r == swap32(byte),
        u32_be_bytes(r) == u32_le_bytes(byte),
{
    let r = (byte << 24) | ((byte & 0x0000ff00) << 8) | ((byte & 0x00ff0000) >> 8) | (byte >> 24);
    assert(r == swap32(byte)) by (bit_vector)
        requires
            r == (byte << 24) | ((byte & 0x0000ff00) << 8) | ((byte & 0x00ff0000) >> 8) | (byte >> 24),
    ;
    proof {
        lemma_swapped_be_is_le32(byte);
    }
    r
}

/// Reverses the byte order of a 16-bit word: written most significant byte
/// first, the result gives the bytes of `byte` least significant first.
pub fn le_from_u16(byte: u16) -> (r: u16)
    ensures
        r == swap16(byte),
        u16_be_bytes(r) == u16_le_bytes(byte),
{
    let r = (byte << 8) | (byte >> 8);
    assert(r == swap16(byte)) by (bit_vector)
        requires
            r == (byte << 8) | (byte >> 8),
    ;
    proof {
        lemma_swapped_be_is_le16(byte);
    }
    r
}

/// Appends the bytes of `x`, most significant first.
pub fn push_u32_be(out: &mut Vec<u8>, x: u32)
    ensures
        final(out)@ == old(out)@ + u32_be_bytes(x),
{
    out.push((x >> 24) as u8);
    out.push(((x >> 16) & 0xff) as u8);
    out.push(((x >> 8) & 0xff) as u8);
    out.push((x & 0xff) as u8);
    assert(out@ =~= old(out)@ + u32_be_bytes(x));
}

/// Appends the bytes of `x`, most significant first.
pub fn push_u16_be(out: &mut Vec<u8>, x: u16)
    ensures
        final(out)@ == old(out)@ + u16_be_bytes(x),
{
    out.push((x >> 8) as u8);
    out.push((x & 0xff) as u8);
    assert(out@ =~= old(out)@ + u16_be_bytes(x));
}

/// Swapping the byte order of a 32-bit word twice gives the word back.
pub proof fn lemma_swap32_involution(x: u32)
    ensures
        swap32(swap32(x)) == x,
{
    assert(swap32(swap32(x)) == x) by (bit_vector);
}

/// Swapping the byte order of a 16-bit word twice gives the word back.
pub proof fn lemma_swap16_involution(x: u16)
    ensures
        swap16(swap16(x)) == x,
{
    assert(swap16(swap16(x)) == x) by (bit_vector);
}

/// A byte-swapped word written most significant byte first gives the bytes
/// of the unswapped word least significant first: this is how the archive writer
/// produces the little-endian fields of the ZIP format.
pub proof fn lemma_swapped_be_is_le32(x: u32)
    ensures
        u32_be_bytes(swap32(x)) == u32_le_bytes(x),
{
    let r = swap32(x);
    assert((r >> 24) as u8 == (x & 0xff) as u8 && ((r >> 16) & 0xff) as u8 == ((x >> 8) & 0xff) as u8
        && ((r >> 8) & 0xff) as u8 == ((x >> 16) & 0xff) as u8 && (r & 0xff) as u8 == (x >> 24) as u8)
        by (bit_vector)
        requires
            r == swap32(x),
    ;
    assert(u32_be_bytes(r) =~= u32_le_bytes(x));
}

/// The 16-bit counterpart of `lemma_swapped_be_is_le32`.
pub proof fn lemma_swapped_be_is_le16(x: u16)
    ensures
        u16_be_bytes(swap16(x)) == u16_le_bytes(x),
{
    let r = swap16(x);
    assert((r >> 8) as u8 == (x & 0xff) as u8 && (r & 0xff) as u8 == (x >> 8) as u8) by (bit_vector)
        requires
            r == swap16(x),
    ;
    assert(u16_be_bytes(r) =~= u16_le_bytes(x));
}

/// Byte-swapping zero gives zero.
pub proof fn lemma_swap_zero()
    ensures
        swap16(0) == 0,
        swap32(0) == 0,
{
    assert(swap16(0) == 0 && swap32(0) == 0) by (bit_vector);
}

} // verus!
