use vstd::prelude::*;

verus! {

/// One shift of the reflected CRC-32 register (generator polynomial
/// 0xEDB88320, the one ZIP uses).
pub open spec fn crc_shift(c: u32) -> u32 {
    if c & 1 != 0 {
        0xEDB88320u32 ^ (c >> 1)
    } else {
        c >> 1
    }
}

/// `k` shifts of the CRC-32 register starting from `c`.
pub open spec fn crc_shifts(c: u32, k: nat) -> u32
    decreases k,
{
    if k == 0 {
        c
    } else {
        crc_shift(crc_shifts(c, (k - 1) as nat))
    }
}

/// The running CRC-32 value after feeding one more byte `b` into `crc`.
pub open spec fn crc32_step(crc: u32, b: u8) -> u32 {
    crc_shifts((crc ^ (b as u32)) & 0xff, 8) ^ (crc >> 8)
}

/// The running CRC-32 value after feeding all of `data`, in order, into `crc`.
pub open spec fn crc32_fold(crc: u32, data: Seq<u8>) -> u32
    decreases data.len(),
{
    if data.len() == 0 {
        crc
    } else {
        crc32_step(crc32_fold(crc, data.drop_last()), data.last())
    }
}

/// The CRC-32 checksum of `data` as ZIP records it: the register starts at
/// all ones and the result is complemented.
pub open spec fn crc32_checksum(data: Seq<u8>) -> u32 {
    !crc32_fold(0xffffffffu32, data)
}

/// Feeding one more byte takes one CRC-32 step with exactly that byte, all
/// eight of its bits included.
pub proof fn lemma_crc32_fold_push(crc: u32, data: Seq<u8>, b: u8)
    ensures
        crc32_fold(crc, data.push(b)) == crc32_step(crc32_fold(crc, data), b),
{
    assert(data.push(b).drop_last() =~= data);
}

/// Feeding `a` then `b` is feeding `a + b`: the running value carries over.
pub proof fn lemma_crc32_fold_concat(crc: u32, a: Seq<u8>, b: Seq<u8>)
    ensures
        crc32_fold(crc, a + b) == crc32_fold(crc32_fold(crc, a), b),
    decreases b.len(),
{
    if b.len() == 0 {
        assert(a + b =~= a);
    } else {
        lemma_crc32_fold_concat(crc, a, b.drop_last());
        assert((a + b).drop_last() =~= a + b.drop_last());
    }
}

/// One register shift is linear over xor (arithmetic over GF(2)).
proof fn lemma_crc_shift_xor(x: u32, y: u32)
    ensures
        crc_shift(x ^ y) == crc_shift(x) ^ crc_shift(y),
{
    assert((if (x ^ y) & 1 != 0 {
        0xEDB88320u32 ^ ((x ^ y) >> 1)
    } else {
        (x ^ y) >> 1
    }) == (if x & 1 != 0 {
        0xEDB88320u32 ^ (x >> 1)
    } else {
        x >> 1
    }) ^ (if y & 1 != 0 {
        0xEDB88320u32 ^ (y >> 1)
    } else {
        y >> 1
    })) by (bit_vector);
}

/// `k` register shifts are linear over xor.
proof fn lemma_crc_shifts_xor(x: u32, y: u32, k: nat)
    ensures
        crc_shifts(x ^ y, k) == crc_shifts(x, k) ^ crc_shifts(y, k),
    decreases k,
{
    if k > 0 {
        lemma_crc_shifts_xor(x, y, (k - 1) as nat);
        lemma_crc_shift_xor(crc_shifts(x, (k - 1) as nat), crc_shifts(y, (k - 1) as nat));
    }
}

/// Shifting a register whose low `k` bits are clear only moves it right.
proof fn lemma_crc_shifts_clear(x: u32, k: u32)
    requires
        k <= 8,
        x & 0xff == 0,
    ensures
        crc_shifts(x, k as nat) == x >> k,
    decreases k,
{
    if k > 0 {
        lemma_crc_shifts_clear(x, (k - 1) as u32);
        let p = x >> ((k - 1) as u32);
        assert((p & 1 == 0) && (p >> 1u32) == x >> k) by (bit_vector)
            requires
                p == x >> ((k - 1) as u32),
                0 < k <= 8,
                x & 0xff == 0,
        ;
        assert(crc_shifts(x, k as nat) == crc_shift(crc_shifts(x, (k - 1) as nat)));
    } else {
        assert(x >> 0u32 == x) by (bit_vector);
    }
}

/// The table-driven step equals the plain bitwise CRC-32: xor the byte into
/// the register, then shift eight times.
pub proof fn lemma_crc32_step_bitwise(crc: u32, b: u8)
    ensures
        crc32_step(crc, b) == crc_shifts(crc ^ (b as u32), 8),
{
    let x = crc ^ (b as u32);
    let lo = x & 0xff;
    let hi = x & 0xffffff00;
    assert(x == lo ^ hi && hi & 0xff == 0 && hi >> 8u32 == crc >> 8u32 && lo == (crc ^ (b as u32))
        & 0xff) by (bit_vector)
        requires
            x == crc ^ (b as u32),
            lo == x & 0xff,
            hi == x & 0xffffff00,
    ;
    lemma_crc_shifts_xor(lo, hi, 8);
    lemma_crc_shifts_clear(hi, 8);
}

/// Feeds one byte into a running CRC-32 value.
pub fn crc32(crc: u32, byte: u8) -> (r: u32)
    ensures
        r == crc32_step(crc, byte),
{
    let mut c: u32 = (crc ^ (byte as u32)) & 0xff;
    let mut k: u32 = 0;
    while k < 8
        invariant
            k <= 8,
            c == crc_shifts((crc ^ (byte as u32)) & 0xff, k as nat),
        decreases 8 - k,
    {
        c = if c & 1 != 0 {
            0xEDB88320u32 ^ (c >> 1)
        } else {
            c >> 1
        };
        k += 1;
    }
    c ^ (crc >> 8)
}

} // verus!
