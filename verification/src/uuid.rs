use vstd::prelude::*;

use crate::mt::{lemma_fresh_can_draw, lemma_fresh_step, mt_outputs, mt_state_after, MersenneTwister};
use crate::text::{hex_text, push_hex, string_from_chars};

verus! {

/// The sixteen values drawn for the identifier: each draw reduced modulo
/// 0xff, with the version nibble of value 6 set to 4 and the top bits of
/// value 8 set to the variant `10`.
pub open spec fn uuid_values(seed: u32) -> Seq<u16> {
    let raw = mt_outputs(seed, 16).map_values(|o: u32| (o % 0xff) as u16);
    raw.update(6, (raw[6] & 0x0f) | 0x40).update(8, (raw[8] & 0x3f) | 0x80)
}

/// The hexadecimal texts of `u[a]`, ..., `u[b - 1]`, one after the other.
pub open spec fn hex_run(u: Seq<u16>, a: int, b: int) -> Seq<char>
    decreases b - a,
{
    if b <= a {
        seq![]
    } else {
        hex_run(u, a, b - 1) + hex_text(u[b - 1])
    }
}

/// The identifier text: the values in hexadecimal without padding, grouped
/// 4-2-2-2-6 and the groups joined by `-`.
pub open spec fn uuid_text(u: Seq<u16>) -> Seq<char> {
    hex_run(u, 0, 4) + seq!['-'] + hex_run(u, 4, 6) + seq!['-'] + hex_run(u, 6, 8) + seq!['-']
        + hex_run(u, 8, 10) + seq!['-'] + hex_run(u, 10, 16)
}

/// The identifier values each fit a byte; value 6 carries version 4 in its
/// high nibble and value 8 the variant bits `10` in its top two bits.
pub proof fn lemma_uuid_version_variant(seed: u32)
    ensures
        uuid_values(seed).len() == 16,
        forall|k: int| 0 <= k < 16 ==> #[trigger] uuid_values(seed)[k] <= 0xff,
        uuid_values(seed)[6] >> 4u16 == 4,
        uuid_values(seed)[8] >> 6u16 == 2,
{
    crate::mt::lemma_outputs_len(seed, 16);
    let raw = mt_outputs(seed, 16).map_values(|o: u32| (o % 0xff) as u16);
    assert forall|k: int| 0 <= k < 16 implies #[trigger] raw[k] < 0xff by {}
    let a = raw[6];
    let b = raw[8];
    assert(((a & 0x0f) | 0x40) >> 4u16 == 4 && ((a & 0x0f) | 0x40) <= 0xff && ((b & 0x3f) | 0x80)
        >> 6u16 == 2 && ((b & 0x3f) | 0x80) <= 0xff) by (bit_vector);
}

/// Draws the sixteen identifier values from a generator seeded with `seed`.
pub fn generate(seed: u32) -> (uuid: Vec<u16>)
    ensures
        uuid@.len() == 16,
        uuid@ == uuid_values(seed),
{
    let mut uuid: Vec<u16> = Vec::with_capacity(16);
    let mut mt = MersenneTwister::new(seed);
    for i in 0..16
        invariant
            mt@ == (mt_state_after(seed, i as nat), i as nat),
            uuid@.len() == i,
            uuid@ == mt_outputs(seed, i as nat).map_values(|o: u32| (o % 0xff) as u16),
    {
        proof {
            lemma_fresh_can_draw(seed, i as nat);
            lemma_fresh_step(seed, i as nat);
        }
        let digits = (mt.next() % 0xff) as u16;
        uuid.push(digits);
        assert(uuid@ =~= mt_outputs(seed, (i + 1) as nat).map_values(|o: u32| (o % 0xff) as u16));
    }
    uuid.set(6, (uuid[6] & 0x0f) | 0x40);
    uuid.set(8, (uuid[8] & 0x3f) | 0x80);
    uuid
}

/// Appends the hexadecimal texts of `u[a]`, ..., `u[b - 1]`.
fn push_hex_run(chars: &mut Vec<char>, u: &Vec<u16>, a: usize, b: usize)
    requires
        a <= b <= u@.len(),
    ensures
        final(chars)@ == old(chars)@ + hex_run(u@, a as int, b as int),
{
    let mut k = a;
    while k < b
        invariant
            a <= k <= b <= u@.len(),
            chars@ == old(chars)@ + hex_run(u@, a as int, k as int),
        decreases b - k,
    {
        push_hex(chars, u[k]);
        assert(hex_run(u@, a as int, k + 1) == hex_run(u@, a as int, k as int) + hex_text(u@[k as int]));
        k += 1;
    }
}

/// Formats identifier values as text: the first sixteen values in
/// hexadecimal, grouped 4-2-2-2-6 and joined by `-`.
pub fn parse(uuid: Vec<u16>) -> (s: String)
    requires
        uuid@.len() >= 16,
    ensures
        s@ == uuid_text(uuid@),
{
    let mut chars: Vec<char> = Vec::new();
    push_hex_run(&mut chars, &uuid, 0, 4);
    chars.push('-');
    push_hex_run(&mut chars, &uuid, 4, 6);
    chars.push('-');
    push_hex_run(&mut chars, &uuid, 6, 8);
    chars.push('-');
    push_hex_run(&mut chars, &uuid, 8, 10);
    chars.push('-');
    push_hex_run(&mut chars, &uuid, 10, 16);
    assert(chars@ =~= uuid_text(uuid@));
    string_from_chars(&chars)
}

} // verus!
