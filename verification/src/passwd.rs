use vstd::prelude::*;

use crate::mt::{
    lemma_fresh_can_draw, lemma_fresh_step, mt_outputs, mt_state_after, MersenneTwister, MT_DRAWS,
};
use crate::text::string_from_chars;

verus! {

/// The alphabet of generated passwords: lowercase, uppercase, then digits.
pub const BASE_CHAR: [char; 62] = [
    'a', 'b', 'c', 'd', 'e', 'f', 'g', 'h', 'i', 'j', 'k', 'l', 'm', 'n', 'o', 'p', 'q', 'r', 's',
    't', 'u', 'v', 'w', 'x', 'y', 'z', 'A', 'B', 'C', 'D', 'E', 'F', 'G', 'H', 'I', 'J', 'K', 'L',
    'M', 'N', 'O', 'P', 'Q', 'R', 'S', 'T', 'U', 'V', 'W', 'X', 'Y', 'Z', '0', '1', '2', '3', '4',
    '5', '6', '7', '8', '9',
];

/// The password of length `len` for `seed`: the `k`-th character is the
/// alphabet entry at the `k`-th drawn value modulo 61.
pub open spec fn password_chars(seed: u32, len: nat) -> Seq<char> {
    mt_outputs(seed, len).map_values(|o: u32| BASE_CHAR@[(o % 61) as int])
}

/// Generates a password of `len` characters from a generator seeded with
/// `seed`. A fresh generator yields at most `MT_DRAWS` values.
pub fn generate(len: usize, seed: u32) -> (passwd: String)
    requires
        len <= MT_DRAWS,
    ensures
        passwd@ == password_chars(seed, len as nat),
{
    let mut mt = MersenneTwister::new(seed);
    let mut passwd: Vec<char> = Vec::new();
    for i in 0..len
        invariant
            len <= MT_DRAWS,
            mt@ == (mt_state_after(seed, i as nat), i as nat),
            passwd@ == password_chars(seed, i as nat),
    {
        proof {
            lemma_fresh_can_draw(seed, i as nat);
            lemma_fresh_step(seed, i as nat);
        }
        let index: usize = (mt.next() % 61) as usize;
        passwd.push(BASE_CHAR[index]);
        assert(passwd@ =~= password_chars(seed, (i + 1) as nat));
    }
    string_from_chars(&passwd)
}

/// A password has the requested length and every character is one of the
/// first 61 alphabet entries (the draw is reduced modulo 61, so the last
/// entry, `'9'`, never occurs).
pub proof fn lemma_password_alphabet(seed: u32, len: nat)
    ensures
        password_chars(seed, len).len() == len,
        forall|k: int|
            0 <= k < len ==> exists|i: int| 0 <= i < 61 && #[trigger] password_chars(seed, len)[k] == BASE_CHAR@[i],
{
    crate::mt::lemma_outputs_len(seed, len);
    assert forall|k: int| 0 <= k < len implies exists|i: int|
        0 <= i < 61 && #[trigger] password_chars(seed, len)[k] == BASE_CHAR@[i] by {
        let i = (mt_outputs(seed, len)[k] % 61) as int;
        assert(password_chars(seed, len)[k] == BASE_CHAR@[i]);
    }
}

} // verus!
