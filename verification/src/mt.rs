use vstd::prelude::*;

verus! {

/// Number of positions in the generator's index ring.
pub const MT_RING: usize = 624;

/// Number of state words that the constructor fills (one fewer than the ring).
pub const MT_FILLED: usize = 623;

/// Distance between a word and the word it is twisted with.
pub const MT_SHIFT: usize = 397;

/// How many values a freshly seeded generator can produce: the next draw would
/// read the state word at index `MT_FILLED`, which the constructor never fills.
pub const MT_DRAWS: usize = 226;

/// State word `k` as the constructor computes it from `seed`.
pub open spec fn mt_init_word(seed: u32, k: nat) -> u32
    decreases k,
{
    if k == 0 {
        seed
    } else {
        let p = mt_init_word(seed, (k - 1) as nat);
        ((1812433253 * ((p ^ (p >> 30)) as int) + k) % 0x1_0000_0000) as u32
    }
}

/// The state words of a freshly seeded generator.
pub open spec fn mt_init(seed: u32) -> Seq<u32> {
    Seq::new(MT_FILLED as nat, |k: int| mt_init_word(seed, k as nat))
}

/// The new value of state word `i` after one draw.
pub open spec fn mt_twist(x: Seq<u32>, i: int) -> u32 {
    let z = (x[i] & 0x80000000u32) | (x[(i + 1) % 624] & 0x7fffffffu32);
    x[(i + 397) % 624] ^ (z >> 1u32) ^ (if z & 1u32 == 0 {
        0u32
    } else {
        0x9908b0dfu32
    })
}

/// The tempering transform applied to a twisted word before it is returned.
pub open spec fn mt_temper(y0: u32) -> u32 {
    let y1 = y0 ^ (y0 >> 11u32);
    let y2 = y1 ^ ((y1 << 7u32) & 0x9d2c5680u32);
    let y3 = y2 ^ ((y2 << 15u32) & 0xefc60000u32);
    y3 ^ (y3 >> 18u32)
}

/// The state words of a generator seeded with `seed` after `n` draws.
pub open spec fn mt_state_after(seed: u32, n: nat) -> Seq<u32>
    decreases n,
{
    if n == 0 {
        mt_init(seed)
    } else {
        let x = mt_state_after(seed, (n - 1) as nat);
        let i = ((n - 1) % 624) as int;
        x.update(i, mt_twist(x, i))
    }
}

/// The first `n` values drawn from a generator seeded with `seed`.
pub open spec fn mt_outputs(seed: u32, n: nat) -> Seq<u32>
    decreases n,
{
    if n == 0 {
        seq![]
    } else {
        let x = mt_state_after(seed, (n - 1) as nat);
        mt_outputs(seed, (n - 1) as nat).push(mt_temper(mt_twist(x, ((n - 1) % 624) as int)))
    }
}

/// The Mersenne Twister generator that seeds the archive's random values.
pub struct MersenneTwister {
    i: usize,
    x: Vec<u32>,
}

impl View for MersenneTwister {
    /// The state words and the index of the next word to twist.
    type V = (Seq<u32>, nat);

    closed spec fn view(&self) -> (Seq<u32>, nat) {
        (self.x@, self.i as nat)
    }
}

/// A draw reads the state word at the index, the next one and the one
/// `MT_SHIFT` further on (around the ring); all must be filled words.
pub open spec fn mt_can_draw(v: (Seq<u32>, nat)) -> bool {
    &&& v.0.len() == MT_FILLED
    &&& v.1 < MT_FILLED
    &&& (v.1 as int + 1) % (MT_RING as int) < MT_FILLED as int
    &&& (v.1 as int + MT_SHIFT as int) % (MT_RING as int) < MT_FILLED as int
}

impl MersenneTwister {
    #[verifier::type_invariant]
    spec fn well_formed(self) -> bool {
        &&& self.x@.len() == MT_FILLED
        &&& self.i < MT_RING
    }

    /// Seeds a generator: the first state word is the seed and each later one
    /// is derived from its predecessor.
    pub fn new(seed: u32) -> (mt: MersenneTwister)
        ensures
            mt@ == (mt_init(seed), 0nat),
    {
        let mut x: Vec<u32> = Vec::with_capacity(624);
        x.push(seed & 0xffffffff);
        assert(seed & 0xffffffff == seed) by (bit_vector);
        for i in 1..(624 - 1)
            invariant
                x@.len() == i,
                forall|k: int| 0 <= k < i ==> x@[k] == mt_init_word(seed, k as nat),
        {
            let prev = x[i - 1];
            let tmp: u64 = (prev ^ (prev >> 30)) as u64;
            assert(1812433253 * tmp <= 1812433253 * 0xffffffffu64) by (nonlinear_arith)
                requires
                    tmp <= 0xffffffffu64,
            ;
            let v: u64 = 1812433253 * tmp + i as u64;
            assert((v & 0xffffffff) as u32 == (v % 0x1_0000_0000) as u32) by (bit_vector);
            let val: u32 = (v & 0xffffffff) as u32;
            x.push(val as u32);
        }
        let mt = MersenneTwister { i: 0, x };
        assert(mt.x@ =~= mt_init(seed));
        mt
    }

    /// Draws the next value: twists the state word at the index, advances the
    /// index around the ring, and returns the tempered word.
    pub fn next(&mut self) -> (r: u32)
        requires
            mt_can_draw(old(self)@),
        ensures
            r == mt_temper(mt_twist(old(self)@.0, old(self)@.1 as int)),
            final(self)@ == (
                old(self)@.0.update(old(self)@.1 as int, mt_twist(old(self)@.0, old(self)@.1 as int)),
                ((old(self)@.1 as int + 1) % (MT_RING as int)) as nat,
            ),
    {
        proof {
            use_type_invariant(&*self);
        }
        let z: u32 = self.x[self.i] & 0x80000000 | self.x[(self.i + 1) % 624] & 0x7fffffff;
        let t: u32 = self.x[(self.i + 397) % 624] ^ (z >> 1) ^ (if (z & 1) == 0 {
            0
        } else {
            0x9908b0df
        });
        let i = self.i;
        self.x[i] = t;
        let mut y: u32 = self.x[self.i];
        y ^= y >> 11;
        y ^= (y << 7) & 0x9d2c5680;
        y ^= (y << 15) & 0xefc60000;
        y ^= y >> 18;
        self.i = (self.i + 1) % 624;
        y
    }
}

/// `n` draws give `n` values.
pub proof fn lemma_outputs_len(seed: u32, n: nat)
    ensures
        mt_outputs(seed, n).len() == n,
    decreases n,
{
    if n > 0 {
        lemma_outputs_len(seed, (n - 1) as nat);
    }
}

/// A freshly seeded generator can be drawn from `MT_DRAWS` times: after
/// `n < MT_DRAWS` draws its index is `n` and the words it reads are filled.
pub proof fn lemma_fresh_can_draw(seed: u32, n: nat)
    requires
        n < MT_DRAWS,
    ensures
        mt_can_draw((mt_state_after(seed, n), n)),
    decreases n,
{
    if n > 0 {
        lemma_fresh_can_draw(seed, (n - 1) as nat);
    }
}

/// One step of a freshly seeded generator, unfolded: after `n + 1` draws the
/// state and the drawn values extend those after `n` draws.
pub proof fn lemma_fresh_step(seed: u32, n: nat)
    requires
        n < MT_DRAWS,
    ensures
        n % 624 == n,
        (n + 1) % 624 == n + 1,
        mt_state_after(seed, n + 1) == mt_state_after(seed, n).update(
            n as int,
            mt_twist(mt_state_after(seed, n), n as int),
        ),
        mt_outputs(seed, n + 1) == mt_outputs(seed, n).push(
            mt_temper(mt_twist(mt_state_after(seed, n), n as int)),
        ),
{
    lemma_fresh_can_draw(seed, n);
}

} // verus!
