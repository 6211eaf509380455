pub mod call_info;
pub mod execute;
pub mod lua_limits;
pub mod lua_ref;
pub mod lua_state;
pub mod safe_option;
pub mod table_builder;

use vstd::prelude::*;

verus! {

/// Hook mask bit: call events.
pub const LUA_MASKCALL: u8 = 1;
/// Hook mask bit: return events.
pub const LUA_MASKRET: u8 = 2;

/// Rotate a 64-bit word left by `n` bits (0 < n < 64).
pub open spec fn rotl(x: u64, n: u64) -> u64
    recommends
        0 < n < 64,
{
    (x << n) | (x >> ((64 - n) as u64))
}

/// The output of xoshiro256** for a state: `rotl(s1 * 5, 7) * 9`, wrapping.
pub open spec fn xoshiro_output(s: Seq<u64>) -> u64 {
    vstd::wrapping::u64_specs::wrapping_mul(
        rotl(vstd::wrapping::u64_specs::wrapping_mul(s[1], 5), 7),
        9,
    )
}

/// The xoshiro256** state transition.
pub open spec fn xoshiro_next(s: Seq<u64>) -> Seq<u64> {
    let s2 = s[2] ^ s[0];
    let s3 = s[3] ^ s[1];
    seq![s[0] ^ s3, s[1] ^ s2, s2 ^ (s[1] << 17u64), rotl(s3, 45)]
}

/// The state after `k` transitions.
pub open spec fn xoshiro_advance(s: Seq<u64>, k: nat) -> Seq<u64>
    decreases k,
{
    if k == 0 {
        s
    } else {
        xoshiro_next(xoshiro_advance(s, (k - 1) as nat))
    }
}

/// The state a seed pair sets up, before the warm-up draws.
pub open spec fn seed_state(n1: i64, n2: i64) -> Seq<u64> {
    seq![n1 as u64, 0xff, n2 as u64, 0]
}

/// Rotate a 64-bit word left by `n` bits (0 < n < 64).
pub fn rotate_left(x: u64, n: u64) -> (r: u64)
    requires
        0 < n < 64,
    ensures
        r == rotl(x, n),
{
    (x << n) | (x >> (64 - n))
}

/// The xoshiro256** generator behind `math.random`, seeded from two integers.
#[derive(Clone, Copy)]
pub struct LuaRng {
    pub state: [u64; 4],
}

impl LuaRng {
    /// Seed from two integers, then discard 16 values to spread the seed.
    pub fn from_seed(n1: i64, n2: i64) -> (r: Self)
        ensures
            r.state@ == xoshiro_advance(seed_state(n1, n2), 16),
    {
        let mut rng = LuaRng { state: [n1 as u64, 0xff, n2 as u64, 0] };
        assert(rng.state@ == seed_state(n1, n2));
        let mut i: u32 = 0;
        while i < 16
            invariant
                i <= 16,
                rng.state@ == xoshiro_advance(seed_state(n1, n2), i as nat),
            decreases 16 - i,
        {
            rng.next_rand();
            i = i + 1;
        }
        rng
    }

    /// Seed from a time value.
    pub fn from_seed_time(time: u64) -> (r: Self)
        ensures
            r.state@ == xoshiro_advance(seed_state(time as i64, 0), 16),
    {
        Self::from_seed(time as i64, 0)
    }

    /// The next 64 random bits (xoshiro256**).
    pub fn next_rand(&mut self) -> (r: u64)
        ensures
            r == xoshiro_output(old(self).state@),
            final(self).state@ == xoshiro_next(old(self).state@),
    {
        let s0 = self.state[0];
        let s1 = self.state[1];
        let s2 = self.state[2] ^ s0;
        let s3 = self.state[3] ^ s1;
        let res = rotate_left(s1.wrapping_mul(5), 7).wrapping_mul(9);
        self.state = [s0 ^ s3, s1 ^ s2, s2 ^ (s1 << 17), rotate_left(s3, 45)];
        assert(self.state@ =~= xoshiro_next(old(self).state@));
        res
    }
}

} // verus!
