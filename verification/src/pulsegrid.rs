//! The deterministic generator behind the Pulse Grid board: a splitmix64
//! PRNG seeded from the theme so the board is identical on every launch.

use vstd::prelude::*;
use vstd::arithmetic::div_mod::lemma_add_mod_noop;

verus! {

/// The splitmix64 state increment.
pub const GAMMA: u64 = 0x9E37_79B9_7F4A_7C15;

/// The splitmix64 output function applied to an advanced state.
pub open spec fn mix(z: u64) -> u64 {
    let a = (z ^ (z >> 30u64)).wrapping_mul(0xBF58_476D_1CE4_E5B9u64);
    let b = (a ^ (a >> 27u64)).wrapping_mul(0x94D0_49BB_1331_11EBu64);
    b ^ (b >> 31u64)
}

/// A splitmix64 PRNG: tiny, dependency-free, deterministic.
pub struct Rng {
    state: u64,
}

impl View for Rng {
    type V = u64;

    closed spec fn view(&self) -> u64 {
        self.state
    }
}

impl Rng {
    /// A generator whose state is `seed`.
    pub fn new(seed: u64) -> (r: Self)
        ensures
            r@ == seed,
    {
        Self { state: seed }
    }

    /// Advance the state by [`GAMMA`] (wrapping) and return the mixed output.
    pub fn next_u64(&mut self) -> (x: u64)
        ensures
            final(self)@ == old(self)@.wrapping_add(GAMMA),
            x == mix(final(self)@),
            final(self)@ == step_state(old(self)@, Draw::Next),
            x as int == output(final(self)@, Draw::Next),
    {
        self.state = self.state.wrapping_add(GAMMA);
        let z = self.state;
        let a = (z ^ (z >> 30u64)).wrapping_mul(0xBF58_476D_1CE4_E5B9u64);
        let b = (a ^ (a >> 27u64)).wrapping_mul(0x94D0_49BB_1331_11EBu64);
        b ^ (b >> 31u64)
    }

    /// A uniform integer in `[a, b]` (inclusive); `a` itself, without
    /// drawing, when the range is empty or a single point.
    pub fn range_i(&mut self, a: i32, b: i32) -> (r: i32)
        requires
            b <= a || b - a < i32::MAX,
        ensures
            b <= a ==> r == a && final(self)@ == old(self)@,
            a < b ==> final(self)@ == old(self)@.wrapping_add(GAMMA) && r == a + (mix(
                final(self)@,
            ) % ((b - a + 1) as u64)) as int,
            a <= r && (a < b ==> r <= b),
            final(self)@ == step_state(old(self)@, Draw::Range(a, b)),
            r as int == output(final(self)@, Draw::Range(a, b)),
    {
        if b <= a {
            return a;
        }
        let span = (b - a + 1) as u64;
        let x = self.next_u64();
        let off = x % span;
        assert(off < span);
        a + off as i32
    }

    /// An index in `[0, n)`; `0`, without drawing, when `n` is zero.
    pub fn index(&mut self, n: usize) -> (r: usize)
        ensures
            n == 0 ==> r == 0 && final(self)@ == old(self)@,
            n > 0 ==> final(self)@ == old(self)@.wrapping_add(GAMMA) && r == mix(final(self)@) % (
            n as u64) && r < n,
            final(self)@ == step_state(old(self)@, Draw::Index(n)),
            r as int == output(final(self)@, Draw::Index(n)),
    {
        if n == 0 {
            return 0;
        }
        let x = self.next_u64();
        (x % n as u64) as usize
    }
}

/// One call on a generator: [`Rng::next_u64`], [`Rng::range_i`] or
/// [`Rng::index`] with its arguments.
pub enum Draw {
    Next,
    Range(i32, i32),
    Index(usize),
}

/// Whether call `c` draws, advancing the state.
pub open spec fn draws(c: Draw) -> bool {
    match c {
        Draw::Next => true,
        Draw::Range(a, b) => a < b,
        Draw::Index(n) => n > 0,
    }
}

/// The state after call `c` from state `s`.
pub open spec fn step_state(s: u64, c: Draw) -> u64 {
    if draws(c) { s.wrapping_add(GAMMA) } else { s }
}

/// What call `c` returns when the state after it is `s`.
pub open spec fn output(s: u64, c: Draw) -> int {
    match c {
        Draw::Next => mix(s) as int,
        Draw::Range(a, b) => if a < b { a + (mix(s) % ((b - a + 1) as u64)) as int } else { a as int },
        Draw::Index(n) => if n > 0 { (mix(s) % (n as u64)) as int } else { 0 },
    }
}

/// The state and the outputs of the calls `calls` on a generator made with
/// `seed`.
pub open spec fn stream(seed: u64, calls: Seq<Draw>) -> (u64, Seq<int>)
    decreases calls.len(),
{
    if calls.len() == 0 {
        (seed, Seq::empty())
    } else {
        let (st, out) = stream(seed, calls.drop_last());
        let s2 = step_state(st, calls.last());
        (s2, out.push(output(s2, calls.last())))
    }
}

/// How many of `calls` draw.
pub open spec fn draw_count(calls: Seq<Draw>) -> nat
    decreases calls.len(),
{
    if calls.len() == 0 {
        0
    } else {
        draw_count(calls.drop_last()) + if draws(calls.last()) { 1nat } else { 0nat }
    }
}

/// The state after `k` draws from `seed`: `seed + k·GAMMA`, modulo 2^64.
pub open spec fn state_after(seed: u64, k: nat) -> u64 {
    ((seed + k * GAMMA) % 0x1_0000_0000_0000_0000) as u64
}

/// The generator is a splitmix64 stream fixed by its seed: after any
/// sequence of calls the state is the seed advanced by [`GAMMA`] once per
/// drawing call, and each call's result is its output at the state reached
/// by the draws up to and including it. Two generators made with the same
/// seed thus give the same results to the same calls.
pub proof fn law_stream_is_fixed_by_the_seed(seed: u64, calls: Seq<Draw>)
    ensures
        stream(seed, calls).0 == state_after(seed, draw_count(calls)),
        stream(seed, calls).1.len() == calls.len(),
        forall|i: int| 0 <= i < calls.len() ==> stream(seed, calls).1[i] == output(
            state_after(seed, draw_count(calls.take(i + 1))),
            calls[i],
        ),
    decreases calls.len(),
{
    if calls.len() > 0 {
        let init = calls.drop_last();
        law_stream_is_fixed_by_the_seed(seed, init);
        let k = draw_count(init);
        let st = stream(seed, init).0;
        let m: int = 0x1_0000_0000_0000_0000;
        if draws(calls.last()) {
            assert(st as int == (seed + k * GAMMA) % m);
            assert(0 <= (seed + k * GAMMA) % m < m) by (nonlinear_arith)
                requires m > 0;
            lemma_add_mod_noop(seed + k * GAMMA, GAMMA as int, m);
            assert((GAMMA as int) % m == GAMMA as int);
            assert(((seed + k * GAMMA) % m + GAMMA as int) % m == (seed + k * GAMMA + GAMMA) % m);
            assert((seed + (k + 1) * GAMMA) == seed + k * GAMMA + GAMMA) by (nonlinear_arith);
            let t = st as int + GAMMA as int;
            if t >= m {
                assert(t % m == t - m) by (nonlinear_arith)
                    requires m <= t < 2 * m;
            } else {
                assert(t % m == t) by (nonlinear_arith)
                    requires 0 <= t < m;
            }
        }
        assert forall|i: int| 0 <= i < calls.len() implies stream(seed, calls).1[i] == output(
            state_after(seed, draw_count(calls.take(i + 1))),
            calls[i],
        ) by {
            if i < calls.len() - 1 {
                assert(calls.take(i + 1) =~= init.take(i + 1));
            } else {
                assert(calls.take(i + 1) =~= calls);
            }
        }
    }
}

} // verus!
