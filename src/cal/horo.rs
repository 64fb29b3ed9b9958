use vstd::arithmetic::div_mod::{lemma_mod_add_multiples_vanish, lemma_small_mod};
use vstd::prelude::*;

verus! {

/// The additive constant of the seed finalizer.
pub const GOLDEN_GAMMA: u64 = 0x9e3779b97f4a7c15;

/// First multiplier of the seed finalizer.
pub const MIX_MUL_1: u64 = 0xbf58476d1ce4e5b9;

/// Second multiplier of the seed finalizer.
pub const MIX_MUL_2: u64 = 0x94d049bb133111eb;

/// Mood buckets are measured in thousandths of the unit interval.
pub const MOOD_SCALE: u128 = 1000;

/// Upper edge of `Worst`: 2.1% of the mass (beyond two standard deviations).
pub const EDGE_WORST: u128 = 21;

/// Upper edge of `Bad`: a further 13.6% (between one and two deviations).
pub const EDGE_BAD: u128 = 157;

/// Upper edge of `Normal`: a further 68.2% (within one deviation).
pub const EDGE_NORMAL: u128 = 839;

/// Upper edge of `Good`: a further 13.6%; `Best` takes everything above.
pub const EDGE_GOOD: u128 = 975;

/// The quality of a day.
#[derive(Clone, Copy, Debug, PartialEq, Eq, Structural)]
pub enum Mood {
    Worst,
    Bad,
    Normal,
    Good,
    Best,
}

/// The number of distinct 64-bit values.
pub open spec fn two_pow_64() -> nat {
    u64::MAX as nat + 1
}

/// `(x + y) mod 2^64`.
pub open spec fn add_mod64(x: u64, y: u64) -> u64 {
    ((x as nat + y as nat) % two_pow_64()) as u64
}

/// `(x * y) mod 2^64`.
pub open spec fn mul_mod64(x: u64, y: u64) -> u64 {
    ((x as nat * y as nat) % two_pow_64()) as u64
}

/// `wrapping_add` on `u64` is addition modulo 2^64.
proof fn lemma_wrapping_add(x: u64, y: u64)
    ensures
        x.wrapping_add(y) == add_mod64(x, y),
{
    let m = two_pow_64();
    if x + y > u64::MAX {
        let t = (x + y - m) as nat;
        lemma_mod_add_multiples_vanish(t as int, m as int);
        lemma_small_mod(t, m);
    } else {
        lemma_small_mod((x + y) as nat, m);
    }
}

/// The splitmix64 finalizer that turns a seed into the generator's first state.
pub open spec fn seed_state(seed: u64) -> u64 {
    let a = add_mod64(seed, GOLDEN_GAMMA);
    let b = a ^ (a >> 30u64);
    let c = mul_mod64(b, MIX_MUL_1);
    let d = c ^ (c >> 27u64);
    let e = mul_mod64(d, MIX_MUL_2);
    e ^ (e >> 31u64)
}

/// One xorshift64 step (shifts 13, 7, 17).
pub open spec fn xorshift(x: u64) -> u64 {
    let a = x ^ (x << 13u64);
    let b = a ^ (a >> 7u64);
    b ^ (b << 17u64)
}

/// The state after `n` steps from `state`.
pub open spec fn state_after(state: u64, n: nat) -> u64
    decreases n,
{
    if n == 0 {
        state
    } else {
        xorshift(state_after(state, (n - 1) as nat))
    }
}

/// The mood of a raw draw `r`, read as the fraction `r / u64::MAX` of the
/// unit interval: five contiguous buckets, the last one closed at 1.
pub open spec fn mood_of(r: u64) -> Mood {
    let v = r as int * MOOD_SCALE;
    let m = u64::MAX as int;
    if v < EDGE_WORST * m {
        Mood::Worst
    } else if v < EDGE_BAD * m {
        Mood::Bad
    } else if v < EDGE_NORMAL * m {
        Mood::Normal
    } else if v < EDGE_GOOD * m {
        Mood::Good
    } else {
        Mood::Best
    }
}

/// The first `n` moods drawn from a generator in `state`.
pub open spec fn mood_run(state: u64, n: nat) -> Seq<Mood>
    decreases n,
{
    if n == 0 {
        Seq::empty()
    } else {
        mood_run(state, (n - 1) as nat).push(mood_of(state_after(state, n)))
    }
}

/// The stream is one sequence: `n` draws followed by `m` more give the
/// same moods as `n + m` draws at once.
pub proof fn lemma_mood_run_split(state: u64, n: nat, m: nat)
    ensures
        mood_run(state, n) + mood_run(state_after(state, n), m) == mood_run(state, n + m),
    decreases m,
{
    lemma_state_after_add(state, n, m);
    if m > 0 {
        lemma_mood_run_split(state, n, (m - 1) as nat);
        lemma_state_after_add(state, n, m);
        assert(mood_run(state, n) + mood_run(state_after(state, n), m) =~= (mood_run(state, n)
            + mood_run(state_after(state, n), (m - 1) as nat)).push(
            mood_of(state_after(state_after(state, n), m)),
        ));
    } else {
        assert(mood_run(state, n) + mood_run(state_after(state, n), m) =~= mood_run(state, n));
    }
}

/// Stepping `n` then `m` times is stepping `n + m` times.
pub proof fn lemma_state_after_add(state: u64, n: nat, m: nat)
    ensures
        state_after(state_after(state, n), m) == state_after(state, n + m),
    decreases m,
{
    if m > 0 {
        lemma_state_after_add(state, n, (m - 1) as nat);
    }
}

/// The ANSI escape that colours text in a mood.
pub open spec fn mood_escape(m: Mood) -> Seq<char> {
    match m {
        Mood::Worst => "\u{1b}[91m"@,
        Mood::Bad => "\u{1b}[31m"@,
        Mood::Normal => "\u{1b}[0m"@,
        Mood::Good => "\u{1b}[32m"@,
        Mood::Best => "\u{1b}[92m"@,
    }
}

/// Maps a raw draw onto a mood; every draw has one.
pub fn mood_from_draw(r: u64) -> (m: Mood)
    ensures
        m == mood_of(r),
{
    let v: u128 = (r as u128) * MOOD_SCALE;
    let full: u128 = u64::MAX as u128;
    if v < EDGE_WORST * full {
        Mood::Worst
    } else if v < EDGE_BAD * full {
        Mood::Bad
    } else if v < EDGE_NORMAL * full {
        Mood::Normal
    } else if v < EDGE_GOOD * full {
        Mood::Good
    } else {
        Mood::Best
    }
}

impl Mood {
    /// The SGR code of the mood's colour (0 resets to the default colour).
    pub fn color_code(&self) -> (r: u8)
        ensures
            r == match *self {
                Mood::Worst => 91u8,
                Mood::Bad => 31u8,
                Mood::Normal => 0u8,
                Mood::Good => 32u8,
                Mood::Best => 92u8,
            },
    {
        match self {
            Mood::Worst => 91,
            Mood::Bad => 31,
            Mood::Normal => 0,
            Mood::Good => 32,
            Mood::Best => 92,
        }
    }

    /// The escape sequence that switches the terminal to the mood's colour.
    pub fn escape(&self) -> (r: &'static str)
        ensures
            r@ == mood_escape(*self),
    {
        match self {
            Mood::Worst => "\u{1b}[91m",
            Mood::Bad => "\u{1b}[31m",
            Mood::Normal => "\u{1b}[0m",
            Mood::Good => "\u{1b}[32m",
            Mood::Best => "\u{1b}[92m",
        }
    }
}

/// A seeded xorshift64 generator of moods.
pub struct Horo {
    state: u64,
}

impl View for Horo {
    type V = u64;

    /// The generator's internal state.
    closed spec fn view(&self) -> u64 {
        self.state
    }
}

impl Horo {
    /// A generator whose state is the finalized `seed`: equal seeds give
    /// equal generators, hence equal streams.
    pub fn new(seed: u64) -> (r: Horo)
        ensures
            r@ == seed_state(seed),
    {
        let mut s = seed.wrapping_add(GOLDEN_GAMMA);
        proof {
            lemma_wrapping_add(seed, GOLDEN_GAMMA);
        }
        s = s ^ (s >> 30u64);
        s = s.wrapping_mul(MIX_MUL_1);
        s = s ^ (s >> 27u64);
        s = s.wrapping_mul(MIX_MUL_2);
        s = s ^ (s >> 31u64);
        Horo { state: s }
    }

    /// Advances the state by one xorshift step and returns the new state.
    pub fn rand(&mut self) -> (r: u64)
        ensures
            r == xorshift(old(self)@),
            final(self)@ == r,
    {
        let mut x = self.state;
        x = x ^ (x << 13u64);
        x = x ^ (x >> 7u64);
        x = x ^ (x << 17u64);
        self.state = x;
        x
    }

    /// Draws `n` moods in order: the first `n` values of the stream.
    pub fn draw(&mut self, n: usize) -> (r: Vec<Mood>)
        ensures
            r@ == mood_run(old(self)@, n as nat),
            r@.len() == n,
            final(self)@ == state_after(old(self)@, n as nat),
    {
        let mut out: Vec<Mood> = Vec::new();
        let mut i: usize = 0;
        while i < n
            invariant
                i <= n,
                out@ == mood_run(old(self)@, i as nat),
                out@.len() == i,
                self@ == state_after(old(self)@, i as nat),
            decreases n - i,
        {
            let m = self.next();
            match m {
                Some(mood) => out.push(mood),
                None => {},
            }
            i = i + 1;
        }
        out
    }

    /// Draws the next mood. There always is one.
    pub fn next(&mut self) -> (r: Option<Mood>)
        ensures
            final(self)@ == xorshift(old(self)@),
            r == Some(mood_of(final(self)@)),
    {
        let x = self.rand();
        Some(mood_from_draw(x))
    }
}

} // verus!
