//! Deterministic seeded random-number generator.
//!
//! The whole replay/verification design rests on this stream being a pure
//! function of its seed: two generators seeded identically produce identical
//! sequences on every platform and build. The generator is a 64-bit xorshift;
//! its step is fully specified, so every consumer's output is provably a
//! function of the seed.

use vstd::prelude::*;

verus! {

/// State the generator falls back to when seeded with zero, which the
/// xorshift step would otherwise map to itself forever.
pub const ZERO_SEED_STATE: u64 = 0x9E3779B97F4A7C15;

/// One xorshift64 step: the successor of a generator state.
pub open spec fn next_state(s: u64) -> u64 {
    let a = s ^ (s << 13);
    let b = a ^ (a >> 7);
    b ^ (b << 17)
}

/// The generator state that seeding with `seed` produces.
pub open spec fn seeded_state(seed: u64) -> u64 {
    if seed == 0 {
        ZERO_SEED_STATE
    } else {
        seed
    }
}

/// Seeded pseudo-random source. The sequence of values drawn from it is a
/// pure function of the seed, which the contracts below pin down exactly.
#[derive(Clone, Copy, PartialEq, Eq, Structural, Debug)]
pub struct SeededRng {
    state: u64,
}

impl SeededRng {
    /// The current internal state; spec-level handle on the stream position.
    pub closed spec fn view_state(self) -> u64 {
        self.state
    }

    /// A generator at the start of the stream determined by `seed`.
    pub fn from_seed(seed: u64) -> (r: SeededRng)
        ensures
            r.view_state() == seeded_state(seed),
    {
        if seed == 0 {
            SeededRng { state: ZERO_SEED_STATE }
        } else {
            SeededRng { state: seed }
        }
    }

    /// Draws the next 64-bit value; the stream advances by one step.
    pub fn next_u64(&mut self) -> (r: u64)
        ensures
            r == next_state(old(self).view_state()),
            final(self).view_state() == next_state(old(self).view_state()),
    {
        let a = self.state ^ (self.state << 13u64);
        let b = a ^ (a >> 7u64);
        let c = b ^ (b << 17u64);
        self.state = c;
        c
    }

    /// Draws a value below `bound`: the next stream value reduced modulo
    /// `bound`.
    pub fn below(&mut self, bound: u32) -> (r: u32)
        requires
            bound > 0,
        ensures
            r == next_state(old(self).view_state()) as int % (bound as int),
            r < bound,
            final(self).view_state() == next_state(old(self).view_state()),
    {
        let x = self.next_u64();
        (x % (bound as u64)) as u32
    }

    /// Draws a value in `lo..=hi`.
    pub fn range_inclusive(&mut self, lo: i32, hi: i32) -> (r: i32)
        requires
            lo <= hi,
            hi - lo < u32::MAX,
        ensures
            r == lo + next_state(old(self).view_state()) as int % (hi - lo + 1),
            lo <= r <= hi,
            final(self).view_state() == next_state(old(self).view_state()),
    {
        let span = ((hi as i64) - (lo as i64) + 1) as u32;
        let off = self.below(span);
        ((lo as i64) + (off as i64)) as i32
    }
}

/// Sum of a weight table.
pub open spec fn total_weight(ws: Seq<u32>) -> int
    decreases ws.len(),
{
    if ws.len() == 0 {
        0
    } else {
        ws[0] + total_weight(ws.skip(1))
    }
}

/// The index the cumulative-weight scan selects for a given roll: the
/// first index whose cumulative weight exceeds the roll.
pub open spec fn weighted_pick(roll: int, ws: Seq<u32>) -> int
    decreases ws.len(),
{
    if ws.len() == 0 {
        0
    } else if roll < ws[0] {
        0
    } else {
        1 + weighted_pick(roll - ws[0], ws.skip(1))
    }
}

pub proof fn lemma_total_weight_push(ws: Seq<u32>, w: u32)
    ensures
        total_weight(ws.push(w)) == total_weight(ws) + w,
    decreases ws.len(),
{
    if ws.len() == 0 {
        assert(ws.push(w).skip(1) =~= Seq::<u32>::empty());
        assert(ws.push(w)[0] == w);
        assert(total_weight(ws.push(w)) == w + total_weight(ws.push(w).skip(1)));
        assert(total_weight(Seq::<u32>::empty()) == 0);
    } else {
        assert(ws.push(w).skip(1) =~= ws.skip(1).push(w));
        assert(ws.push(w)[0] == ws[0]);
        lemma_total_weight_push(ws.skip(1), w);
        assert(total_weight(ws.push(w)) == ws[0] + total_weight(ws.skip(1).push(w)));
        assert(total_weight(ws) == ws[0] + total_weight(ws.skip(1)));
    }
}

pub proof fn lemma_total_weight_take_le(ws: Seq<u32>, i: int)
    requires
        0 <= i <= ws.len(),
    ensures
        0 <= total_weight(ws.take(i)) <= total_weight(ws),
    decreases ws.len(),
{
    if ws.len() == 0 {
        assert(ws.take(i) =~= ws);
    } else if i == 0 {
        assert(ws.take(0) =~= Seq::<u32>::empty());
        lemma_total_weight_take_le(ws.skip(1), 0);
    } else {
        assert(ws.take(i).skip(1) =~= ws.skip(1).take(i - 1));
        lemma_total_weight_take_le(ws.skip(1), i - 1);
    }
}

/// A roll inside the table's total weight always lands on an entry, and
/// never on one whose weight is zero: a zero-weight option is never
/// selected.
pub proof fn lemma_weighted_pick_valid(roll: int, ws: Seq<u32>)
    requires
        0 <= roll < total_weight(ws),
    ensures
        0 <= weighted_pick(roll, ws) < ws.len(),
        ws[weighted_pick(roll, ws)] > 0,
    decreases ws.len(),
{
    if ws.len() == 0 {
    } else if roll < ws[0] {
    } else {
        lemma_weighted_pick_valid(roll - ws[0], ws.skip(1));
    }
}

/// Draws an index from a weight table: each index is selected with
/// probability proportional to its weight, and a zero-weight index is
/// never selected. Consumes exactly one stream value.
pub fn choose_weighted(rng: &mut SeededRng, ws: &Vec<u32>) -> (i: usize)
    requires
        0 < total_weight(ws@) <= u32::MAX,
    ensures
        i == weighted_pick(
            next_state(old(rng).view_state()) as int % total_weight(ws@),
            ws@,
        ),
        i < ws@.len(),
        ws@[i as int] > 0,
        final(rng).view_state() == next_state(old(rng).view_state()),
    decreases ws@.len(),
{
    let mut total: u32 = 0;
    let mut j: usize = 0;
    while j < ws.len()
        invariant
            0 <= j <= ws@.len(),
            total == total_weight(ws@.take(j as int)),
            total_weight(ws@) <= u32::MAX,
        decreases ws@.len() - j,
    {
        proof {
            lemma_total_weight_push(ws@.take(j as int), ws@[j as int]);
            lemma_total_weight_take_le(ws@, j + 1);
            assert(ws@.take(j + 1) =~= ws@.take(j as int).push(ws@[j as int]));
        }
        total = total + ws[j];
        j = j + 1;
    }
    proof {
        assert(ws@.take(ws@.len() as int) =~= ws@);
    }
    let roll = rng.below(total);
    let ghost roll0 = roll as int;
    proof {
        lemma_weighted_pick_valid(roll0, ws@);
    }
    let mut i: usize = 0;
    let mut acc: u32 = 0;
    while i < ws.len()
        invariant
            0 <= i <= ws@.len(),
            acc == total_weight(ws@.take(i as int)),
            acc <= roll0,
            roll == roll0,
            roll0 == next_state(old(rng).view_state()) as int % total_weight(ws@),
            rng.view_state() == next_state(old(rng).view_state()),
            roll0 < total_weight(ws@),
            total_weight(ws@) <= u32::MAX,
            weighted_pick(roll0, ws@) == i + weighted_pick(roll0 - acc, ws@.skip(i as int)),
            0 <= weighted_pick(roll0, ws@) < ws@.len(),
            ws@[weighted_pick(roll0, ws@)] > 0,
        decreases ws@.len() - i,
    {
        proof {
            lemma_total_weight_push(ws@.take(i as int), ws@[i as int]);
            lemma_total_weight_take_le(ws@, i + 1);
            assert(ws@.take(i + 1) =~= ws@.take(i as int).push(ws@[i as int]));
            assert(ws@.skip(i as int)[0] == ws@[i as int]);
            assert(ws@.skip(i as int).skip(1) =~= ws@.skip(i + 1));
        }
        if roll < acc + ws[i] {
            return i;
        }
        acc = acc + ws[i];
        i = i + 1;
        proof {
            if i < ws@.len() {
            } else {
                assert(ws@.take(i as int) =~= ws@);
            }
        }
    }
    proof {
        assert(ws@.take(ws@.len() as int) =~= ws@);
        assert(false);
    }
    0
}

/// Relies on rand::random: one draw from the thread-local entropy
/// source. Nothing is promised of the value; it seeds the session and
/// the cosmetic stream, and everything downstream is pinned to whatever
/// seed came back.
pub assume_specification<T>[ rand::random::<T> ]() -> (r: T)
    where
        rand::distributions::Standard: rand::distributions::Distribution<T>,
;

} // verus!
