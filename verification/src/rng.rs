//! A small generator of repeatable choices, seeded by text.

use vstd::prelude::*;

verus! {

/// The state after `state`: three shifts, each folded back by exclusive or.
pub open spec fn next_state(state: u64) -> u64 {
    let a = state ^ (state << 13);
    let b = a ^ (a >> 7);
    b ^ (b << 17)
}

/// The number drawn in `state`: the upper half of the next state.
pub open spec fn drawn(state: u64) -> u32 {
    (next_state(state) >> 32) as u32
}

/// Whether a chance of `percent` in a hundred comes up in `state`.
pub open spec fn comes_up(state: u64, percent: u32) -> bool {
    drawn(state) % 100 < percent
}

/// The number from `min` to `max` that is picked in `state`.
pub open spec fn picked(state: u64, min: int, max: int) -> int {
    if max <= min {
        min
    } else {
        min + drawn(state) as int % (max - min + 1)
    }
}

/// The state after a pick: a range of one number draws nothing.
pub open spec fn after_pick(state: u64, min: int, max: int) -> u64 {
    if max <= min {
        state
    } else {
        next_state(state)
    }
}

/// The first state for a seed.
pub open spec fn seeded(seed: u64) -> u64 {
    if seed == 0 {
        1
    } else {
        seed
    }
}

/// `hash` turned left by five bits.
pub open spec fn turned(hash: u64) -> u64 {
    (hash << 5) | (hash >> 59)
}

/// The seed that bytes give: each turns the hash and is folded into it.
pub open spec fn seed_of_bytes(bytes: Seq<u8>) -> u64
    decreases bytes.len(),
{
    if bytes.len() == 0 {
        0x9e37_79b9_7f4a_7c15
    } else {
        turned(seed_of_bytes(bytes.drop_last())) ^ (bytes.last() as u64)
    }
}

/// The seed that a text gives through its UTF-8 bytes.
pub open spec fn seed_of(text: Seq<char>) -> u64 {
    seed_of_bytes(vstd::utf8::encode_utf8(text))
}

/// The seed that a text gives.
pub fn hash_seed(value: &str) -> (res: u64)
    ensures
        res == seed_of(value@),
{
    let bytes = value.as_bytes();
    let n: usize = bytes.len();
    let mut hash: u64 = 0x9e37_79b9_7f4a_7c15;
    for i in 0..n
        invariant
            n == bytes@.len(),
            hash == seed_of_bytes(bytes@.take(i as int)),
    {
        assert(bytes@.take(i + 1).drop_last() =~= bytes@.take(i as int));
        hash = ((hash << 5) | (hash >> 59)) ^ (bytes[i] as u64);
    }
    assert(bytes@.take(n as int) =~= bytes@);
    hash
}

/// A generator whose choices are fixed by its seed.
#[derive(Clone, Copy)]
pub struct SmallRng {
    pub state: u64,
}

impl SmallRng {
    pub fn new(seed: u64) -> (res: Self)
        ensures
            res.state == seeded(seed),
    {
        SmallRng {
            state: if seed == 0 {
                1
            } else {
                seed
            },
        }
    }

    pub fn next_u32(&mut self) -> (res: u32)
        ensures
            final(self).state == next_state(old(self).state),
            res == drawn(old(self).state),
    {
        let a: u64 = self.state ^ (self.state << 13);
        let b: u64 = a ^ (a >> 7);
        self.state = b ^ (b << 17);
        (self.state >> 32) as u32
    }

    pub fn chance(&mut self, percent: u32) -> (res: bool)
        ensures
            final(self).state == next_state(old(self).state),
            res == comes_up(old(self).state, percent),
    {
        self.next_u32() % 100 < percent
    }

    pub fn range_u64(&mut self, min: u64, max: u64) -> (res: u64)
        requires
            max - min < u64::MAX,
        ensures
            final(self).state == after_pick(old(self).state, min as int, max as int),
            res == picked(old(self).state, min as int, max as int),
    {
        if max <= min {
            return min;
        }
        min + (self.next_u32() as u64 % (max - min + 1))
    }

    pub fn range_usize(&mut self, min: usize, max: usize) -> (res: usize)
        requires
            max - min < usize::MAX,
        ensures
            final(self).state == after_pick(old(self).state, min as int, max as int),
            res == picked(old(self).state, min as int, max as int),
    {
        if max <= min {
            return min;
        }
        min + (self.next_u32() as usize % (max - min + 1))
    }
}

/// A generator never falls into the state that it could not leave: from any
/// state but zero it goes to one but zero.
pub proof fn law_state_never_zero(state: u64)
    requires
        state != 0,
    ensures
        next_state(state) != 0,
{
    assert(({
        let a = state ^ (state << 13);
        let b = a ^ (a >> 7);
        b ^ (b << 17)
    }) != 0) by (bit_vector)
        requires
            state != 0,
    ;
}

/// No two states lead to the same one.
pub proof fn law_states_stay_apart(one: u64, other: u64)
    requires
        next_state(one) == next_state(other),
    ensures
        one == other,
{
    let a = one ^ (one << 13);
    let c = other ^ (other << 13);
    let b = a ^ (a >> 7);
    let d = c ^ (c >> 7);
    assert(b == d) by (bit_vector)
        requires
            b ^ (b << 17) == d ^ (d << 17),
    ;
    assert(a == c) by (bit_vector)
        requires
            a ^ (a >> 7) == c ^ (c >> 7),
    ;
    assert(one == other) by (bit_vector)
        requires
            one ^ (one << 13) == other ^ (other << 13),
    ;
}

/// A pick lies in its range, and a generator starts outside of state zero.
pub proof fn law_picks_stay_in_range(state: u64, seed: u64, min: int, max: int)
    ensures
        seeded(seed) != 0,
        min <= max ==> min <= picked(state, min, max) <= max,
{
}

/// The step from one state to the next goes bit by bit: states that differ in
/// some bits lead to states that differ in what those bits alone lead to.
pub proof fn law_states_go_bit_by_bit(one: u64, other: u64)
    ensures
        next_state(one ^ other) == next_state(one) ^ next_state(other),
        next_state(0) == 0,
{
    assert(({
        let s = one ^ other;
        let a = s ^ (s << 13);
        let b = a ^ (a >> 7);
        b ^ (b << 17)
    }) == ({
        let a = one ^ (one << 13);
        let b = a ^ (a >> 7);
        b ^ (b << 17)
    }) ^ ({
        let a = other ^ (other << 13);
        let b = a ^ (a >> 7);
        b ^ (b << 17)
    })) by (bit_vector);
    assert(({
        let a = 0u64 ^ (0u64 << 13);
        let b = a ^ (a >> 7);
        b ^ (b << 17)
    }) == 0) by (bit_vector);
}

/// A number is drawn from the upper half of the next state.
pub proof fn law_upper_half_is_drawn(state: u64)
    ensures
        drawn(state) as int * 0x1_0000_0000 <= next_state(state) < (drawn(state) as int + 1)
            * 0x1_0000_0000,
{
    let next = next_state(state);
    assert((next >> 32) as u32 as u64 == next / 0x1_0000_0000) by (bit_vector);
}

/// What comes up with a chance comes up with any greater one. It never comes up
/// with a chance of nought, always with one of a hundred, and goes by the last two
/// digits of the number that is drawn.
pub proof fn law_chances(state: u64, percent: u32, more: u32)
    requires
        percent <= more,
    ensures
        !comes_up(state, 0),
        comes_up(state, 100),
        comes_up(state, percent) ==> comes_up(state, more),
        percent < 100 && comes_up(state, (percent + 1) as u32) && !comes_up(state, percent)
            ==> (drawn(state) - percent) % 100 == 0,
{
}

/// A pick is as far into its range as what is drawn is beyond a multiple of the
/// length of the range. Without a choice the least is taken and nothing is
/// drawn.
pub proof fn law_picks_go_by_what_is_drawn(state: u64, min: int, max: int)
    ensures
        min < max ==> (drawn(state) - (picked(state, min, max) - min)) % (max - min + 1) == 0,
        min < max ==> min <= picked(state, min, max) <= max,
        min < max ==> after_pick(state, min, max) == next_state(state),
        max <= min ==> picked(state, min, max) == min,
        max <= min ==> after_pick(state, min, max) == state,
{
    if min < max {
        let n = drawn(state) as int;
        let span = max - min + 1;
        vstd::arithmetic::div_mod::lemma_fundamental_div_mod(n, span);
        vstd::arithmetic::div_mod::lemma_mod_multiples_basic(n / span, span);
        assert((n / span) * span == span * (n / span)) by (nonlinear_arith);
        assert(n - n % span == (n / span) * span);
    }
}

/// Only a seed of nought is changed.
pub proof fn law_seeds_are_kept(seed: u64)
    ensures
        seed != 0 ==> seeded(seed) == seed,
        seeded(0) == 1,
{
}

/// One more byte turns the seed of the bytes before it five places round and
/// flips the bits of the byte in it: so two endings of the same bytes differ as
/// their bytes do, and what comes later goes by the seed so far alone.
pub proof fn law_seed_goes_byte_by_byte(
    bytes: Seq<u8>,
    others: Seq<u8>,
    one: u8,
    other: u8,
    tail: Seq<u8>,
)
    ensures
        ({
            let seed = seed_of_bytes(bytes);
            &&& seed_of_bytes(bytes.push(0)) == (seed as int * 32) % 0x1_0000_0000_0000_0000
                + seed as int / 0x800_0000_0000_0000
            &&& seed_of_bytes(bytes.push(one)) ^ seed_of_bytes(bytes.push(other)) == (one as u64) ^ (
            other as u64)
            &&& seed_of_bytes(bytes) == seed_of_bytes(others) ==> seed_of_bytes(bytes + tail)
                == seed_of_bytes(others + tail)
        }),
    decreases tail.len(),
{
    let seed = seed_of_bytes(bytes);
    assert(bytes.push(0).drop_last() =~= bytes);
    assert(bytes.push(one).drop_last() =~= bytes);
    assert(bytes.push(other).drop_last() =~= bytes);
    let r = turned(seed);
    assert((r ^ (one as u64)) ^ (r ^ (other as u64)) == (one as u64) ^ (other as u64))
        by (bit_vector);
    assert(r ^ 0u64 == r) by (bit_vector);
    assert(((seed << 5) | (seed >> 59)) == (seed & 0x7ff_ffff_ffff_ffff) * 32 + seed
        / 0x800_0000_0000_0000) by (bit_vector);
    assert((seed & 0x7ff_ffff_ffff_ffff) == seed % 0x800_0000_0000_0000) by (bit_vector);
    assert((seed as int * 32) % 0x1_0000_0000_0000_0000 == (seed as int % 0x800_0000_0000_0000)
        * 32);
    if tail.len() == 0 {
        assert(bytes + tail =~= bytes);
        assert(others + tail =~= others);
    } else {
        law_seed_goes_byte_by_byte(bytes, others, one, other, tail.drop_last());
        assert((bytes + tail).drop_last() =~= bytes + tail.drop_last());
        assert((others + tail).drop_last() =~= others + tail.drop_last());
    }
}

} // verus!
