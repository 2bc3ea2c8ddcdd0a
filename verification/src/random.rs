//! The shared source of randomness.
//!
//! One generator serves a whole run. It is seeded once, from a seed that the
//! caller supplies, and every draw of every module comes from its one stream.

use rand::rngs::SmallRng;
use rand::RngCore;
use rand::SeedableRng;
use vstd::prelude::*;

verus! {

/// `rand::rngs::SmallRng`, the small fast generator of the `rand` crate.
/// What one holds goes by the name `generator_state`.
#[verifier::external_type_specification]
#[verifier::external_body]
pub struct ExSmallRng(SmallRng);

/// The state of a generator: the words from which it computes every
/// further draw.
pub uninterp spec fn generator_state(rng: SmallRng) -> Seq<u64>;

/// The state of the generator that `SmallRng::seed_from_u64` of the `rand`
/// crate makes of `seed`.
pub uninterp spec fn seeded_state(seed: u64) -> Seq<u64>;

/// The value that `RngCore::next_u64` of the `rand` crate draws from a
/// `SmallRng` in `state`, and the state in which the draw leaves it.
pub uninterp spec fn next_draw(state: Seq<u64>) -> (u64, Seq<u64>);

/// The first `count` values drawn, one after another, from a generator that
/// starts out in `state`.
pub open spec fn draws(state: Seq<u64>, count: nat) -> Seq<u64>
    decreases count,
{
    if count == 0 {
        Seq::empty()
    } else {
        seq![next_draw(state).0] + draws(next_draw(state).1, (count - 1) as nat)
    }
}

/// The seed of a generator that is made without one.
pub const DEFAULT_SEED: u64 = 42;

/// The generator of a run, and the seed that it was made from.
pub struct RngResource {
    pub rng: SmallRng,
    seed: u64,
}

impl RngResource {
    /// The seed that this generator was made from.
    pub closed spec fn spec_seed(&self) -> u64 {
        self.seed
    }

    /// The generator as it stands.
    pub closed spec fn generator(&self) -> SmallRng {
        self.rng
    }

    /// A generator seeded with `DEFAULT_SEED`.
    pub fn new() -> (resource: RngResource)
        ensures
            resource.seed() == DEFAULT_SEED,
            generator_state(resource.generator()) == seeded_state(DEFAULT_SEED),
    {
        RngResource::with_random_seed(DEFAULT_SEED)
    }

    /// A generator seeded with `seed`.
    pub fn with_random_seed(seed: u64) -> (resource: RngResource)
        ensures
            resource.seed() == seed,
            generator_state(resource.generator()) == seeded_state(seed),
    {
        RngResource { rng: small_rng_from_seed(seed), seed }
    }

    /// Draws the next value of the stream.
    pub fn next_u64(&mut self) -> (value: u64)
        ensures
            value == next_draw(generator_state(old(self).generator())).0,
            generator_state(final(self).generator()) == next_draw(
                generator_state(old(self).generator()),
            ).1,
            final(self).seed() == old(self).seed(),
    {
        draw(&mut self.rng)
    }

    /// The seed that this generator was made from.
    #[verifier::when_used_as_spec(spec_seed)]
    pub fn seed(&self) -> (seed: u64)
        ensures
            seed == self.spec_seed(),
    {
        self.seed
    }
}

impl Default for RngResource {
    fn default() -> (resource: RngResource)
        ensures
            resource.seed() == DEFAULT_SEED,
            generator_state(resource.generator()) == seeded_state(DEFAULT_SEED),
    {
        RngResource::new()
    }
}

/// Generators made from the same seed start out in the same state and
/// yield the same values, draw for draw.
pub proof fn lemma_same_seed_same_draws(a: RngResource, b: RngResource, seed: u64, count: nat)
    requires
        generator_state(a.generator()) == seeded_state(seed),
        generator_state(b.generator()) == seeded_state(seed),
    ensures
        generator_state(a.generator()) == generator_state(b.generator()),
        draws(generator_state(a.generator()), count) == draws(seeded_state(seed), count),
        draws(generator_state(b.generator()), count) == draws(seeded_state(seed), count),
{
}

/// `SmallRng::seed_from_u64` of the `rand` crate: a generator whose state
/// is computed from `seed` and from nothing else. The claim is that equal
/// seeds give generators in equal states; the state goes by the name
/// `seeded_state`.
#[verifier::external_body]
fn small_rng_from_seed(seed: u64) -> (rng: SmallRng)
    ensures
        generator_state(rng) == seeded_state(seed),
{
    SmallRng::seed_from_u64(seed)
}

/// `RngCore::next_u64` of the `rand` crate, on a `SmallRng`: draws one
/// value and advances the generator. Both the value and the new state are
/// computed from the old state and from nothing else; they go by the name
/// `next_draw`.
#[verifier::external_body]
fn draw(rng: &mut SmallRng) -> (value: u64)
    ensures
        value == next_draw(generator_state(*old(rng))).0,
        generator_state(*final(rng)) == next_draw(generator_state(*old(rng))).1,
{
    rng.next_u64()
}

} // verus!
