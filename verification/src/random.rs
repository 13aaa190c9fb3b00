//! Seeded random engine: a deterministic stream of 64-bit words, uniform
//! draws from it, and weighted sampling by the alias method.

use crate::seed::Seed;
use rand::distributions::WeightedError;
use rand::rngs::SmallRng;
use rand::RngCore;
use rand::SeedableRng;
use rand_distr::Distribution;
use rand_distr::WeightedAliasIndex;
use vstd::prelude::*;

verus! {

/// `rand`'s `SmallRng`: a small pseudo-random generator, opaque here.
#[verifier::external_type_specification]
#[verifier::external_body]
pub struct ExSmallRng(SmallRng);

/// The words that a generator will yield from now on: the word at `0` is
/// the next one drawn.
pub uninterp spec fn upcoming(gen: SmallRng) -> Map<nat, u64>;

/// The words of a generator freshly seeded with `seed`, on a target whose
/// pointers are `pointer_bits` wide (the generator's algorithm is chosen by
/// that width).
pub uninterp spec fn seeded_words(pointer_bits: u32, seed: u64) -> Map<nat, u64>;

/// A stream without its first `n` words.
pub open spec fn skip_words(words: Map<nat, u64>, n: nat) -> Map<nat, u64> {
    if n == 0 {
        words
    } else {
        Map::new(|i: nat| true, |i: nat| words[i + n])
    }
}

/// Makes a generator with `SmallRng::seed_from_u64`. Its stream depends on
/// the seed and the target's pointer width alone.
#[verifier::external_body]
fn seeded_generator(seed: u64) -> (gen: SmallRng)
    ensures
        upcoming(gen) == seeded_words(usize::BITS, seed),
{
    SmallRng::seed_from_u64(seed)
}

/// Makes a generator with `SmallRng::from_entropy`. Nothing is known of
/// its stream.
#[verifier::external_body]
fn entropy_generator() -> SmallRng {
    SmallRng::from_entropy()
}

/// Draws with `RngCore::next_u64`: the first upcoming word comes out, the
/// others move up by one. The call does not panic.
#[verifier::external_body]
fn next_word(gen: &mut SmallRng) -> (word: u64)
    ensures
        word == upcoming(*old(gen))[0],
        upcoming(*final(gen)) == skip_words(upcoming(*old(gen)), 1),
    no_unwind
{
    gen.next_u64()
}

/// Why a weighted distribution could not be built.
#[derive(Debug, Clone, Copy, PartialEq, Eq)]
pub enum DistError {
    /// There are no weights.
    NoItem,
    /// There are not as many weights as the distribution needs.
    LengthMismatch,
    /// A weight is larger than the largest weight divided by their number.
    InvalidWeight,
    /// Every weight is zero.
    AllWeightsZero,
    /// There are more weights than a 32-bit number counts.
    TooMany,
}

/// An alias table over 32-bit weights: `rand_distr`'s `WeightedAliasIndex`,
/// opaque here.
#[verifier::external_body]
pub struct AliasTable {
    index: WeightedAliasIndex<u32>,
}

/// The weights that an alias table was built from.
pub uninterp spec fn alias_weights(table: AliasTable) -> Seq<u32>;

/// What one sample from an alias table over `weights` gives when the
/// generator's upcoming words are `words`: the index, and the words that
/// are upcoming afterwards.
pub uninterp spec fn alias_draw(pointer_bits: u32, weights: Seq<u32>, words: Map<nat, u64>) -> (
    nat,
    Map<nat, u64>,
);

/// The reason for which no alias table can be built from `weights`, if
/// there is one.
pub open spec fn alias_error(weights: Seq<u32>) -> Option<DistError> {
    if weights.len() == 0 {
        Some(DistError::NoItem)
    } else if weights.len() > u32::MAX {
        Some(DistError::TooMany)
    } else if exists|i: int| 0 <= i < weights.len() && weights[i] > u32::MAX as int / (
    weights.len() as int) {
        Some(DistError::InvalidWeight)
    } else if forall|i: int| 0 <= i < weights.len() ==> weights[i] == 0 {
        Some(DistError::AllWeightsZero)
    } else {
        None
    }
}

/// Builds an alias table with `WeightedAliasIndex::new`, which refuses, in
/// this order: no weight, more than `u32::MAX` weights, a weight above
/// `u32::MAX / n`, and weights that are all zero.
#[verifier::external_body]
fn alias_table(weights: &Vec<u32>) -> (r: Result<AliasTable, DistError>)
    ensures
        match r {
            Ok(table) => alias_error(weights@).is_none() && alias_weights(table) == weights@,
            Err(e) => alias_error(weights@) == Some(e),
        },
{
    match WeightedAliasIndex::new(weights.clone()) {
        Ok(index) => Ok(AliasTable { index }),
        Err(WeightedError::NoItem) => Err(DistError::NoItem),
        Err(WeightedError::InvalidWeight) => Err(DistError::InvalidWeight),
        Err(WeightedError::AllWeightsZero) => Err(DistError::AllWeightsZero),
        Err(WeightedError::TooMany) => Err(DistError::TooMany),
    }
}

/// Samples an index with `WeightedAliasIndex::sample`. The index and the
/// generator's state afterwards depend on the weights and on the words that
/// were upcoming alone. The index is that of a weight, and never that of a
/// zero weight: with integer weights the table's odds are exact. The call
/// does not panic.
#[verifier::external_body]
fn alias_sample(table: &AliasTable, gen: &mut SmallRng) -> (index: usize)
    ensures
        (index as nat, upcoming(*final(gen))) == alias_draw(
            usize::BITS,
            alias_weights(*table),
            upcoming(*old(gen)),
        ),
        index < alias_weights(*table).len(),
        alias_weights(*table)[index as int] > 0,
    no_unwind
{
    table.index.sample(gen)
}

/// A weighted categorical distribution: values, and a weight for each.
#[derive(Debug)]
pub struct RandomDistConfig<T> {
    pub values: Vec<T>,
    pub probs: Vec<u32>,
}

impl<T> RandomDistConfig<T> {
    /// A configuration of the given values and weights.
    pub fn new(values: Vec<T>, probs: Vec<u32>) -> (config: RandomDistConfig<T>)
        ensures
            config.values == values,
            config.probs == probs,
    {
        RandomDistConfig { values, probs }
    }
}

/// The reason for which no distribution can be built over `values` values
/// with these weights, if there is one.
pub open spec fn dist_error(values: nat, weights: Seq<u32>) -> Option<DistError> {
    if values != weights.len() {
        Some(DistError::LengthMismatch)
    } else {
        alias_error(weights)
    }
}

/// A distribution ready for sampling.
pub struct RandomDist<T> {
    rnd_cfg: RandomDistConfig<T>,
    rnd_dist: AliasTable,
}

/// The index that a word selects among `n` places from `low` on.
pub open spec fn in_range(word: u64, low: usize, n: usize) -> int {
    low + ((word as usize) % n)
}

/// The index that one sample from `weights` gives.
pub open spec fn sampled_index(weights: Seq<u32>, words: Map<nat, u64>) -> nat {
    alias_draw(usize::BITS, weights, words).0
}

/// The words that are upcoming after one sample from `weights`.
pub open spec fn sampled_rest(weights: Seq<u32>, words: Map<nat, u64>) -> Map<nat, u64> {
    alias_draw(usize::BITS, weights, words).1
}

/// What an engine is to its callers: the words it will draw and the
/// weights of its two tables.
pub struct EngineView {
    pub words: Map<nat, u64>,
    pub shift_weights: Seq<u32>,
    pub inner_size_weights: Seq<u32>,
}

/// One call on an engine, with its arguments.
pub enum Call {
    RandomU64,
    Skip,
    SkipN { n: usize },
    InRangeInclusive { low: usize, high: usize },
    InRangeExclusive { low: usize, high: usize },
    PickElement { len: usize },
    SampleMove,
    SampleInnerKernelSize,
    Sample { weights: Seq<u32> },
}

/// The number that a call yields: the word drawn, the index selected or
/// sampled, and zero for a skip.
pub open spec fn call_value(e: EngineView, call: Call) -> int {
    match call {
        Call::RandomU64 => e.words[0] as int,
        Call::Skip => 0,
        Call::SkipN { n } => 0,
        Call::InRangeInclusive { low, high } => in_range(
            e.words[0],
            low,
            (high - low + 1) as usize,
        ),
        Call::InRangeExclusive { low, high } => in_range(e.words[0], low, (high - low) as usize),
        Call::PickElement { len } => in_range(e.words[0], 0, len),
        Call::SampleMove => sampled_index(e.shift_weights, e.words) as int,
        Call::SampleInnerKernelSize => sampled_index(e.inner_size_weights, e.words) as int,
        Call::Sample { weights } => sampled_index(weights, e.words) as int,
    }
}

/// The words that are upcoming after a call.
pub open spec fn words_after(e: EngineView, call: Call) -> Map<nat, u64> {
    match call {
        Call::SkipN { n } => skip_words(e.words, n as nat),
        Call::SampleMove => sampled_rest(e.shift_weights, e.words),
        Call::SampleInnerKernelSize => sampled_rest(e.inner_size_weights, e.words),
        Call::Sample { weights } => sampled_rest(weights, e.words),
        _ => skip_words(e.words, 1),
    }
}

/// The engine after a call: the words move on, the tables stay.
pub open spec fn call_rest(e: EngineView, call: Call) -> EngineView {
    EngineView { words: words_after(e, call), ..e }
}

/// The numbers that a sequence of calls yields, one after the other.
pub open spec fn outputs(e: EngineView, calls: Seq<Call>) -> Seq<int>
    decreases calls.len(),
{
    if calls.len() == 0 {
        Seq::empty()
    } else {
        seq![call_value(e, calls[0])] + outputs(call_rest(e, calls[0]), calls.drop_first())
    }
}

/// Determinism: two engines seeded with the same number, with the same
/// tables, yield the same numbers on the same sequence of calls.
pub proof fn lemma_same_seed_same_outputs(a: Random, b: Random, seed: u64, calls: Seq<Call>)
    requires
        a@.words == seeded_words(usize::BITS, seed),
        b@.words == seeded_words(usize::BITS, seed),
        a@.shift_weights == b@.shift_weights,
        a@.inner_size_weights == b@.inner_size_weights,
    ensures
        outputs(a@, calls) == outputs(b@, calls),
{
    assert(a@ == b@);
}

/// Where every weight but one is zero, an index whose weight is not zero,
/// as every sampled index is, can only be that one.
pub proof fn lemma_sole_weight_always_sampled(weights: Seq<u32>, index: nat)
    requires
        index < weights.len(),
        weights[index as int] > 0,
        forall|i: int| 0 <= i < weights.len() && i != index ==> weights[i] == 0,
    ensures
        forall|i: nat| i < weights.len() && #[trigger] weights[i as int] > 0 ==> i == index,
{
}

impl<T> RandomDist<T> {
    /// The values of the distribution.
    pub closed spec fn values(&self) -> Seq<T> {
        self.rnd_cfg.values@
    }

    /// The weights of the distribution.
    pub closed spec fn weights(&self) -> Seq<u32> {
        self.rnd_cfg.probs@
    }

    /// There is a value for each weight, and the table is built from the
    /// weights.
    #[verifier::type_invariant]
    spec fn inv(&self) -> bool {
        &&& self.rnd_cfg.values@.len() == self.rnd_cfg.probs@.len()
        &&& alias_weights(self.rnd_dist) == self.rnd_cfg.probs@
    }

    /// Builds the alias table of a configuration. Fails where the numbers
    /// of values and of weights differ, where there is none, and where the
    /// weights cannot be sampled from.
    pub fn new(config: RandomDistConfig<T>) -> (r: Result<RandomDist<T>, DistError>)
        ensures
            match r {
                Ok(dist) => {
                    &&& dist_error(config.values@.len(), config.probs@).is_none()
                    &&& dist.values().len() == dist.weights().len()
                    &&& dist.values() == config.values@
                    &&& dist.weights() == config.probs@
                },
                Err(e) => dist_error(config.values@.len(), config.probs@) == Some(e),
            },
    {
        if config.values.len() != config.probs.len() {
            return Err(DistError::LengthMismatch);
        }
        match alias_table(&config.probs) {
            Ok(table) => Ok(RandomDist { rnd_cfg: config, rnd_dist: table }),
            Err(e) => Err(e),
        }
    }

    /// Samples one value: the one at the index that the alias table gives
    /// for the engine's upcoming words. Its weight is not zero.
    pub fn sample<'a>(&'a self, rnd: &mut Random) -> (value: &'a T)
        ensures
            sampled_index(self.weights(), old(rnd).words()) < self.values().len(),
            *value == self.values()[sampled_index(self.weights(), old(rnd).words()) as int],
            self.weights()[sampled_index(self.weights(), old(rnd).words()) as int] > 0,
            final(rnd)@ == call_rest(old(rnd)@, Call::Sample { weights: self.weights() }),
            final(rnd).origin() == old(rnd).origin(),
    {
        proof {
            use_type_invariant(self);
            use_type_invariant(&*rnd);
        }
        let index: usize = alias_sample(&self.rnd_dist, &mut rnd.gen);
        &self.rnd_cfg.values[index]
    }
}

/// The weights that an engine samples with.
#[derive(Debug)]
pub struct SamplingConfig {
    /// One weight for each of the four shift directions.
    pub shift_weights: Vec<u32>,
    /// One weight for each inner kernel size.
    pub inner_size_probs: Vec<u32>,
}

/// Seeded pseudo-random source.
pub struct Random {
    seed: Seed,
    gen: SmallRng,
    shift_dist: AliasTable,
    inner_kernel_size_dist: AliasTable,
    inner_sizes: usize,
}

/// The reason for which no engine can be built with these weights, if
/// there is one.
pub open spec fn engine_error(shift: Seq<u32>, inner: Seq<u32>) -> Option<DistError> {
    if shift.len() != 4 {
        Some(DistError::LengthMismatch)
    } else if alias_error(shift).is_some() {
        alias_error(shift)
    } else {
        alias_error(inner)
    }
}

impl View for Random {
    type V = EngineView;

    open spec fn view(&self) -> EngineView {
        EngineView {
            words: self.words(),
            shift_weights: self.shift_weights(),
            inner_size_weights: self.inner_size_weights(),
        }
    }
}

impl Random {
    /// There are four shift weights, and the inner sizes are counted.
    #[verifier::type_invariant]
    spec fn inv(&self) -> bool {
        &&& alias_weights(self.shift_dist).len() == 4
        &&& alias_weights(self.inner_kernel_size_dist).len() == self.inner_sizes
    }

    /// The words that the engine will draw from now on.
    pub closed spec fn words(&self) -> Map<nat, u64> {
        upcoming(self.gen)
    }

    /// The seed that the engine was made from.
    pub closed spec fn origin(&self) -> Seed {
        self.seed
    }

    /// The weights of the four shift directions.
    pub closed spec fn shift_weights(&self) -> Seq<u32> {
        alias_weights(self.shift_dist)
    }

    /// The weights of the inner kernel sizes.
    pub closed spec fn inner_size_weights(&self) -> Seq<u32> {
        alias_weights(self.inner_kernel_size_dist)
    }

    /// An engine seeded exactly from the seed's number, with the alias
    /// tables of the given weights. Fails where there are not four shift
    /// weights, or where either table cannot be built.
    pub fn new(seed: Seed, config: &SamplingConfig) -> (r: Result<Random, DistError>)
        ensures
            match r {
                Ok(rnd) => {
                    &&& engine_error(config.shift_weights@, config.inner_size_probs@).is_none()
                    &&& rnd.origin() == seed
                    &&& rnd@ == (EngineView {
                        words: seeded_words(usize::BITS, seed.seed_u64),
                        shift_weights: config.shift_weights@,
                        inner_size_weights: config.inner_size_probs@,
                    })
                },
                Err(e) => engine_error(config.shift_weights@, config.inner_size_probs@) == Some(e),
            },
    {
        let shift_dist = match Random::get_weighted_dist(&config.shift_weights) {
            Ok(table) => table,
            Err(e) => {
                return Err(e);
            },
        };
        let inner_kernel_size_dist = match alias_table(&config.inner_size_probs) {
            Ok(table) => table,
            Err(e) => {
                return Err(e);
            },
        };
        Ok(
            Random {
                gen: seeded_generator(seed.seed_u64),
                seed,
                shift_dist,
                inner_kernel_size_dist,
                inner_sizes: config.inner_size_probs.len(),
            },
        )
    }

    /// The seed that the engine was made from.
    pub fn seed(&self) -> (seed: &Seed)
        ensures
            *seed == self.origin(),
    {
        &self.seed
    }

    /// The number of inner kernel sizes that the engine samples from.
    pub fn inner_size_count(&self) -> (count: usize)
        ensures
            count == self@.inner_size_weights.len(),
    {
        proof {
            use_type_invariant(self);
        }
        self.inner_sizes
    }

    /// A number from fresh entropy. Nothing is known of it.
    pub fn get_random_u64() -> u64 {
        let mut tmp_rng = entropy_generator();
        next_word(&mut tmp_rng)
    }

    /// A uniform index in `low..=high`: `low` plus the next word modulo the
    /// number of places.
    pub fn in_range_inclusive(&mut self, low: usize, high: usize) -> (value: usize)
        requires
            low <= high,
            high - low < usize::MAX,
        ensures
            value == in_range(old(self).words()[0], low, (high - low + 1) as usize),
            value == call_value(old(self)@, Call::InRangeInclusive { low, high }),
            low <= value <= high,
            final(self).origin() == old(self).origin(),
            final(self)@ == call_rest(old(self)@, Call::InRangeInclusive { low, high }),
    {
                proof {
            use_type_invariant(&*self);
        }
        let n: usize = (high - low) + 1;
        let rnd_value: usize = next_word(&mut self.gen) as usize;
        low + (rnd_value % n)
    }

    /// A uniform index in `low..high`: `low` plus the next word modulo the
    /// number of places.
    pub fn in_range_exclusive(&mut self, low: usize, high: usize) -> (value: usize)
        requires
            low < high,
        ensures
            value == in_range(old(self).words()[0], low, (high - low) as usize),
            value == call_value(old(self)@, Call::InRangeExclusive { low, high }),
            low <= value < high,
            final(self).origin() == old(self).origin(),
            final(self)@ == call_rest(old(self)@, Call::InRangeExclusive { low, high }),
    {
        proof {
            use_type_invariant(&*self);
        }
        let n: usize = high - low;
        let rnd_value: usize = next_word(&mut self.gen) as usize;
        low + (rnd_value % n)
    }

    /// One raw 64-bit draw.
    pub fn random_u64(&mut self) -> (word: u64)
        ensures
            word == old(self).words()[0],
            word == call_value(old(self)@, Call::RandomU64),
            final(self).origin() == old(self).origin(),
            final(self)@ == call_rest(old(self)@, Call::RandomU64),
    {
        proof {
            use_type_invariant(&*self);
        }
        next_word(&mut self.gen)
    }

    /// The alias table of the four shift weights.
    fn get_weighted_dist(weights: &Vec<u32>) -> (r: Result<AliasTable, DistError>)
        ensures
            match r {
                Ok(table) => weights@.len() == 4 && alias_error(weights@).is_none()
                    && alias_weights(table) == weights@,
                Err(e) => if weights@.len() != 4 {
                    e == DistError::LengthMismatch
                } else {
                    alias_error(weights@) == Some(e)
                },
            },
    {
        if weights.len() != 4 {
            return Err(DistError::LengthMismatch);
        }
        alias_table(weights)
    }

    /// Samples one of four shifts by the shift weights. Its weight is not
    /// zero.
    pub fn sample_move<'a, T>(&mut self, shifts: &'a [T; 4]) -> (shift: &'a T)
        ensures
            sampled_index(old(self).shift_weights(), old(self).words()) < 4,
            *shift == shifts@[sampled_index(old(self).shift_weights(), old(self).words()) as int],
            old(self).shift_weights()[sampled_index(
                old(self).shift_weights(),
                old(self).words(),
            ) as int] > 0,
            final(self).origin() == old(self).origin(),
            final(self)@ == call_rest(old(self)@, Call::SampleMove),
    {
        proof {
            use_type_invariant(&*self);
        }
        let index: usize = alias_sample(&self.shift_dist, &mut self.gen);
        &shifts[index]
    }

    /// Samples an inner kernel size by the inner size weights: the size at
    /// the sampled index of `kernel_size_probs`.
    pub fn sample_inner_kernel_size(&mut self, kernel_size_probs: &[(usize, u32)]) -> (size: usize)
        requires
            old(self).inner_size_weights().len() <= kernel_size_probs@.len(),
        ensures
            sampled_index(old(self).inner_size_weights(), old(self).words())
                < kernel_size_probs@.len(),
            size == kernel_size_probs@[sampled_index(
                old(self).inner_size_weights(),
                old(self).words(),
            ) as int].0,
            final(self).origin() == old(self).origin(),
            final(self)@ == call_rest(old(self)@, Call::SampleInnerKernelSize),
    {
        proof {
            use_type_invariant(&*self);
        }
        let index: usize = alias_sample(&self.inner_kernel_size_dist, &mut self.gen);
        kernel_size_probs[index].0
    }

    /// Skips one draw, so that a value is consumed in any case.
    pub fn skip(&mut self)
        ensures
            final(self).origin() == old(self).origin(),
            final(self)@ == call_rest(old(self)@, Call::Skip),
    {
        proof {
            use_type_invariant(&*self);
        }
        let _word: u64 = next_word(&mut self.gen);
    }

    /// Skips `n` draws.
    pub fn skip_n(&mut self, n: usize)
        ensures
            final(self).origin() == old(self).origin(),
            final(self)@ == call_rest(old(self)@, Call::SkipN { n }),
    {
        let ghost start = self.words();
        let mut i: usize = 0;
        while i < n
            invariant
                i <= n,
                self@ == (EngineView { words: skip_words(start, i as nat), ..old(self)@ }),
                self.origin() == old(self).origin(),
            decreases n - i,
        {
            proof {
                use_type_invariant(&*self);
            }
            let _word: u64 = next_word(&mut self.gen);
            assert(skip_words(skip_words(start, i as nat), 1) =~= skip_words(
                start,
                (i + 1) as nat,
            ));
            i = i + 1;
        }
    }

    /// Picks one element uniformly: the one at the next word modulo the
    /// number of elements.
    pub fn pick_element<'a, T>(&mut self, values: &'a [T]) -> (value: &'a T)
        requires
            values@.len() > 0,
        ensures
            *value == values@[in_range(old(self).words()[0], 0, values@.len() as usize)],
            final(self).origin() == old(self).origin(),
            final(self)@ == call_rest(old(self)@, Call::PickElement { len: values@.len() as usize }),
    {
        let index: usize = self.in_range_exclusive(0, values.len());
        &values[index]
    }
}

} // verus!
