//! The generator: configuration with checked setters, generation, the last
//! result, its text form and its statistics.

use crate::config::{
    config_error, default_config, in_universe, outcome, too_many, universe_size, validate_config,
    exceeds_universe, ConfigView, GeneratorConfig, GeneratorMode, RandomGeneratorError,
};
use crate::sampling::{
    generate_custom_with_duplicates, generate_custom_without_duplicates,
    generate_range_with_duplicates, generate_range_without_duplicates, thread_rng,
};
use crate::text::{lemma_lines_round_trip, file_numbers, lines_of_numbers, lines_text, list_numbers, parse_custom_list, parse_numbers_file};
use vstd::prelude::*;

verus! {

/// The version of this generator, for display.
pub const CORE_VERSION: &'static str = "v2.0";

/// A generator that holds its configuration and its last result.
pub struct RandomGenerator {
    core_version: String,
    config: GeneratorConfig,
    generated_numbers: Vec<i64>,
    rng: rand::rngs::ThreadRng,
}

/// A generator as plain mathematical values.
pub struct GeneratorView {
    pub config: ConfigView,
    pub numbers: Seq<i64>,
    pub core_version: Seq<char>,
}

impl View for RandomGenerator {
    type V = GeneratorView;

    closed spec fn view(&self) -> GeneratorView {
        GeneratorView {
            config: self.config@,
            numbers: self.generated_numbers@,
            core_version: self.core_version@,
        }
    }
}

/// `g` with its configuration replaced by `c`.
pub open spec fn with_config_view(g: GeneratorView, c: ConfigView) -> GeneratorView {
    GeneratorView { config: c, ..g }
}

/// `g` with its result replaced by `s`.
pub open spec fn with_numbers(g: GeneratorView, s: Seq<i64>) -> GeneratorView {
    GeneratorView { numbers: s, ..g }
}

/// What every result of generation under `c` satisfies: the requested
/// count, each value in the universe, and no value twice where repeats are
/// off.
pub open spec fn is_sample(c: ConfigView, s: Seq<i64>) -> bool {
    &&& s.len() == c.num_to_generate
    &&& forall|i: int| 0 <= i < s.len() ==> in_universe(c, #[trigger] s[i])
    &&& !c.allow_duplicates ==> s.no_duplicates()
}

/// In range mode without repeats, the range of `c` is too small for its
/// requested count.
pub open spec fn narrows_too_far(c: ConfigView) -> bool {
    c.mode == GeneratorMode::Range && too_many(c, c.num_to_generate)
}

/// Whether bounds `lo..=hi`, in place of those of `config`, would be too
/// small for its requested count in range mode without repeats.
fn range_too_small(config: &GeneratorConfig, lo: i64, hi: i64) -> (r: bool)
    ensures
        r == narrows_too_far((ConfigView { lower_bound: lo as int, upper_bound: hi as int, ..config@ })),
{
    config.mode == GeneratorMode::Range && !config.allow_duplicates
        && (config.num_to_generate as i128) > hi as i128 - lo as i128 + 1
}

/// Summary figures of a result.
#[derive(Debug, Clone, Copy, PartialEq, Eq)]
pub struct GeneratorStats {
    pub count: usize,
    pub min: Option<i64>,
    pub max: Option<i64>,
    /// The exact sum: an `i128` holds the sum of any `usize` many `i64`s.
    pub sum: i128,
}

/// The sum of the values.
pub open spec fn seq_sum(s: Seq<i64>) -> int
    decreases s.len(),
{
    if s.len() == 0 {
        0
    } else {
        seq_sum(s.drop_last()) + s.last()
    }
}

/// `m` is the least value of `s`.
pub open spec fn is_least(s: Seq<i64>, m: i64) -> bool {
    s.contains(m) && forall|i: int| 0 <= i < s.len() ==> m <= #[trigger] s[i]
}

/// `m` is the greatest value of `s`.
pub open spec fn is_greatest(s: Seq<i64>, m: i64) -> bool {
    s.contains(m) && forall|i: int| 0 <= i < s.len() ==> #[trigger] s[i] <= m
}

/// The statistics of `s`.
pub open spec fn stats_of(s: Seq<i64>, r: GeneratorStats) -> bool {
    &&& r.count == s.len()
    &&& r.sum == seq_sum(s)
    &&& match r.min {
        Some(m) => is_least(s, m),
        None => s.len() == 0,
    }
    &&& match r.max {
        Some(m) => is_greatest(s, m),
        None => s.len() == 0,
    }
}


impl RandomGenerator {
    /// A generator with the default configuration and no result.
    pub fn new() -> (r: RandomGenerator)
        ensures
            r@.config == default_config(),
            r@.numbers == Seq::<i64>::empty(),
            r@.core_version == CORE_VERSION@,
    {
        RandomGenerator {
            core_version: CORE_VERSION.to_owned(),
            config: GeneratorConfig::default(),
            generated_numbers: Vec::new(),
            rng: thread_rng(),
        }
    }

    /// A generator with the given configuration, if it is valid.
    pub fn with_config(config: GeneratorConfig) -> (r: Result<RandomGenerator, RandomGeneratorError>)
        ensures
            match r {
                Ok(g) => config_error(config@) is None && g@.config == config@
                    && g@.numbers == Seq::<i64>::empty() && g@.core_version == CORE_VERSION@,
                Err(e) => config_error(config@) == Some(e),
            },
    {
        let mut generator = RandomGenerator::new();
        match generator.set_config(config) {
            Ok(()) => Ok(generator),
            Err(e) => Err(e),
        }
    }

    /// Replaces the whole configuration if the new one is valid.
    pub fn set_config(&mut self, config: GeneratorConfig) -> (r: Result<(), RandomGeneratorError>)
        ensures
            r == outcome(config_error(config@)),
            final(self)@ == if r is Ok {
                with_config_view(old(self)@, config@)
            } else {
                old(self)@
            },
    {
        validate_config(&config)?;
        self.config = config;
        Ok(())
    }

    /// The configuration.
    pub fn get_config(&self) -> (r: &GeneratorConfig)
        ensures
            r@ == self@.config,
    {
        &self.config
    }

    /// Sets the lower bound; it may not exceed the upper bound, and in range
    /// mode without repeats the range must still hold the requested count.
    pub fn set_lower_bound(&mut self, lower: i64) -> (r: Result<(), RandomGeneratorError>)
        ensures
            ({
                let c = ConfigView { lower_bound: lower as int, ..old(self)@.config };
                &&& r == if lower > old(self)@.config.upper_bound {
                    Err(RandomGeneratorError::InvalidBounds)
                } else if narrows_too_far(c) {
                    Err(RandomGeneratorError::TooManyNumbers)
                } else {
                    Ok(())
                }
                &&& final(self)@ == if r is Ok {
                    with_config_view(old(self)@, c)
                } else {
                    old(self)@
                }
            }),
    {
        if lower > self.config.upper_bound {
            return Err(RandomGeneratorError::InvalidBounds);
        }
        if range_too_small(&self.config, lower, self.config.upper_bound) {
            return Err(RandomGeneratorError::TooManyNumbers);
        }
        self.config.lower_bound = lower;
        Ok(())
    }

    /// Sets the upper bound; it may not be below the lower bound, and in range
    /// mode without repeats the range must still hold the requested count.
    pub fn set_upper_bound(&mut self, upper: i64) -> (r: Result<(), RandomGeneratorError>)
        ensures
            ({
                let c = ConfigView { upper_bound: upper as int, ..old(self)@.config };
                &&& r == if upper < old(self)@.config.lower_bound {
                    Err(RandomGeneratorError::InvalidBounds)
                } else if narrows_too_far(c) {
                    Err(RandomGeneratorError::TooManyNumbers)
                } else {
                    Ok(())
                }
                &&& final(self)@ == if r is Ok {
                    with_config_view(old(self)@, c)
                } else {
                    old(self)@
                }
            }),
    {
        if upper < self.config.lower_bound {
            return Err(RandomGeneratorError::InvalidBounds);
        }
        if range_too_small(&self.config, self.config.lower_bound, upper) {
            return Err(RandomGeneratorError::TooManyNumbers);
        }
        self.config.upper_bound = upper;
        Ok(())
    }

    /// Sets how many numbers to generate; without repeats, no more than the
    /// active universe holds.
    pub fn set_num_to_generate(&mut self, num: usize) -> (r: Result<(), RandomGeneratorError>)
        ensures
            r == if too_many(old(self)@.config, num as nat) {
                Err(RandomGeneratorError::TooManyNumbers)
            } else {
                Ok(())
            },
            final(self)@ == if r is Ok {
                with_config_view(old(self)@, (ConfigView { num_to_generate: num as nat, ..old(self)@.config }))
            } else {
                old(self)@
            },
    {
        if exceeds_universe(&self.config, num) {
            return Err(RandomGeneratorError::TooManyNumbers);
        }
        self.config.num_to_generate = num;
        Ok(())
    }

    /// Allows or forbids repeats; forbidding them needs a universe at least
    /// as large as the requested count.
    pub fn set_allow_duplicates(&mut self, allow: bool) -> (r: Result<(), RandomGeneratorError>)
        ensures
            r == if !allow && old(self)@.config.num_to_generate > universe_size(old(self)@.config) {
                Err(RandomGeneratorError::TooManyNumbers)
            } else {
                Ok(())
            },
            final(self)@ == if r is Ok {
                with_config_view(old(self)@, (ConfigView { allow_duplicates: allow, ..old(self)@.config }))
            } else {
                old(self)@
            },
    {
        if !allow && (self.config.num_to_generate as i128) > crate::config::universe_len(&self.config) {
            return Err(RandomGeneratorError::TooManyNumbers);
        }
        self.config.allow_duplicates = allow;
        Ok(())
    }

    /// Whether repeats are allowed.
    pub fn get_allow_duplicates(&self) -> (r: bool)
        ensures
            r == self@.config.allow_duplicates,
    {
        self.config.allow_duplicates
    }

    /// Switches the mode if the configuration is valid in the new mode;
    /// otherwise nothing changes.
    pub fn set_mode(&mut self, mode: GeneratorMode) -> (r: Result<(), RandomGeneratorError>)
        ensures
            r == outcome(config_error((ConfigView { mode: mode, ..old(self)@.config }))),
            final(self)@ == if r is Ok {
                with_config_view(old(self)@, (ConfigView { mode: mode, ..old(self)@.config }))
            } else {
                old(self)@
            },
    {
        let previous = self.config.mode;
        self.config.mode = mode;
        match validate_config(&self.config) {
            Ok(()) => Ok(()),
            Err(e) => {
                self.config.mode = previous;
                Err(e)
            },
        }
    }

    /// The mode.
    pub fn get_mode(&self) -> (r: &GeneratorMode)
        ensures
            *r == self@.config.mode,
    {
        &self.config.mode
    }

    /// Keeps the typed text, and replaces the candidate list with the
    /// integers read from it if every field is an integer and the
    /// configuration stays valid; otherwise the list is left as it was.
    pub fn set_custom_list_input(&mut self, input: String) -> (r: Result<(), RandomGeneratorError>)
        ensures
            ({
                let typed = ConfigView { custom_list_input: input@, ..old(self)@.config };
                match list_numbers(input@) {
                    None => r == Err::<(), RandomGeneratorError>(RandomGeneratorError::InvalidInputFormat)
                        && final(self)@ == with_config_view(old(self)@, typed),
                    Some(l) => {
                        let candidate = ConfigView { custom_list: l, ..typed };
                        &&& r == outcome(config_error(candidate))
                        &&& final(self)@ == with_config_view(
                            old(self)@,
                            if r is Ok { candidate } else { typed },
                        )
                    },
                }
            }),
    {
        let parsed = parse_custom_list(input.as_str());
        self.config.custom_list_input = input;
        let mut list = match parsed {
            Some(list) => list,
            None => return Err(RandomGeneratorError::InvalidInputFormat),
        };
        std::mem::swap(&mut self.config.custom_list, &mut list);
        match validate_config(&self.config) {
            Ok(()) => Ok(()),
            Err(e) => {
                std::mem::swap(&mut self.config.custom_list, &mut list);
                Err(e)
            },
        }
    }

    /// The typed text of the candidate list.
    pub fn get_custom_list_input(&self) -> (r: &str)
        ensures
            r@ == self@.config.custom_list_input,
    {
        self.config.custom_list_input.as_str()
    }

    /// Generates a new result after validating the configuration. On success
    /// the previous result is replaced; on failure nothing changes.
    pub fn generate_numbers(&mut self) -> (r: Result<(), RandomGeneratorError>)
        ensures
            r == outcome(config_error(old(self)@.config)),
            r is Err ==> final(self)@ == old(self)@,
            r is Ok ==> final(self)@ == with_numbers(old(self)@, final(self)@.numbers),
            r is Ok ==> is_sample(old(self)@.config, final(self)@.numbers),
    {
        validate_config(&self.config)?;
        let k = self.config.num_to_generate;
        let lo = self.config.lower_bound;
        let hi = self.config.upper_bound;
        let nums = match self.config.mode {
            GeneratorMode::Range => {
                if self.config.allow_duplicates {
                    generate_range_with_duplicates(&mut self.rng, lo, hi, k)
                } else {
                    generate_range_without_duplicates(&mut self.rng, lo, hi, k)
                }
            },
            GeneratorMode::CustomList => {
                if self.config.allow_duplicates {
                    generate_custom_with_duplicates(&mut self.rng, &self.config.custom_list, k)
                } else {
                    generate_custom_without_duplicates(&mut self.rng, &self.config.custom_list, k)
                }
            },
        };
        self.generated_numbers = nums;
        Ok(())
    }

    /// Empties the result.
    pub fn clear_numbers(&mut self)
        ensures
            final(self)@ == with_numbers(old(self)@, Seq::empty()),
    {
        self.generated_numbers.clear();
    }

    /// The last result.
    pub fn get_numbers(&self) -> (r: &[i64])
        ensures
            r@ == self@.numbers,
    {
        self.generated_numbers.as_slice()
    }

    /// The result, for changing in place.
    pub fn get_numbers_mut(&mut self) -> (r: &mut Vec<i64>)
        ensures
            r@ == old(self)@.numbers,
            final(self)@ == with_numbers(old(self)@, final(r)@),
    {
        &mut self.generated_numbers
    }

    /// The bounds, lower first.
    pub fn get_bounds(&self) -> (r: (i64, i64))
        ensures
            r.0 == self@.config.lower_bound,
            r.1 == self@.config.upper_bound,
    {
        (self.config.lower_bound, self.config.upper_bound)
    }

    /// The requested count and whether repeats are allowed.
    pub fn get_settings(&self) -> (r: (usize, bool))
        ensures
            r.0 == self@.config.num_to_generate,
            r.1 == self@.config.allow_duplicates,
    {
        (self.config.num_to_generate, self.config.allow_duplicates)
    }

    /// The text to save for the result: its numbers one per line, or `None`
    /// when the result is empty and there is nothing to write.
    pub fn save_numbers_text(&self) -> (r: Option<String>)
        ensures
            match r {
                Some(t) => self@.numbers.len() > 0 && t@ == lines_text(self@.numbers),
                None => self@.numbers.len() == 0,
            },
    {
        if self.generated_numbers.len() == 0 {
            return None;
        }
        Some(lines_of_numbers(&self.generated_numbers))
    }

    /// Replaces the result with the integers of a saved file's text, if
    /// every non-blank line holds one; otherwise nothing changes.
    pub fn load_numbers_text(&mut self, content: &str) -> (r: Result<(), RandomGeneratorError>)
        ensures
            match file_numbers(content@) {
                Some(v) => r is Ok && final(self)@ == with_numbers(old(self)@, v),
                None => r == Err::<(), RandomGeneratorError>(RandomGeneratorError::InvalidData)
                    && final(self)@ == old(self)@,
            },
    {
        match parse_numbers_file(content) {
            Some(nums) => {
                self.generated_numbers = nums;
                Ok(())
            },
            None => Err(RandomGeneratorError::InvalidData),
        }
    }

    /// The version of this generator.
    pub fn get_core_version(&self) -> (r: &str)
        ensures
            r@ == self@.core_version,
    {
        self.core_version.as_str()
    }

    /// Count, extremes and sum of the result.
    pub fn get_stats(&self) -> (r: GeneratorStats)
        ensures
            stats_of(self@.numbers, r),
    {
        let v = &self.generated_numbers;
        let n = v.len();
        let mut min: Option<i64> = None;
        let mut max: Option<i64> = None;
        let mut sum: i128 = 0;
        for i in 0..n
            invariant
                n == v.len(),
                sum == seq_sum(v@.take(i as int)),
                -(i as int) * 0x8000_0000_0000_0000 <= sum <= (i as int) * 0x7fff_ffff_ffff_ffff,
                match min {
                    Some(m) => is_least(v@.take(i as int), m),
                    None => i == 0,
                },
                match max {
                    Some(m) => is_greatest(v@.take(i as int), m),
                    None => i == 0,
                },
        {
            let x = v[i];
            let ghost pre = v@.take(i as int);
            let ghost cur = v@.take(i + 1);
            assert(cur.drop_last() =~= pre);
            assert(cur.last() == x);
            assert(forall|j: int| 0 <= j < i ==> cur[j] == pre[j]);
            sum = sum + x as i128;
            min = match min {
                Some(m) => if x < m { Some(x) } else { Some(m) },
                None => Some(x),
            };
            max = match max {
                Some(m) => if x > m { Some(x) } else { Some(m) },
                None => Some(x),
            };
            proof {
                assert(cur.contains(x));
                if let Some(m) = min {
                    if pre.contains(m) {
                        let w = choose|w: int| 0 <= w < pre.len() && pre[w] == m;
                        assert(cur[w] == m);
                    }
                }
                if let Some(m) = max {
                    if pre.contains(m) {
                        let w = choose|w: int| 0 <= w < pre.len() && pre[w] == m;
                        assert(cur[w] == m);
                    }
                }
            }
        }
        assert(v@.take(n as int) =~= v@);
        GeneratorStats { count: n, min, max, sum }
    }
}

/// Saving a result, clearing it, and loading the saved text brings back the
/// same numbers in the same order, so the generator is as it was before the
/// clear.
pub proof fn lemma_save_clear_load(g: GeneratorView)
    requires
        g.numbers.len() > 0,
    ensures
        ({
            let cleared = with_numbers(g, Seq::empty());
            &&& file_numbers(lines_text(g.numbers)) == Some(g.numbers)
            &&& with_numbers(cleared, g.numbers) == g
        }),
{
    lemma_lines_round_trip(g.numbers);
}

/// Every setter that succeeds on a valid configuration leaves it valid: a
/// new bound that passes the bound checks, a count that the universe can
/// hold, and a change of the repeat rule that passes its check. (The mode,
/// the list and the whole configuration are committed only when the result
/// validates.)
pub proof fn lemma_setters_keep_valid(c: ConfigView, v: int, n: nat, allow: bool)
    requires
        config_error(c) is None,
    ensures
        v <= c.upper_bound && !narrows_too_far((ConfigView { lower_bound: v, ..c }))
            ==> config_error((ConfigView { lower_bound: v, ..c })) is None,
        v >= c.lower_bound && !narrows_too_far((ConfigView { upper_bound: v, ..c }))
            ==> config_error((ConfigView { upper_bound: v, ..c })) is None,
        !too_many(c, n) ==> config_error((ConfigView { num_to_generate: n, ..c })) is None,
        !too_many((ConfigView { allow_duplicates: allow, ..c }), c.num_to_generate)
            ==> config_error((ConfigView { allow_duplicates: allow, ..c })) is None,
{
}

impl Default for RandomGenerator {
    fn default() -> (r: RandomGenerator)
        ensures
            r@.config == default_config(),
            r@.numbers == Seq::<i64>::empty(),
            r@.core_version == CORE_VERSION@,
    {
        RandomGenerator::new()
    }
}

} // verus!
