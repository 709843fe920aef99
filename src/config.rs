//! Generation parameters, their abstract view, and validation.

use crate::text::push_str;
use std::collections::HashSet;
use vstd::prelude::*;

verus! {

broadcast use vstd::std_specs::hash::group_hash_axioms;

/// Errors reported by the generator.
#[derive(Debug, Clone, PartialEq, Eq)]
pub enum RandomGeneratorError {
    /// The lower bound exceeds the upper bound.
    InvalidBounds,
    /// More distinct numbers were requested than the universe holds.
    TooManyNumbers,
    /// Reading or writing a file failed; the text describes the cause.
    IoError(String),
    /// A token of a typed list is not an integer.
    InvalidInputFormat,
    /// List mode is active with no candidates.
    EmptyList,
    /// A line of a file of numbers is not an integer.
    InvalidData,
}

/// Where numbers are drawn from.
#[derive(Debug, Clone, Copy, PartialEq, Eq, Structural)]
pub enum GeneratorMode {
    /// The inclusive interval between the bounds.
    Range,
    /// The values of the candidate list.
    CustomList,
}

impl GeneratorMode {
    /// The name shown for the mode.
    pub fn label(&self) -> (r: &'static str)
        ensures
            r@ == match *self {
                GeneratorMode::Range => "Range"@,
                GeneratorMode::CustomList => "Custom List"@,
            },
    {
        match self {
            GeneratorMode::Range => "Range",
            GeneratorMode::CustomList => "Custom List",
        }
    }
}

/// The text that describes an error.
pub open spec fn error_text(e: RandomGeneratorError) -> Seq<char> {
    match e {
        RandomGeneratorError::InvalidBounds => "The lower bound must be less than or equal to the upper bound"@,
        RandomGeneratorError::TooManyNumbers => "The number of requested numbers exceeds the range size"@,
        RandomGeneratorError::IoError(cause) => "IO Error: "@ + cause@,
        RandomGeneratorError::InvalidInputFormat => "Invalid input format for custom list"@,
        RandomGeneratorError::EmptyList => "Custom list cannot be empty"@,
        RandomGeneratorError::InvalidData => "Invalid data: every non-blank line must hold an integer"@,
    }
}

impl RandomGeneratorError {
    /// The text that describes the error.
    pub fn message(&self) -> (r: String)
        ensures
            r@ == error_text(*self),
    {
        match self {
            RandomGeneratorError::InvalidBounds => "The lower bound must be less than or equal to the upper bound".to_owned(),
            RandomGeneratorError::TooManyNumbers => "The number of requested numbers exceeds the range size".to_owned(),
            RandomGeneratorError::IoError(cause) => {
                let mut r = "IO Error: ".to_owned();
                push_str(&mut r, cause.as_str());
                r
            },
            RandomGeneratorError::InvalidInputFormat => "Invalid input format for custom list".to_owned(),
            RandomGeneratorError::EmptyList => "Custom list cannot be empty".to_owned(),
            RandomGeneratorError::InvalidData => "Invalid data: every non-blank line must hold an integer".to_owned(),
        }
    }
}

/// The parameters of generation.
#[derive(Debug, Clone)]
pub struct GeneratorConfig {
    pub lower_bound: i64,
    pub upper_bound: i64,
    pub num_to_generate: usize,
    pub allow_duplicates: bool,
    pub mode: GeneratorMode,
    pub custom_list: Vec<i64>,
    /// The text that `custom_list` was read from, kept as typed.
    pub custom_list_input: String,
}

/// A configuration as plain mathematical values.
pub struct ConfigView {
    pub lower_bound: int,
    pub upper_bound: int,
    pub num_to_generate: nat,
    pub allow_duplicates: bool,
    pub mode: GeneratorMode,
    pub custom_list: Seq<i64>,
    pub custom_list_input: Seq<char>,
}

impl View for GeneratorConfig {
    type V = ConfigView;

    open spec fn view(&self) -> ConfigView {
        ConfigView {
            lower_bound: self.lower_bound as int,
            upper_bound: self.upper_bound as int,
            num_to_generate: self.num_to_generate as nat,
            allow_duplicates: self.allow_duplicates,
            mode: self.mode,
            custom_list: self.custom_list@,
            custom_list_input: self.custom_list_input@,
        }
    }
}

/// The configuration a new generator starts with.
pub open spec fn default_config() -> ConfigView {
    ConfigView {
        lower_bound: 0,
        upper_bound: 1024,
        num_to_generate: 1,
        allow_duplicates: false,
        mode: GeneratorMode::Range,
        custom_list: Seq::empty(),
        custom_list_input: Seq::empty(),
    }
}

impl Default for GeneratorConfig {
    fn default() -> (r: GeneratorConfig)
        ensures
            r@ == default_config(),
    {
        let r = GeneratorConfig {
            lower_bound: 0,
            upper_bound: 1024,
            num_to_generate: 1,
            allow_duplicates: false,
            mode: GeneratorMode::Range,
            custom_list: Vec::new(),
            custom_list_input: String::new(),
        };
        assert(r@ =~= default_config());
        r
    }
}

/// How many values the active mode can draw from: the width of the range, or
/// the number of distinct values in the list.
pub open spec fn universe_size(c: ConfigView) -> int {
    match c.mode {
        GeneratorMode::Range => c.upper_bound - c.lower_bound + 1,
        GeneratorMode::CustomList => c.custom_list.to_set().len() as int,
    }
}

/// Whether `v` belongs to the active mode's universe.
pub open spec fn in_universe(c: ConfigView, v: i64) -> bool {
    match c.mode {
        GeneratorMode::Range => c.lower_bound <= v <= c.upper_bound,
        GeneratorMode::CustomList => c.custom_list.contains(v),
    }
}

/// Whether a request exceeds what can be drawn without repeats.
pub open spec fn too_many(c: ConfigView, n: nat) -> bool {
    !c.allow_duplicates && n > universe_size(c)
}

/// The first rule that a configuration breaks, if any.
pub open spec fn config_error(c: ConfigView) -> Option<RandomGeneratorError> {
    match c.mode {
        GeneratorMode::Range => if c.lower_bound > c.upper_bound {
            Some(RandomGeneratorError::InvalidBounds)
        } else if too_many(c, c.num_to_generate) {
            Some(RandomGeneratorError::TooManyNumbers)
        } else {
            None
        },
        GeneratorMode::CustomList => if c.custom_list.len() == 0 {
            Some(RandomGeneratorError::EmptyList)
        } else if too_many(c, c.num_to_generate) {
            Some(RandomGeneratorError::TooManyNumbers)
        } else {
            None
        },
    }
}

/// `Ok` where there is no error, else the error.
pub open spec fn outcome(e: Option<RandomGeneratorError>) -> Result<(), RandomGeneratorError> {
    match e {
        Some(e) => Err(e),
        None => Ok(()),
    }
}

/// The values of the list, each once, in order of first appearance.
pub fn distinct_values(list: &Vec<i64>) -> (r: Vec<i64>)
    ensures
        r@.no_duplicates(),
        forall|x: i64| r@.contains(x) <==> list@.contains(x),
        r.len() == list@.to_set().len(),
{
    let mut seen: HashSet<i64> = HashSet::new();
    let mut r: Vec<i64> = Vec::new();
    for i in 0..list.len()
        invariant
            r@.no_duplicates(),
            forall|x: i64| seen@.contains(x) <==> r@.contains(x),
            forall|x: i64| r@.contains(x) <==> list@.take(i as int).contains(x),
    {
        let x = list[i];
        let ghost before = r@;
        assert(forall|w: int| 0 <= w < i ==> list@.take(i + 1)[w] == list@.take(i as int)[w]);
        assert(list@.take(i + 1)[i as int] == x);
        proof {
            let t1 = list@.take(i + 1);
            let t0 = list@.take(i as int);
            assert forall|y: i64| t1.contains(y) implies (t0.contains(y) || y == x) by {
                let w = choose|w: int| 0 <= w < t1.len() && #[trigger] t1[w] == y;
                if w < i {
                    assert(t0[w] == y);
                }
            }
            assert forall|y: i64| t0.contains(y) implies t1.contains(y) by {
                let w = choose|w: int| 0 <= w < t0.len() && #[trigger] t0[w] == y;
                assert(t1[w] == y);
            }
            assert(t1.contains(x));
        }
        if !seen.contains(&x) {
            seen.insert(x);
            r.push(x);
            assert(forall|w: int| 0 <= w < before.len() ==> r@[w] == before[w]);
            assert(r@[before.len() as int] == x);
            assert(forall|y: i64| r@.contains(y) <==> (before.contains(y) || y == x)) by {
                assert forall|y: i64| r@.contains(y) implies (before.contains(y) || y == x) by {
                    let w = choose|w: int| 0 <= w < r@.len() && #[trigger] r@[w] == y;
                    if w < before.len() {
                        assert(before[w] == y);
                    }
                }
                assert forall|y: i64| before.contains(y) implies r@.contains(y) by {
                    let w = choose|w: int| 0 <= w < before.len() && #[trigger] before[w] == y;
                    assert(r@[w] == y);
                }
            }
        }
        assert(r@.contains(x));
        assert forall|y: i64| r@.contains(y) implies list@.take(i + 1).contains(y) by {
            if y != x {
                assert(before.contains(y));
                assert(list@.take(i as int).contains(y));
            }
        }
        assert forall|y: i64| list@.take(i + 1).contains(y) implies r@.contains(y) by {
            if y != x {
                assert(list@.take(i as int).contains(y));
                assert(before.contains(y));
            }
        }
    }
    assert(list@.take(list.len() as int) =~= list@);
    proof {
        r@.unique_seq_to_set();
        assert(r@.to_set() =~= list@.to_set());
    }
    r
}

/// The size of the active mode's universe.
pub fn universe_len(config: &GeneratorConfig) -> (r: i128)
    ensures
        r == universe_size(config@),
{
    match config.mode {
        GeneratorMode::Range => config.upper_bound as i128 - config.lower_bound as i128 + 1,
        GeneratorMode::CustomList => distinct_values(&config.custom_list).len() as i128,
    }
}

/// Whether `n` numbers exceed what the configuration can give without repeats.
pub fn exceeds_universe(config: &GeneratorConfig, n: usize) -> (r: bool)
    ensures
        r == too_many(config@, n as nat),
{
    !config.allow_duplicates && (n as i128) > universe_len(config)
}

/// Checks a configuration against the rules of its mode.
pub fn validate_config(config: &GeneratorConfig) -> (r: Result<(), RandomGeneratorError>)
    ensures
        r == outcome(config_error(config@)),
{
    match config.mode {
        GeneratorMode::Range => {
            if config.lower_bound > config.upper_bound {
                return Err(RandomGeneratorError::InvalidBounds);
            }
        },
        GeneratorMode::CustomList => {
            if config.custom_list.len() == 0 {
                return Err(RandomGeneratorError::EmptyList);
            }
        },
    }
    if exceeds_universe(config, config.num_to_generate) {
        return Err(RandomGeneratorError::TooManyNumbers);
    }
    Ok(())
}

} // verus!
