//! Cheating behaviours that a dishonest provider can be configured with.
//!
//! Probabilities and weights are floating-point numbers in the configuration
//! files; the library carries each of them as its IEEE-754 bit pattern
//! (`f64::to_bits`) and never computes with it.  Drawing the random outcomes
//! that depend on them is done by the application.

use vstd::prelude::*;
use rand::Rng;
use crate::clock::Timestamp;

verus! {

/// Relative weights of the three behaviours of mixed cheating (bit patterns
/// of `f64` values).
#[derive(Clone, Copy, Debug, PartialEq, Eq, Structural)]
pub struct CheatingWeights {
    pub delay: u64,
    pub wrong_result: u64,
    pub early_termination: u64,
}

/// Bit pattern of `1.0f64`.
pub const ONE_BITS: u64 = 0x3ff0000000000000u64;
/// Bit pattern of `0.5f64`.
pub const HALF_BITS: u64 = 0x3fe0000000000000u64;

impl Default for CheatingWeights {
    /// Weights 1.0 for delay, 1.0 for wrong results, 0.5 for early termination.
    fn default() -> (w: Self)
        ensures
            w.delay == ONE_BITS,
            w.wrong_result == ONE_BITS,
            w.early_termination == HALF_BITS,
    {
        CheatingWeights { delay: ONE_BITS, wrong_result: ONE_BITS, early_termination: HALF_BITS }
    }
}

/// Configuration of "smart" cheating.  The probability fields are bit
/// patterns of `f64` values; the delay bounds are milliseconds.
#[derive(Clone, Copy, Debug, PartialEq, Eq, Structural)]
pub struct SmartCheatingConfig {
    pub cheating_probability: u64,
    pub delay_probability: u64,
    pub min_delay_ms: u64,
    pub max_delay_ms: u64,
    pub wrong_result_probability: u64,
    pub termination_probability: u64,
}

/// Bit pattern of `0.7f64`.
pub const SEVEN_TENTHS_BITS: u64 = 0x3fe6666666666666u64;
/// Bit pattern of `0.4f64`.
pub const FOUR_TENTHS_BITS: u64 = 0x3fd999999999999au64;
/// Bit pattern of `0.2f64`.
pub const TWO_TENTHS_BITS: u64 = 0x3fc999999999999au64;
/// Bit pattern of `0.3f64`.
pub const THREE_TENTHS_BITS: u64 = 0x3fd3333333333333u64;

impl Default for SmartCheatingConfig {
    /// Cheat with probability 0.7; delay 2000 to 8000 ms with probability 0.4;
    /// wrong results with probability 0.4; terminate with probability 0.2.
    fn default() -> (c: Self)
        ensures
            c.cheating_probability == SEVEN_TENTHS_BITS,
            c.delay_probability == FOUR_TENTHS_BITS,
            c.min_delay_ms == 2000,
            c.max_delay_ms == 8000,
            c.wrong_result_probability == FOUR_TENTHS_BITS,
            c.termination_probability == TWO_TENTHS_BITS,
    {
        SmartCheatingConfig {
            cheating_probability: SEVEN_TENTHS_BITS,
            delay_probability: FOUR_TENTHS_BITS,
            min_delay_ms: 2000,
            max_delay_ms: 8000,
            wrong_result_probability: FOUR_TENTHS_BITS,
            termination_probability: TWO_TENTHS_BITS,
        }
    }
}

/// A cheating behaviour.
#[derive(Clone, Copy, Debug, PartialEq, Eq, Structural)]
pub enum CheatingMode {
    /// Sleep a random time in `min_ms..=max_ms` before computing.
    Delay { min_ms: u64, max_ms: u64 },
    /// Compute correctly, then corrupt the result.
    WrongResult,
    /// Abort the task with the given probability (an `f64` bit pattern).
    EarlyTermination { probability: u64 },
    /// Pick among the behaviours by weight.
    Mixed { weights: CheatingWeights },
    /// Decide per task by the configured probabilities.
    Smart { config: SmartCheatingConfig },
}

/// The human-readable description of each cheating behaviour.
pub open spec fn cheating_description(m: CheatingMode) -> Seq<char> {
    match m {
        CheatingMode::Delay { .. } => "延迟执行"@,
        CheatingMode::WrongResult => "返回错误结果"@,
        CheatingMode::EarlyTermination { .. } => "提前终止"@,
        CheatingMode::Mixed { .. } => "混合作弊"@,
        CheatingMode::Smart { .. } => "智能作弊"@,
    }
}

/// Different kinds of cheating have different descriptions.
pub proof fn lemma_cheating_descriptions_distinct(a: CheatingMode, b: CheatingMode)
    ensures
        cheating_description(a) == cheating_description(b) ==> {
            &&& (a is Delay) == (b is Delay)
            &&& (a is WrongResult) == (b is WrongResult)
            &&& (a is EarlyTermination) == (b is EarlyTermination)
            &&& (a is Mixed) == (b is Mixed)
            &&& (a is Smart) == (b is Smart)
        },
{
    reveal_strlit("延迟执行");
    reveal_strlit("返回错误结果");
    reveal_strlit("提前终止");
    reveal_strlit("混合作弊");
    reveal_strlit("智能作弊");
    assert("延迟执行"@[0] == '延');
    assert("返回错误结果"@[0] == '返');
    assert("提前终止"@[0] == '提');
    assert("混合作弊"@[0] == '混');
    assert("智能作弊"@[0] == '智');
}

impl CheatingMode {
    /// The description of this behaviour.
    pub fn description(&self) -> (s: &'static str)
        ensures
            s@ == cheating_description(*self),
    {
        match self {
            CheatingMode::Delay { .. } => "延迟执行",
            CheatingMode::WrongResult => "返回错误结果",
            CheatingMode::EarlyTermination { .. } => "提前终止",
            CheatingMode::Mixed { .. } => "混合作弊",
            CheatingMode::Smart { .. } => "智能作弊",
        }
    }
}

/// How a yes/no cheating decision is taken.  Probabilities and weights are
/// `f64` bit patterns; drawing with them is done by the application.
#[derive(Clone, Copy, Debug, PartialEq, Eq, Structural)]
pub enum Decision {
    /// Always yes.
    Always,
    /// Always no.
    Never,
    /// Yes with the given probability.
    Chance { probability: u64 },
    /// Yes with probability `part / (delay + wrong_result + early_termination)`
    /// of the weights.
    WeightShare { part: u64, weights: CheatingWeights },
    /// The mixed draw: a uniform value below the total weight selects delay or
    /// wrong result (yes) or, in the remaining share, yes with probability
    /// `early_termination / total`.
    MixedDraw { weights: CheatingWeights },
}

/// How a cheating delay is chosen.
#[derive(Clone, Copy, Debug, PartialEq, Eq, Structural)]
pub enum DelayDecision {
    /// No delay.
    NoDelay,
    /// A delay uniformly drawn from `min_ms..=max_ms`.
    Uniform { min_ms: u64, max_ms: u64 },
    /// With the decision's outcome yes, a delay uniformly drawn from
    /// `min_ms..=max_ms`; otherwise none.
    Gated { gate: Decision, min_ms: u64, max_ms: u64 },
}

/// Whether a provider in this mode cheats on a task.
pub open spec fn cheat_decision_of(m: CheatingMode) -> Decision {
    match m {
        CheatingMode::Delay { .. } => Decision::Always,
        CheatingMode::WrongResult => Decision::Always,
        CheatingMode::EarlyTermination { probability } => Decision::Chance { probability },
        CheatingMode::Mixed { weights } => Decision::MixedDraw { weights },
        CheatingMode::Smart { config } => Decision::Chance { probability: config.cheating_probability },
    }
}

/// Whether a provider in this mode aborts a task.
pub open spec fn termination_decision_of(m: CheatingMode) -> Decision {
    match m {
        CheatingMode::EarlyTermination { probability } => Decision::Chance { probability },
        CheatingMode::Mixed { weights } => Decision::WeightShare { part: weights.early_termination, weights },
        CheatingMode::Smart { config } => Decision::Chance { probability: config.termination_probability },
        _ => Decision::Never,
    }
}

/// Whether a provider in this mode corrupts a result.
pub open spec fn modification_decision_of(m: CheatingMode) -> Decision {
    match m {
        CheatingMode::WrongResult => Decision::Always,
        CheatingMode::Mixed { weights } => Decision::WeightShare { part: weights.wrong_result, weights },
        CheatingMode::Smart { config } => Decision::Chance { probability: config.wrong_result_probability },
        _ => Decision::Never,
    }
}

/// How a provider in this mode delays a task.
pub open spec fn delay_decision_of(m: CheatingMode) -> DelayDecision {
    match m {
        CheatingMode::Delay { min_ms, max_ms } => DelayDecision::Uniform { min_ms, max_ms },
        CheatingMode::Mixed { weights } => DelayDecision::Gated {
            gate: Decision::WeightShare { part: weights.delay, weights },
            min_ms: 1000,
            max_ms: 5000,
        },
        CheatingMode::Smart { config } => DelayDecision::Gated {
            gate: Decision::Chance { probability: config.delay_probability },
            min_ms: config.min_delay_ms,
            max_ms: config.max_delay_ms,
        },
        _ => DelayDecision::NoDelay,
    }
}

impl CheatingMode {
    /// How this mode decides whether to cheat: delaying and wrong-result
    /// providers always cheat; early termination and smart cheating cheat by
    /// their probability; mixed cheating by its weighted draw.
    pub fn cheat_decision(&self) -> (d: Decision)
        ensures
            d == cheat_decision_of(*self),
    {
        match self {
            CheatingMode::Delay { .. } => Decision::Always,
            CheatingMode::WrongResult => Decision::Always,
            CheatingMode::EarlyTermination { probability } => Decision::Chance { probability: *probability },
            CheatingMode::Mixed { weights } => Decision::MixedDraw { weights: *weights },
            CheatingMode::Smart { config } => Decision::Chance { probability: config.cheating_probability },
        }
    }

    /// How this mode decides whether to abort a task: never for delaying and
    /// wrong-result providers.
    pub fn termination_decision(&self) -> (d: Decision)
        ensures
            d == termination_decision_of(*self),
    {
        match self {
            CheatingMode::EarlyTermination { probability } => Decision::Chance { probability: *probability },
            CheatingMode::Mixed { weights } => Decision::WeightShare { part: weights.early_termination, weights: *weights },
            CheatingMode::Smart { config } => Decision::Chance { probability: config.termination_probability },
            _ => Decision::Never,
        }
    }

    /// How this mode decides whether to corrupt a result: always for
    /// wrong-result providers, never for delaying and terminating ones.
    pub fn modification_decision(&self) -> (d: Decision)
        ensures
            d == modification_decision_of(*self),
    {
        match self {
            CheatingMode::WrongResult => Decision::Always,
            CheatingMode::Mixed { weights } => Decision::WeightShare { part: weights.wrong_result, weights: *weights },
            CheatingMode::Smart { config } => Decision::Chance { probability: config.wrong_result_probability },
            _ => Decision::Never,
        }
    }

    /// How this mode delays a task: delaying providers by their configured
    /// range, mixed cheating by the delay share and 1000 to 5000 ms, smart
    /// cheating by its delay probability and range; others never.
    pub fn delay_decision(&self) -> (d: DelayDecision)
        ensures
            d == delay_decision_of(*self),
    {
        match self {
            CheatingMode::Delay { min_ms, max_ms } => DelayDecision::Uniform { min_ms: *min_ms, max_ms: *max_ms },
            CheatingMode::Mixed { weights } => DelayDecision::Gated {
                gate: Decision::WeightShare { part: weights.delay, weights: *weights },
                min_ms: 1000,
                max_ms: 5000,
            },
            CheatingMode::Smart { config } => DelayDecision::Gated {
                gate: Decision::Chance { probability: config.delay_probability },
                min_ms: config.min_delay_ms,
                max_ms: config.max_delay_ms,
            },
            _ => DelayDecision::NoDelay,
        }
    }
}

/// Each single-behaviour mode does only its own kind of cheating: a delaying
/// provider never aborts or corrupts, a wrong-result provider never delays
/// or aborts, a terminating provider never delays or corrupts.
pub proof fn lemma_pure_modes_do_one_thing(m: CheatingMode)
    ensures
        m is Delay ==> termination_decision_of(m) == Decision::Never && modification_decision_of(m) == Decision::Never
            && cheat_decision_of(m) == Decision::Always,
        m is WrongResult ==> termination_decision_of(m) == Decision::Never && delay_decision_of(m) == DelayDecision::NoDelay
            && modification_decision_of(m) == Decision::Always && cheat_decision_of(m) == Decision::Always,
        m is EarlyTermination ==> modification_decision_of(m) == Decision::Never && delay_decision_of(m) == DelayDecision::NoDelay,
{
}

/// Smart cheating takes each decision with its own configured probability:
/// it cheats with the cheating probability, aborts with the termination
/// probability, corrupts results with the wrong-result probability, and
/// delays (within its configured range) with the delay probability.
pub proof fn lemma_smart_decisions_follow_settings(config: SmartCheatingConfig)
    ensures
        cheat_decision_of(CheatingMode::Smart { config }) == (Decision::Chance { probability: config.cheating_probability }),
        termination_decision_of(CheatingMode::Smart { config }) == (Decision::Chance { probability: config.termination_probability }),
        modification_decision_of(CheatingMode::Smart { config }) == (Decision::Chance { probability: config.wrong_result_probability }),
        delay_decision_of(CheatingMode::Smart { config }) == (DelayDecision::Gated {
            gate: Decision::Chance { probability: config.delay_probability },
            min_ms: config.min_delay_ms,
            max_ms: config.max_delay_ms,
        }),
{
}

/// Mixed cheating aborts, corrupts and delays by the share of the
/// early-termination, wrong-result and delay weights respectively (delays of
/// 1000 to 5000 ms), and cheats by the weighted draw over all three.
pub proof fn lemma_mixed_decisions_follow_weights(weights: CheatingWeights)
    ensures
        cheat_decision_of(CheatingMode::Mixed { weights }) == (Decision::MixedDraw { weights }),
        termination_decision_of(CheatingMode::Mixed { weights }) == (Decision::WeightShare { part: weights.early_termination, weights }),
        modification_decision_of(CheatingMode::Mixed { weights }) == (Decision::WeightShare { part: weights.wrong_result, weights }),
        delay_decision_of(CheatingMode::Mixed { weights }) == (DelayDecision::Gated {
            gate: Decision::WeightShare { part: weights.delay, weights },
            min_ms: 1000,
            max_ms: 5000,
        }),
{
}

/// Early termination cheats and aborts with its probability; a delaying
/// provider delays within its own range.
pub proof fn lemma_single_modes_follow_settings(probability: u64, min_ms: u64, max_ms: u64)
    ensures
        cheat_decision_of(CheatingMode::EarlyTermination { probability }) == (Decision::Chance { probability }),
        termination_decision_of(CheatingMode::EarlyTermination { probability }) == (Decision::Chance { probability }),
        delay_decision_of(CheatingMode::Delay { min_ms, max_ms }) == (DelayDecision::Uniform { min_ms, max_ms }),
{
}

/// Calls `rand::thread_rng().gen_range(low..=high)`: a random number with
/// `low <= r <= high` (the range must not be empty, else `rand` panics).
/// Which number comes out is chance.
#[verifier::external_body]
fn gen_range_inclusive(low: u64, high: u64) -> (r: u64)
    requires
        low <= high,
    ensures
        low <= r <= high,
{
    rand::thread_rng().gen_range(low..=high)
}

/// Calls `rand::thread_rng().gen::<u8>()`: a random byte; any byte may come out.
#[verifier::external_body]
fn gen_byte() -> u8 {
    rand::thread_rng().gen::<u8>()
}

/// The positions at which two equally long byte sequences differ all occur
/// in `positions`.
pub open spec fn differs_only_at(a: Seq<u8>, b: Seq<u8>, positions: Seq<int>) -> bool {
    forall|i: int| 0 <= i < a.len() && a[i] != b[i] ==> positions.contains(i)
}

/// The byte a cheater writes at a position holding `correct` when it drew
/// `drawn`: the drawn byte, or the next byte value (wrapping from 255 to 0)
/// when the draw equals the correct byte.
pub open spec fn replacement_byte(correct: u8, drawn: u8) -> u8 {
    if drawn != correct {
        drawn
    } else if drawn == 255 {
        0
    } else {
        (drawn + 1) as u8
    }
}

/// `correct` overwritten, draw by draw in order, at each drawn position with
/// the replacement of the drawn byte.
pub open spec fn overwritten(correct: Seq<u8>, draws: Seq<(usize, u8)>) -> Seq<u8>
    decreases draws.len(),
{
    if draws.len() == 0 {
        correct
    } else {
        let prev = overwritten(correct, draws.drop_last());
        let i = draws.last().0 as int;
        prev.update(i, replacement_byte(correct[i], draws.last().1))
    }
}

/// The drawn positions.
pub open spec fn drawn_positions(draws: Seq<(usize, u8)>) -> Seq<int> {
    draws.map_values(|d: (usize, u8)| d.0 as int)
}

/// Draws a cheater can make on a result of `n` bytes: one to three
/// (position, byte) pairs with positions inside the result, none when the
/// result is empty.
pub open spec fn valid_draws(n: nat, draws: Seq<(usize, u8)>) -> bool {
    &&& forall|k: int| 0 <= k < draws.len() ==> (#[trigger] draws[k]).0 < n
    &&& if n == 0 { draws.len() == 0 } else { 1 <= draws.len() <= 3 }
}

/// Simulates the behaviours of cheating providers.
pub struct CheatingSimulator;

fn replacement(correct: u8, drawn: u8) -> (b: u8)
    ensures
        b == replacement_byte(correct, drawn),
{
    if drawn != correct {
        drawn
    } else if drawn == 255 {
        0
    } else {
        drawn + 1
    }
}

impl CheatingSimulator {
    /// `correct_result` with the given draws applied in order: at each drawn
    /// position, the drawn byte, or the next byte value when the draw equals
    /// the correct byte there.  Every drawn position then differs from the
    /// correct result, and no other does.
    pub fn apply_draws(correct_result: &[u8], draws: &[(usize, u8)]) -> (wrong: Vec<u8>)
        requires
            forall|k: int| 0 <= k < draws@.len() ==> (#[trigger] draws@[k]).0 < correct_result@.len(),
        ensures
            wrong@ == overwritten(correct_result@, draws@),
            wrong@.len() == correct_result@.len(),
            differs_only_at(wrong@, correct_result@, drawn_positions(draws@)),
            forall|k: int| 0 <= k < draws@.len() ==>
                wrong@[(#[trigger] draws@[k]).0 as int] != correct_result@[draws@[k].0 as int],
            draws@.len() > 0 ==> wrong@ != correct_result@,
    {
        let mut wrong: Vec<u8> = Vec::new();
        let n = correct_result.len();
        let mut i: usize = 0;
        while i < n
            invariant
                n == correct_result@.len(),
                i <= n,
                wrong@ == correct_result@.subrange(0, i as int),
            decreases n - i,
        {
            wrong.push(correct_result[i]);
            i += 1;
            assert(wrong@ =~= correct_result@.subrange(0, i as int));
        }
        assert(wrong@ =~= correct_result@);
        assert(draws@.take(0) =~= Seq::<(usize, u8)>::empty());
        let m = draws.len();
        let mut k: usize = 0;
        while k < m
            invariant
                m == draws@.len(),
                n == correct_result@.len(),
                k <= m,
                forall|j: int| 0 <= j < draws@.len() ==> (#[trigger] draws@[j]).0 < n,
                wrong@ == overwritten(correct_result@, draws@.take(k as int)),
                wrong@.len() == n,
                forall|j: int| 0 <= j < k ==> wrong@[(#[trigger] draws@[j]).0 as int] != correct_result@[draws@[j].0 as int],
                forall|p: int| 0 <= p < n && wrong@[p] != correct_result@[p] ==>
                    exists|j: int| 0 <= j < k && (#[trigger] draws@[j]).0 as int == p,
            decreases m - k,
        {
            let (idx, drawn) = draws[k];
            let ghost before = wrong@;
            let b = replacement(correct_result[idx], drawn);
            wrong.set(idx, b);
            proof {
                assert(draws@.take(k + 1).drop_last() =~= draws@.take(k as int));
                assert(draws@.take(k + 1).last() == draws@[k as int]);
                assert forall|j: int| 0 <= j < k + 1 implies
                    wrong@[(#[trigger] draws@[j]).0 as int] != correct_result@[draws@[j].0 as int] by {
                    if j < k && draws@[j].0 != idx {
                        assert(wrong@[draws@[j].0 as int] == before[draws@[j].0 as int]);
                    }
                }
                assert forall|p: int| 0 <= p < n && wrong@[p] != correct_result@[p] implies
                    exists|j: int| 0 <= j < k + 1 && (#[trigger] draws@[j]).0 as int == p by {
                    if p == idx as int {
                        assert(draws@[k as int].0 as int == p);
                    } else {
                        assert(before[p] == wrong@[p]);
                    }
                }
            }
            k += 1;
        }
        proof {
            assert(draws@.take(m as int) =~= draws@);
            assert forall|p: int| 0 <= p < wrong@.len() && wrong@[p] != correct_result@[p] implies
                drawn_positions(draws@).contains(p) by {
                let j = choose|j: int| 0 <= j < m && (#[trigger] draws@[j]).0 as int == p;
                assert(drawn_positions(draws@)[j] == p);
            }
            if m > 0 {
                assert(wrong@[draws@[0].0 as int] != correct_result@[draws@[0].0 as int]);
            }
        }
        wrong
    }

    /// A corrupted copy of a correct result: it draws one to three random
    /// (position, byte) pairs inside the result (none for an empty result)
    /// and applies them with `apply_draws`.  The length is kept, at most
    /// three positions differ, and a non-empty result always differs from
    /// the correct one.
    pub fn generate_wrong_result(correct_result: &[u8]) -> (wrong: Vec<u8>)
        ensures
            exists|draws: Seq<(usize, u8)>|
                valid_draws(correct_result@.len(), draws) && wrong@ == #[trigger] overwritten(correct_result@, draws),
            wrong@.len() == correct_result@.len(),
            exists|positions: Seq<int>|
                positions.len() <= 3 && #[trigger] differs_only_at(wrong@, correct_result@, positions),
            correct_result@.len() > 0 ==> wrong@ != correct_result@,
    {
        let n = correct_result.len();
        let modifications = gen_range_inclusive(1, 3);
        let mut draws: Vec<(usize, u8)> = Vec::new();
        let mut m: u64 = 0;
        while m < modifications
            invariant
                1 <= modifications <= 3,
                m <= modifications,
                n == correct_result@.len(),
                forall|k: int| 0 <= k < draws@.len() ==> (#[trigger] draws@[k]).0 < n,
                n == 0 ==> draws@.len() == 0,
                n > 0 ==> draws@.len() == m,
            decreases modifications - m,
        {
            if n > 0 {
                let last = (n - 1) as u64;
                let idx = gen_range_inclusive(0, last) as usize;
                let byte = gen_byte();
                draws.push((idx, byte));
            }
            m += 1;
        }
        let wrong = CheatingSimulator::apply_draws(correct_result, draws.as_slice());
        proof {
            assert(valid_draws(n as nat, draws@));
            assert(drawn_positions(draws@).len() <= 3);
        }
        wrong
    }

    /// A random delay in milliseconds, uniformly drawn from `min_ms..=max_ms`.
    pub fn random_delay(min_ms: u64, max_ms: u64) -> (ms: u64)
        requires
            min_ms <= max_ms,
        ensures
            min_ms <= ms <= max_ms,
    {
        gen_range_inclusive(min_ms, max_ms)
    }
}

/// Cheating statistics of one provider.  The cheating rate (a fraction from
/// 0.0 to 1.0) is held as the bit pattern of its `f64` value.
#[derive(Clone, Debug)]
pub struct CheatingStatistics {
    pub provider_id: String,
    pub total_tasks: usize,
    pub cheated_tasks: usize,
    pub cheating_rate: u64,
    pub last_updated: Timestamp,
}

} // verus!
