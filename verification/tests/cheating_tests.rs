use consensus_provider::cheating::{
    CheatingMode, CheatingWeights, Decision, DelayDecision, SmartCheatingConfig,
};

#[test]
fn delay_mode_always_cheats_and_only_delays() {
    let mode = CheatingMode::Delay { min_ms: 1000, max_ms: 5000 };
    assert_eq!(mode.cheat_decision(), Decision::Always);
    assert_eq!(mode.termination_decision(), Decision::Never);
    assert_eq!(mode.modification_decision(), Decision::Never);
    assert_eq!(mode.delay_decision(), DelayDecision::Uniform { min_ms: 1000, max_ms: 5000 });
    assert_eq!(mode.description(), "延迟执行");
}

#[test]
fn wrong_result_mode_always_corrupts_and_nothing_else() {
    let mode = CheatingMode::WrongResult;
    assert_eq!(mode.cheat_decision(), Decision::Always);
    assert_eq!(mode.modification_decision(), Decision::Always);
    assert_eq!(mode.termination_decision(), Decision::Never);
    assert_eq!(mode.delay_decision(), DelayDecision::NoDelay);
    assert_eq!(mode.description(), "返回错误结果");
}

#[test]
fn early_termination_mode_terminates_by_its_probability() {
    let half = 0.5f64.to_bits();
    let mode = CheatingMode::EarlyTermination { probability: half };
    assert_eq!(mode.cheat_decision(), Decision::Chance { probability: half });
    assert_eq!(mode.termination_decision(), Decision::Chance { probability: half });
    assert_eq!(mode.modification_decision(), Decision::Never);
    assert_eq!(mode.delay_decision(), DelayDecision::NoDelay);
    assert_eq!(mode.description(), "提前终止");
}

#[test]
fn mixed_mode_draws_by_weight_shares() {
    let weights = CheatingWeights::default();
    let mode = CheatingMode::Mixed { weights };
    assert_eq!(mode.cheat_decision(), Decision::MixedDraw { weights });
    assert_eq!(
        mode.termination_decision(),
        Decision::WeightShare { part: weights.early_termination, weights }
    );
    assert_eq!(
        mode.modification_decision(),
        Decision::WeightShare { part: weights.wrong_result, weights }
    );
    assert_eq!(
        mode.delay_decision(),
        DelayDecision::Gated {
            gate: Decision::WeightShare { part: weights.delay, weights },
            min_ms: 1000,
            max_ms: 5000,
        }
    );
}

#[test]
fn smart_mode_uses_its_probabilities() {
    let config = SmartCheatingConfig::default();
    let mode = CheatingMode::Smart { config };
    assert_eq!(mode.cheat_decision(), Decision::Chance { probability: 0.7f64.to_bits() });
    assert_eq!(mode.termination_decision(), Decision::Chance { probability: 0.2f64.to_bits() });
    assert_eq!(mode.modification_decision(), Decision::Chance { probability: 0.4f64.to_bits() });
    assert_eq!(
        mode.delay_decision(),
        DelayDecision::Gated {
            gate: Decision::Chance { probability: 0.4f64.to_bits() },
            min_ms: 2000,
            max_ms: 8000,
        }
    );
}
