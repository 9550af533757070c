use mem8::arithmetic::Binary;
use mem8::arithmetic::Operation;
use mem8::arithmetic::Unary;
use mem8::consciousness::AttentionStrategy;
use mem8::consciousness::AttentionWeights;
use mem8::consciousness::ConsciousnessEngine;
use mem8::consciousness::ConsciousnessState;
use mem8::consciousness::ForgetCurve;
use mem8::consciousness::ForgettingProcessor;
use mem8::consciousness::MemoryRegion;
use mem8::consciousness::SensorArbitrator;
use mem8::consciousness::TemporalBlanket;
use mem8::consciousness::region_of_band;
use mem8::scalar::Scalar;
use mem8::timespan::TimeSpan;
use mem8::wave::FrequencyBand;
use mem8::wave::MemoryWave;
use mem8::wave::WaveGrid;
use std::sync::Arc;
use std::time::Duration;

fn s(x: f32) -> Scalar {
    Scalar::from_bits(x.to_bits())
}

fn f(x: Scalar) -> f32 {
    f32::from_bits(x.to_bits())
}

fn duration(span: TimeSpan) -> Duration {
    let nanos = span.as_nanos();
    Duration::new((nanos / 1_000_000_000) as u64, (nanos % 1_000_000_000) as u32)
}

fn ieee(operation: Operation) -> Scalar {
    match operation {
        Operation::Binary(Binary::Sum, a, b) => s(f(a) + f(b)),
        Operation::Binary(Binary::Difference, a, b) => s(f(a) - f(b)),
        Operation::Binary(Binary::Product, a, b) => s(f(a) * f(b)),
        Operation::Binary(Binary::Quotient, a, b) => s(f(a) / f(b)),
        Operation::Binary(Binary::Remainder, a, b) => s(f(a) % f(b)),
        Operation::Unary(Unary::Exp, x) => s(f(x).exp()),
        Operation::Unary(Unary::Sine, x) => s(f(x).sin()),
        Operation::Unary(Unary::Log2, x) => s(f(x).log2()),
        Operation::Unary(Unary::SquareRoot, x) => s(f(x).sqrt()),
        Operation::Integer(n) => s(n as f32),
        Operation::Seconds(span) => s(duration(span).as_secs_f32()),
    }
}

fn describe(frequency: Scalar) -> String {
    format!("{}", f(frequency))
}

fn wave(frequency: f32, amplitude: f32) -> MemoryWave {
    MemoryWave::new(s(frequency), s(amplitude), TimeSpan::from_nanos(0))
}

fn arbitrator(human_weight: f32, ai_weight: f32) -> SensorArbitrator {
    match SensorArbitrator::with_weights(s(human_weight), s(ai_weight), &ieee) {
        Some(arbitrator) => arbitrator,
        None => panic!("Weights must sum to 1.0"),
    }
}

fn semantic(name: &str) -> MemoryRegion {
    MemoryRegion::Semantic(name.to_string())
}

fn weights_of(weights: &AttentionWeights) -> Vec<f32> {
    (0..weights.len()).map(|i| f(weights.weight(i))).collect()
}

#[test]
fn test_sensor_arbitration() {
    let arbitrator = arbitrator(0.3, 0.7);

    let human_value = 0.5;
    let ai_value = 0.8;

    let result = f(arbitrator.arbitrate("test_sensor", s(human_value), s(ai_value), &ieee));
    assert!((result - (0.3 * 0.5 + 0.7 * 0.8)).abs() < 0.001);
}

#[test]
fn test_ai_override() {
    let mut arbitrator = arbitrator(0.3, 0.7);
    arbitrator.ai_interests.insert("critical_sensor".to_string(), s(0.9));

    // AI override should process even below noise floor
    assert!(arbitrator.should_process("critical_sensor", s(0.05), s(0.1), &ieee));
}

#[test]
fn arbitrate_blends_to_seventy_one_hundredths() {
    let arbitrator = arbitrator(0.3, 0.7);
    let blend = f(arbitrator.arbitrate("any", s(0.5), s(0.8), &ieee));
    assert!((blend - 0.71).abs() < 1e-3);
    assert_eq!(blend, 0.3f32 * 0.5 + 0.7f32 * 0.8);
}

#[test]
fn balanced_weights_make_an_arbitrator() {
    assert!(SensorArbitrator::with_weights(s(0.3), s(0.7), &ieee).is_some());
    assert!(SensorArbitrator::with_weights(s(0.5), s(0.5), &ieee).is_some());
    assert!(SensorArbitrator::with_weights(s(0.3), s(0.7005), &ieee).is_some());
    assert!(SensorArbitrator::with_weights(s(0.3), s(0.6995), &ieee).is_some());
    assert!(SensorArbitrator::with_weights(s(1.0), s(0.0), &ieee).is_some());
}

#[test]
fn unbalanced_weights_make_none() {
    assert!(SensorArbitrator::with_weights(s(0.3), s(0.5), &ieee).is_none());
    assert!(SensorArbitrator::with_weights(s(0.9), s(0.9), &ieee).is_none());
    assert!(SensorArbitrator::with_weights(s(0.3), s(0.702), &ieee).is_none());
    assert!(SensorArbitrator::with_weights(s(f32::NAN), s(0.5), &ieee).is_none());
    assert!(SensorArbitrator::with_weights(s(f32::INFINITY), s(0.5), &ieee).is_none());
}

#[test]
fn balance_is_judged_by_the_size_of_the_deviation() {
    assert!(SensorArbitrator::weights_balanced(s(0.0)));
    assert!(SensorArbitrator::weights_balanced(s(0.000999)));
    assert!(SensorArbitrator::weights_balanced(s(-0.000999)));
    assert!(!SensorArbitrator::weights_balanced(s(0.001)));
    assert!(!SensorArbitrator::weights_balanced(s(-0.001)));
    assert!(!SensorArbitrator::weights_balanced(s(-0.2)));
    assert!(!SensorArbitrator::weights_balanced(s(f32::NAN)));
    let deviation = s(0.4f32 + 0.6 - 1.0);
    assert!(SensorArbitrator::weights_balanced(deviation));
    let made = SensorArbitrator::new(s(0.4), s(0.6), deviation, &ieee);
    assert_eq!(f(made.human_weight), 0.4);
    assert_eq!(f(made.ai_weight), 0.6);
}

#[test]
fn new_arbitrator_keeps_weights() {
    let arbitrator = arbitrator(0.25, 0.75);
    assert_eq!(f(arbitrator.human_weight), 0.25);
    assert_eq!(f(arbitrator.ai_weight), 0.75);
    assert!(arbitrator.ai_interests.is_empty());
    assert!(arbitrator.subconscious_weights.is_empty());
}

#[test]
fn missing_interests_count_as_zero() {
    let mut arbitrator = arbitrator(0.3, 0.7);
    let (subconscious, machine) = arbitrator.interest_weights("edge_0");
    assert_eq!(f(subconscious), 0.0);
    assert_eq!(f(machine), 0.0);
    arbitrator.subconscious_weights.insert("edge_0".to_string(), s(0.4));
    arbitrator.ai_interests.insert("edge_0".to_string(), s(0.6));
    let (subconscious, machine) = arbitrator.interest_weights("edge_0");
    assert_eq!(f(subconscious), 0.4);
    assert_eq!(f(machine), 0.6);
    let (subconscious, machine) = arbitrator.interest_weights("edge_1");
    assert_eq!(f(subconscious), 0.0);
    assert_eq!(f(machine), 0.0);
}

#[test]
fn weighted_interest_formula() {
    let mut arbitrator = arbitrator(0.3, 0.7);
    assert_eq!(f(arbitrator.calculate_weighted_interest("motion_h", s(0.5), &ieee)), 0.5);
    arbitrator.subconscious_weights.insert("motion_h".to_string(), s(1.0));
    arbitrator.ai_interests.insert("motion_h".to_string(), s(0.5));
    // 0.5 + 0.3 * 0.5 * 1.0 + 0.7 * 0.5 * 0.5 = 0.825
    let interest = f(arbitrator.calculate_weighted_interest("motion_h", s(0.5), &ieee));
    assert!((interest - 0.825).abs() < 1e-6);
    assert_eq!(interest, 0.5 + 0.3f32 * 0.5 * 1.0 + 0.7f32 * 0.5 * 0.5);
    assert_eq!(f(arbitrator.calculate_weighted_interest("motion_v", s(0.5), &ieee)), 0.5);
}

#[test]
fn should_process_compares_with_noise_floor() {
    let mut arbitrator = arbitrator(0.3, 0.7);
    assert!(!arbitrator.should_process("color_r", s(0.05), s(0.1), &ieee));
    assert!(arbitrator.should_process("color_r", s(0.2), s(0.1), &ieee));
    assert!(!arbitrator.should_process("color_r", s(0.1), s(0.1), &ieee));
    arbitrator.ai_interests.insert("color_r".to_string(), s(0.8));
    // An interest of exactly 0.8 is no override; 0.05 * (1 + 0.56) is below 0.1.
    assert!(!arbitrator.should_process("color_r", s(0.05), s(0.1), &ieee));
    // But it lifts 0.07 * 1.56 over the floor.
    assert!(arbitrator.should_process("color_r", s(0.07), s(0.1), &ieee));
    arbitrator.ai_interests.insert("color_r".to_string(), s(0.81));
    assert!(arbitrator.should_process("color_r", s(0.0), s(0.1), &ieee));
    assert!(arbitrator.should_process("color_r", s(f32::NAN), s(0.1), &ieee));
    assert!(!arbitrator.should_process("color_g", s(f32::NAN), s(0.1), &ieee));
}

#[test]
fn default_shares_add_up_to_one() {
    let engine = ConsciousnessEngine::new(&ieee);
    let human = f(engine.arbitrator.human_weight);
    let machine = f(engine.arbitrator.ai_weight);
    assert_eq!(human, 0.3);
    assert_eq!(machine, 0.7);
    assert_eq!(human + machine - 1.0, 0.0);
    assert_eq!(engine.attention_strategy, AttentionStrategy::Balanced);
    assert_eq!(AttentionStrategy::default(), AttentionStrategy::Balanced);
}

#[test]
fn catalogue_of_curves() {
    let processor = ForgettingProcessor::new();
    assert_eq!(f(processor.frequency), 100.0);
    assert_eq!(processor.curves.len(), 5);
    assert_eq!(processor.curves.get("flash"), Some(&ForgetCurve::Flash(TimeSpan::from_millis(500))));
    assert_eq!(processor.curves.get("fade"), Some(&ForgetCurve::Fade(TimeSpan::from_secs(5))));
    assert_eq!(processor.curves.get("linger"), Some(&ForgetCurve::Linger(TimeSpan::from_secs(30))));
    assert_eq!(processor.curves.get("persist"), Some(&ForgetCurve::Persist(TimeSpan::from_secs(300))));
    assert_eq!(processor.curves.get("consolidate"), Some(&ForgetCurve::Consolidate));
    assert_eq!(processor.curves.get("forever"), None);
}

#[test]
fn classify_contexts() {
    let processor = ForgettingProcessor::new();
    let mut memory = wave(440.0, 0.8);
    assert_eq!(
        processor.process(&mut memory, "transient_detail"),
        ForgetCurve::Flash(TimeSpan::from_millis(500))
    );
    assert_eq!(processor.process(&mut memory, "resolved_threat"), ForgetCurve::Fade(TimeSpan::from_secs(5)));
    assert_eq!(
        processor.process(&mut memory, "familiar_anomaly"),
        ForgetCurve::Linger(TimeSpan::from_secs(30))
    );
    assert_eq!(
        processor.process(&mut memory, "actionable_info"),
        ForgetCurve::Persist(TimeSpan::from_secs(300))
    );
    assert_eq!(processor.process(&mut memory, "learned_pattern"), ForgetCurve::Consolidate);
    assert_eq!(processor.process(&mut memory, "something_else"), ForgetCurve::Fade(TimeSpan::from_secs(10)));
    assert_eq!(processor.process(&mut memory, ""), ForgetCurve::Fade(TimeSpan::from_secs(10)));
    assert_eq!(processor.process(&mut memory, "Learned_pattern"), ForgetCurve::Fade(TimeSpan::from_secs(10)));
    assert_eq!(f(memory.frequency), 440.0);
    assert_eq!(memory.decay_tau, Some(TimeSpan::from_secs(5)));
}

#[test]
fn blanket_defaults_and_change_weights() {
    let blanket = TemporalBlanket::new();
    assert_eq!(f(blanket.alpha), 1.0);
    assert_eq!(f(blanket.lambda), 0.1);
    assert_eq!(f(blanket.beta_calib), 0.0);
    assert!(blanket.hard_blankets.is_empty());
    assert!(blanket.soft_blankets.is_empty());
    assert_eq!(f(TemporalBlanket::change_weight("lighting")), 0.4);
    assert_eq!(f(TemporalBlanket::change_weight("motion")), 0.3);
    assert_eq!(f(TemporalBlanket::change_weight("noise")), 0.2);
    assert_eq!(f(TemporalBlanket::change_weight("smell")), 0.1);
}

#[test]
fn blanket_value_and_adaptation() {
    let mut blanket = TemporalBlanket::new();
    assert_eq!(f(blanket.calculate(s(0.0), s(1.0), &ieee)), 1.0);
    assert_eq!(f(blanket.calculate(s(2.0), s(3.0), &ieee)), 1.0 * (-0.1f32 * 3.0 * 2.0).exp() + 0.0);
    let changes = vec![
        ("lighting".to_string(), s(1.0)),
        ("noise".to_string(), s(0.5)),
        ("smell".to_string(), s(2.0)),
    ];
    blanket.adapt_to_environment(&changes, &ieee);
    let mut delta: f32 = 0.0;
    delta += 0.4 * 1.0;
    delta += 0.2 * 0.5;
    delta += 0.1 * 2.0;
    assert_eq!(f(blanket.beta_calib), 0.0 * 0.9 + delta * 0.1);
    assert!((f(blanket.beta_calib) - 0.07).abs() < 1e-6);
    blanket.adapt_to_environment(&Vec::new(), &ieee);
    assert!((f(blanket.beta_calib) - 0.063).abs() < 1e-6);
    assert_eq!(f(blanket.alpha), 1.0);
    assert_eq!(f(blanket.lambda), 0.1);
}

#[test]
fn regions_compare_by_content() {
    assert!(MemoryRegion::Visual(1, 2).same_as(&MemoryRegion::Visual(1, 2)));
    assert!(!MemoryRegion::Visual(1, 2).same_as(&MemoryRegion::Visual(2, 1)));
    assert!(!MemoryRegion::Auditory(7).same_as(&MemoryRegion::Temporal(7)));
    assert!(MemoryRegion::Temporal(7).same_as(&MemoryRegion::Temporal(7)));
    assert!(semantic("technical").same_as(&semantic("technical")));
    assert!(!semantic("technical").same_as(&semantic("abstract")));
    assert!(!semantic("technical").same_as(&MemoryRegion::Emotional("technical".to_string())));
    assert!(semantic("technical").duplicate().same_as(&semantic("technical")));
    assert!(MemoryRegion::Visual(9, 8).duplicate().same_as(&MemoryRegion::Visual(9, 8)));
}

#[test]
fn weights_hold_one_entry_per_region() {
    let mut weights = AttentionWeights::new();
    assert_eq!(weights.len(), 0);
    assert_eq!(weights.mean_denominator(), 1);
    weights.insert(MemoryRegion::Visual(128, 128), s(0.8));
    weights.insert(MemoryRegion::Temporal(1000), s(0.6));
    weights.insert(MemoryRegion::Visual(128, 128), s(0.4));
    assert_eq!(weights.len(), 2);
    assert_eq!(weights.mean_denominator(), 2);
    assert_eq!(weights.get(&MemoryRegion::Visual(128, 128)).map(f), Some(0.4));
    assert_eq!(weights.get(&MemoryRegion::Temporal(1000)).map(f), Some(0.6));
    assert_eq!(weights.get(&MemoryRegion::Temporal(1001)).map(f), None);
    assert_eq!(weights.find(&MemoryRegion::Temporal(1000)), Some(1));
    assert!(weights.region(0).same_as(&MemoryRegion::Visual(128, 128)));
    assert_eq!(f(weights.weight(1)), 0.6);
}

#[test]
fn entry_starts_at_zero() {
    let mut weights = AttentionWeights::new();
    let place = weights.entry(semantic("technical"));
    assert_eq!(place, 0);
    assert_eq!(f(weights.weight(place)), 0.0);
    weights.set_weight(place, s(0.1));
    let again = weights.entry(semantic("technical"));
    assert_eq!(again, 0);
    assert_eq!(f(weights.weight(again)), 0.1);
    let other = weights.entry(semantic("abstract"));
    assert_eq!(other, 1);
    assert_eq!(weights.len(), 2);
}

#[test]
fn weights_decay_boost_and_normalize() {
    let mut weights = AttentionWeights::new();
    weights.insert(MemoryRegion::Visual(1, 1), s(0.8));
    weights.insert(semantic("technical"), s(0.2));
    assert_eq!(f(weights.total(&ieee)), 0.0 + 0.8 + 0.2);
    weights.decay(&ieee);
    assert_eq!(weights_of(&weights), vec![0.8f32 * 0.95, 0.2f32 * 0.95]);
    weights.boost(semantic("technical"), &ieee);
    weights.boost(semantic("abstract"), &ieee);
    weights.boost(semantic("abstract"), &ieee);
    assert_eq!(weights.len(), 3);
    assert_eq!(weights_of(&weights), vec![0.8f32 * 0.95, 0.2f32 * 0.95 + 0.1, 0.0f32 + 0.1 + 0.1]);
    let before = weights_of(&weights);
    let whole = 0.0 + before[0] + before[1] + before[2];
    weights.normalize(&ieee);
    assert_eq!(weights_of(&weights), vec![before[0] / whole, before[1] / whole, before[2] / whole]);
    assert!((f(weights.total(&ieee)) - 1.0).abs() < 1e-6);
}

#[test]
fn weights_of_sum_zero_stay_as_they_are() {
    let mut empty = AttentionWeights::new();
    empty.normalize(&ieee);
    assert_eq!(empty.len(), 0);
    let mut zeros = AttentionWeights::new();
    zeros.insert(MemoryRegion::Auditory(1), s(0.0));
    zeros.insert(MemoryRegion::Auditory(2), s(0.0));
    zeros.normalize(&ieee);
    assert_eq!(weights_of(&zeros), vec![0.0, 0.0]);
    let mut negative = AttentionWeights::new();
    negative.insert(MemoryRegion::Auditory(1), s(-0.5));
    negative.insert(MemoryRegion::Auditory(2), s(0.25));
    negative.normalize(&ieee);
    assert_eq!(weights_of(&negative), vec![-0.5, 0.25]);
    assert!(!AttentionWeights::normalizable(s(0.0)));
    assert!(!AttentionWeights::normalizable(s(f32::NAN)));
    assert!(AttentionWeights::normalizable(s(1.0e-30)));
}

#[test]
fn bands_map_to_semantic_regions() {
    assert!(region_of_band(FrequencyBand::DeepStructural).same_as(&semantic("structural")));
    assert!(region_of_band(FrequencyBand::Conversational).same_as(&semantic("conversational")));
    assert!(region_of_band(FrequencyBand::Technical).same_as(&semantic("technical")));
    assert!(region_of_band(FrequencyBand::Implementation).same_as(&semantic("implementation")));
    assert!(region_of_band(FrequencyBand::Abstract).same_as(&semantic("abstract")));
    assert!(region_of_band(FrequencyBand::Beta).same_as(&semantic("beta_awareness")));
    assert!(region_of_band(FrequencyBand::Gamma).same_as(&semantic("gamma_consciousness")));
}

#[test]
fn new_state_is_half_aware() {
    let state = ConsciousnessState::new(TimeSpan::from_secs(1));
    assert_eq!(f(state.awareness_level), 0.5);
    assert_eq!(state.attention_weights.len(), 0);
    assert!(state.active_memories.is_empty());
    assert!(state.reflexive_responses.is_empty());
    assert_eq!(state.last_update, TimeSpan::from_secs(1));
}

#[test]
fn awareness_is_the_mean_of_activity_and_focus() {
    let mut state = ConsciousnessState::new(TimeSpan::from_secs(1));
    assert_eq!(f(state.awareness_level), 0.5);

    state.attention_weights.insert(MemoryRegion::Visual(128, 128), s(0.8));
    state.attention_weights.insert(MemoryRegion::Temporal(1000), s(0.6));

    let wave = Arc::new(MemoryWave::new(s(440.0), s(0.8), TimeSpan::from_secs(1)));
    state.update(vec![wave], vec![], TimeSpan::from_secs(2), &ieee);

    // Activity 1 / 100, focus (0.8 + 0.6) / 2.
    let expected = ((1.0f32 / 100.0).min(1.0) + (0.0 + 0.8f32 + 0.6) / 2.0) / 2.0;
    assert_eq!(f(state.awareness_level), expected);
    assert!((f(state.awareness_level) - 0.355).abs() < 1e-6);
    assert_eq!(state.active_memories.len(), 1);
    assert_eq!(state.last_update, TimeSpan::from_secs(2));
    assert_eq!(state.attention_weights.len(), 2);
}

#[test]
fn awareness_without_anything_is_zero() {
    let mut state = ConsciousnessState::new(TimeSpan::from_secs(1));
    state.update(Vec::new(), Vec::new(), TimeSpan::from_secs(2), &ieee);
    assert_eq!(f(state.awareness_level), 0.0);
    assert_eq!(f(state.calculate_awareness(&ieee)), 0.0);
}

#[test]
fn activity_saturates_at_a_hundred_waves() {
    let mut state = ConsciousnessState::new(TimeSpan::from_secs(1));
    let memories: Vec<Arc<MemoryWave>> = (0..250).map(|_| Arc::new(wave(440.0, 0.8))).collect();
    state.update(memories, Vec::new(), TimeSpan::from_secs(2), &ieee);
    assert_eq!(f(state.awareness_level), 0.5);
}

#[test]
fn sampling_follows_attention() {
    let mut grid = WaveGrid::new();
    grid.store(8, 9, 0, wave(100.0, 0.8));
    grid.store(8, 9, 99, wave(200.0, 0.8));
    grid.store(8, 9, 100, wave(300.0, 0.8));
    grid.store(16, 32, 7, wave(400.0, 0.8));
    grid.store(17, 32, 7, wave(500.0, 0.8));
    grid.store(0, 0, 7, wave(600.0, 0.8));
    let engine = ConsciousnessEngine::new(&ieee);

    let mut weights = AttentionWeights::new();
    weights.insert(MemoryRegion::Visual(8, 9), s(0.8));
    weights.insert(MemoryRegion::Temporal(7), s(0.6));
    weights.insert(semantic("technical"), s(0.9));
    weights.insert(MemoryRegion::Auditory(3), s(0.9));
    let sampled = engine.sample_attended(&grid, &weights);
    let frequencies: Vec<f32> = sampled.iter().map(|w| f(w.frequency)).collect();
    // The column gives its two waves below layer 100. The sweep of layer 7
    // steps over 0, 16, .. 240 along both axes; on a grid 64 cells wide
    // these wrap, so each of the two cells on the sweep is met 16 times.
    let mut expected: Vec<f32> = vec![100.0, 200.0];
    for x in 0..16u32 {
        for y in 0..16u32 {
            match ((x * 16) % 64, (y * 16) % 64) {
                (0, 0) => expected.push(600.0),
                (16, 32) => expected.push(400.0),
                _ => {}
            }
        }
    }
    assert_eq!(expected.len(), 34);
    assert_eq!(frequencies, expected);

    let mut low = AttentionWeights::new();
    low.insert(MemoryRegion::Visual(8, 9), s(0.3));
    low.insert(MemoryRegion::Temporal(7), s(0.29));
    assert!(engine.sample_attended(&grid, &low).is_empty());
}

#[test]
fn retained_waves_need_more_than_a_tenth() {
    let engine = ConsciousnessEngine::new(&ieee);
    let sampled: Vec<Arc<MemoryWave>> = vec![
        Arc::new(wave(100.0, 0.8)),
        Arc::new(wave(200.0, 0.8)),
        Arc::new(wave(300.0, 0.8)),
        Arc::new(wave(400.0, 0.8)),
    ];
    let decays = vec![s(0.5), s(0.1), s(0.10001), s(f32::NAN)];
    let active = engine.retain_active(&sampled, &decays);
    let frequencies: Vec<f32> = active.iter().map(|w| f(w.frequency)).collect();
    assert_eq!(frequencies, vec![100.0, 300.0]);
    assert!(Arc::ptr_eq(&active[0], &sampled[0]));
    assert!(Arc::ptr_eq(&active[1], &sampled[2]));
    assert!(engine.retain_active(&Vec::new(), &Vec::new()).is_empty());
}

#[test]
fn active_memories_are_sampled_and_not_faded() {
    let mut grid = WaveGrid::new();
    let created = TimeSpan::from_secs(50);
    grid.store(8, 9, 0, MemoryWave::new(s(100.0), s(0.8), created));
    let mut brief = MemoryWave::new(s(200.0), s(0.8), created);
    brief.decay_tau = Some(TimeSpan::from_millis(500));
    grid.store(8, 9, 1, brief);
    let mut permanent = MemoryWave::new(s(300.0), s(0.8), created);
    permanent.decay_tau = None;
    grid.store(8, 9, 2, permanent);
    grid.store(9, 9, 2, MemoryWave::new(s(400.0), s(0.8), created));
    let engine = ConsciousnessEngine::new(&ieee);
    let mut weights = AttentionWeights::new();
    weights.insert(MemoryRegion::Visual(8, 9), s(0.8));

    let frequencies = |now: TimeSpan| -> Vec<f32> {
        engine
            .collect_active_memories(&grid, &weights, now, &ieee)
            .iter()
            .map(|w| f(w.frequency))
            .collect()
    };
    assert_eq!(frequencies(created), vec![100.0, 200.0, 300.0]);
    // exp(-2 / 0.5) is below a tenth, exp(-2 / 5) is not.
    assert_eq!(frequencies(TimeSpan::from_secs(52)), vec![100.0, 300.0]);
    // exp(-12 / 5) is below a tenth.
    assert_eq!(frequencies(TimeSpan::from_secs(62)), vec![300.0]);
    let held = grid.get(8, 9, 2).expect("stored");
    let active = engine.collect_active_memories(&grid, &weights, created, &ieee);
    assert!(Arc::ptr_eq(held, &active[2]));
}

#[test]
fn attention_follows_active_waves() {
    let engine = ConsciousnessEngine::new(&ieee);
    let mut weights = AttentionWeights::new();
    weights.insert(MemoryRegion::Visual(1, 1), s(0.8));
    weights.insert(semantic("technical"), s(0.4));
    let memories: Vec<Arc<MemoryWave>> = vec![
        Arc::new(wave(440.0, 0.8)),
        Arc::new(wave(50.0, 0.8)),
        Arc::new(wave(950.0, 0.8)),
        Arc::new(wave(441.0, 0.8)),
    ];
    engine.update_attention_weights(&mut weights, &memories, &ieee);
    assert_eq!(weights.len(), 4);
    assert!(weights.region(0).same_as(&MemoryRegion::Visual(1, 1)));
    assert!(weights.region(1).same_as(&semantic("technical")));
    assert!(weights.region(2).same_as(&semantic("structural")));
    assert!(weights.region(3).same_as(&semantic("abstract")));
    let raised = vec![0.8f32 * 0.95, 0.4f32 * 0.95 + 0.1 + 0.1, 0.0f32 + 0.1, 0.0f32 + 0.1];
    let whole = 0.0 + raised[0] + raised[1] + raised[2] + raised[3];
    let expected: Vec<f32> = raised.iter().map(|w| w / whole).collect();
    assert_eq!(weights_of(&weights), expected);
    assert!((weights_of(&weights).iter().sum::<f32>() - 1.0).abs() < 1e-6);
}

#[test]
fn update_without_active_signals_only_decays_weights() {
    let grid = WaveGrid::new();
    let engine = ConsciousnessEngine::new(&ieee);
    let mut state = ConsciousnessState::new(TimeSpan::from_nanos(0));
    state.attention_weights.insert(MemoryRegion::Visual(1, 1), s(0.8));
    state.attention_weights.insert(MemoryRegion::Temporal(2), s(0.2));

    engine.update(&grid, &mut state, TimeSpan::from_secs(1), &ieee, &describe);

    assert!(state.active_memories.is_empty());
    assert!(state.reflexive_responses.is_empty());
    assert_eq!(state.attention_weights.len(), 2);
    assert!(state.attention_weights.region(0).same_as(&MemoryRegion::Visual(1, 1)));
    assert!(state.attention_weights.region(1).same_as(&MemoryRegion::Temporal(2)));
    // Only the decay, then the division by the sum; no boost.
    let decayed = vec![0.8f32 * 0.95, 0.2f32 * 0.95];
    let whole = 0.0 + decayed[0] + decayed[1];
    assert_eq!(weights_of(&state.attention_weights), vec![decayed[0] / whole, decayed[1] / whole]);
    // The weights keep their proportion of four to one.
    assert!((weights_of(&state.attention_weights)[0] - 0.8).abs() < 1e-6);
    assert!((weights_of(&state.attention_weights)[1] - 0.2).abs() < 1e-6);
    // No activity; the mean weight is a half.
    let focus = (0.0 + decayed[0] / whole + decayed[1] / whole) / 2.0;
    assert_eq!(f(state.awareness_level), ((0.0f32 / 100.0).min(1.0) + focus) / 2.0);
    assert!((f(state.awareness_level) - 0.25).abs() < 1e-6);
    assert_eq!(f(state.calculate_awareness(&ieee)), f(state.awareness_level));
    assert_eq!(state.last_update, TimeSpan::from_secs(1));
}

#[test]
fn update_without_weights_does_nothing() {
    let mut grid = WaveGrid::new();
    grid.store(1, 1, 1, wave(440.0, 0.9));
    let engine = ConsciousnessEngine::new(&ieee);
    let mut state = ConsciousnessState::new(TimeSpan::from_nanos(0));
    engine.update(&grid, &mut state, TimeSpan::from_secs(1), &ieee, &describe);
    assert!(state.active_memories.is_empty());
    assert_eq!(state.attention_weights.len(), 0);
    assert_eq!(f(state.awareness_level), 0.0);
}

#[test]
fn full_cycle() {
    let mut grid = WaveGrid::new();
    let created = TimeSpan::from_secs(10);
    let mut alert = MemoryWave::new(s(440.0), s(0.9), created);
    alert.arousal = s(0.9);
    grid.store(5, 5, 3, alert);
    let mut threat = MemoryWave::new(s(120.0), s(0.9), created);
    threat.valence = s(-0.8);
    grid.store(5, 5, 4, threat);
    let mut faded = MemoryWave::new(s(700.0), s(0.9), created);
    faded.decay_tau = Some(TimeSpan::from_millis(100));
    grid.store(5, 5, 5, faded);
    grid.store(6, 5, 3, MemoryWave::new(s(900.0), s(0.9), created));

    let engine = ConsciousnessEngine::new(&ieee);
    let mut state = ConsciousnessState::new(created);
    state.attention_weights.insert(MemoryRegion::Visual(5, 5), s(0.9));
    state.attention_weights.insert(MemoryRegion::Visual(6, 5), s(0.31));
    engine.update(&grid, &mut state, TimeSpan::from_secs(11), &ieee, &describe);

    // The second region decays to 0.2945 before the sampling and is left out.
    let active: Vec<f32> = state.active_memories.iter().map(|w| f(w.frequency)).collect();
    assert_eq!(active, vec![440.0, 120.0]);
    let responses: Vec<(String, String, f32)> = state
        .reflexive_responses
        .iter()
        .map(|r| (r.trigger.clone(), r.response.clone(), f(r.strength)))
        .collect();
    assert_eq!(
        responses,
        vec![
            ("High arousal memory (440Hz)".to_string(), "Heightened attention".to_string(), 0.9),
            (
                "Negative high-amplitude memory".to_string(),
                "Defensive stance".to_string(),
                0.9f32 * 0.8
            ),
        ]
    );
    assert_eq!(state.attention_weights.len(), 4);
    assert!(state.attention_weights.region(2).same_as(&semantic("technical")));
    assert!(state.attention_weights.region(3).same_as(&semantic("structural")));
    let raised = vec![0.9f32 * 0.95, 0.31f32 * 0.95, 0.0f32 + 0.1, 0.0f32 + 0.1];
    let whole = 0.0 + raised[0] + raised[1] + raised[2] + raised[3];
    let expected: Vec<f32> = raised.iter().map(|w| w / whole).collect();
    assert_eq!(weights_of(&state.attention_weights), expected);
    let total = 0.0 + expected[0] + expected[1] + expected[2] + expected[3];
    assert_eq!(f(state.awareness_level), ((2.0f32 / 100.0).min(1.0) + total / 4.0) / 2.0);
    assert_eq!(state.last_update, TimeSpan::from_secs(11));
}

#[test]
fn reflexes_for_arousal_and_threat() {
    let engine = ConsciousnessEngine::new(&ieee);
    let mut calm = wave(440.0, 0.9);
    calm.arousal = s(0.7);
    calm.valence = s(-0.5);
    let mut alert = wave(220.0, 0.5);
    alert.arousal = s(0.9);
    let mut threat = wave(330.0, 0.9);
    threat.valence = s(-0.8);
    let mut both = wave(110.0, 1.0);
    both.arousal = s(0.75);
    both.valence = s(-1.0);
    let mut weak_threat = wave(550.0, 0.8);
    weak_threat.valence = s(-0.9);
    let memories: Vec<Arc<MemoryWave>> =
        vec![Arc::new(calm), Arc::new(alert), Arc::new(threat), Arc::new(both), Arc::new(weak_threat)];
    let responses = engine.generate_reflexive_responses(&memories, &ieee, &describe);
    let seen: Vec<(String, String, f32)> = responses
        .iter()
        .map(|r| (r.trigger.clone(), r.response.clone(), f(r.strength)))
        .collect();
    assert_eq!(
        seen,
        vec![
            ("High arousal memory (220Hz)".to_string(), "Heightened attention".to_string(), 0.9),
            (
                "Negative high-amplitude memory".to_string(),
                "Defensive stance".to_string(),
                0.9f32 * 0.8
            ),
            ("High arousal memory (110Hz)".to_string(), "Heightened attention".to_string(), 0.75),
            ("Negative high-amplitude memory".to_string(), "Defensive stance".to_string(), 1.0),
        ]
    );
    assert!(engine.generate_reflexive_responses(&Vec::new(), &ieee, &describe).is_empty());
}

#[test]
fn responses_from_given_labels_and_strengths() {
    let engine = ConsciousnessEngine::new(&ieee);
    let mut alert = wave(220.0, 0.9);
    alert.arousal = s(0.9);
    alert.valence = s(-0.9);
    let memories: Vec<Arc<MemoryWave>> = vec![Arc::new(alert)];
    let responses =
        engine.reflexive_responses_from(&memories, &vec!["two-twenty ".to_string()], &vec![s(0.25)]);
    assert_eq!(responses.len(), 2);
    assert_eq!(responses[0].trigger, "High arousal memory (two-twenty Hz)");
    assert_eq!(f(responses[0].strength), 0.9);
    assert_eq!(responses[1].response, "Defensive stance");
    assert_eq!(f(responses[1].strength), 0.25);
}
