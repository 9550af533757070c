use mem8::arithmetic::Binary;
use mem8::arithmetic::Operation;
use mem8::arithmetic::Unary;
use mem8::scalar::Scalar;
use mem8::timespan::TimeSpan;
use mem8::wave::FrequencyBand;
use mem8::wave::MemoryWave;
use mem8::wave::WaveGrid;
use std::sync::Arc;
use std::time::Duration;

fn s(x: f32) -> Scalar {
    Scalar::from_bits(x.to_bits())
}

fn f(x: Scalar) -> f32 {
    f32::from_bits(x.to_bits())
}

fn duration(span: TimeSpan) -> Duration {
    let nanos = span.as_nanos();
    Duration::new((nanos / 1_000_000_000) as u64, (nanos % 1_000_000_000) as u32)
}

fn ieee(operation: Operation) -> Scalar {
    match operation {
        Operation::Binary(Binary::Sum, a, b) => s(f(a) + f(b)),
        Operation::Binary(Binary::Difference, a, b) => s(f(a) - f(b)),
        Operation::Binary(Binary::Product, a, b) => s(f(a) * f(b)),
        Operation::Binary(Binary::Quotient, a, b) => s(f(a) / f(b)),
        Operation::Binary(Binary::Remainder, a, b) => s(f(a) % f(b)),
        Operation::Unary(Unary::Exp, x) => s(f(x).exp()),
        Operation::Unary(Unary::Sine, x) => s(f(x).sin()),
        Operation::Unary(Unary::Log2, x) => s(f(x).log2()),
        Operation::Unary(Unary::SquareRoot, x) => s(f(x).sqrt()),
        Operation::Integer(n) => s(n as f32),
        Operation::Seconds(span) => s(duration(span).as_secs_f32()),
    }
}

fn span_of(seconds: Scalar) -> TimeSpan {
    TimeSpan::from_nanos(Duration::from_secs_f32(f(seconds)).as_nanos())
}

fn wave(frequency: f32, amplitude: f32) -> MemoryWave {
    MemoryWave::new(s(frequency), s(amplitude), TimeSpan::from_nanos(0))
}

#[test]
fn timespan_conversions() {
    assert_eq!(TimeSpan::from_millis(500).as_nanos(), 500_000_000);
    assert_eq!(TimeSpan::from_secs(5).as_nanos(), 5_000_000_000);
    assert_eq!(TimeSpan::from_secs(u64::MAX).as_nanos(), u64::MAX as u128 * 1_000_000_000);
    assert_eq!(TimeSpan::from_millis(u64::MAX).as_nanos(), u64::MAX as u128 * 1_000_000);
    assert_eq!(TimeSpan::from_nanos(7).as_nanos(), 7);
    assert_eq!(TimeSpan::from_secs(1), TimeSpan::from_millis(1000));
}

#[test]
fn timespan_since_saturates() {
    let early = TimeSpan::from_secs(3);
    let late = TimeSpan::from_secs(10);
    assert_eq!(late.saturating_since(early), TimeSpan::from_secs(7));
    assert_eq!(early.saturating_since(late), TimeSpan::from_nanos(0));
    assert_eq!(early.saturating_since(early), TimeSpan::from_nanos(0));
}

#[test]
fn band_ranges() {
    let expected: Vec<(FrequencyBand, f32, f32)> = vec![
        (FrequencyBand::DeepStructural, 0.0, 200.0),
        (FrequencyBand::Conversational, 200.0, 400.0),
        (FrequencyBand::Technical, 400.0, 600.0),
        (FrequencyBand::Implementation, 600.0, 800.0),
        (FrequencyBand::Abstract, 800.0, 1000.0),
        (FrequencyBand::Beta, 13.0, 30.0),
        (FrequencyBand::Gamma, 30.0, 100.0),
    ];
    for (band, low, high) in expected {
        let (got_low, got_high) = band.range();
        assert_eq!(f(got_low), low);
        assert_eq!(f(got_high), high);
    }
}

#[test]
fn band_centers_are_midpoints() {
    let bands = vec![
        FrequencyBand::DeepStructural,
        FrequencyBand::Conversational,
        FrequencyBand::Technical,
        FrequencyBand::Implementation,
        FrequencyBand::Abstract,
        FrequencyBand::Beta,
        FrequencyBand::Gamma,
    ];
    for band in bands {
        let (low, high) = band.range();
        assert_eq!(f(band.center_frequency()), (f(low) + f(high)) / 2.0);
    }
    assert_eq!(f(FrequencyBand::Technical.center_frequency()), 500.0);
    assert_eq!(f(FrequencyBand::Beta.center_frequency()), 21.5);
    assert_eq!(f(FrequencyBand::Gamma.center_frequency()), 65.0);
}

#[test]
fn band_from_frequency() {
    assert_eq!(FrequencyBand::from_frequency(s(0.0)), FrequencyBand::DeepStructural);
    assert_eq!(FrequencyBand::from_frequency(s(-10.0)), FrequencyBand::DeepStructural);
    assert_eq!(FrequencyBand::from_frequency(s(199.99)), FrequencyBand::DeepStructural);
    assert_eq!(FrequencyBand::from_frequency(s(200.0)), FrequencyBand::Conversational);
    assert_eq!(FrequencyBand::from_frequency(s(399.9)), FrequencyBand::Conversational);
    assert_eq!(FrequencyBand::from_frequency(s(400.0)), FrequencyBand::Technical);
    assert_eq!(FrequencyBand::from_frequency(s(440.0)), FrequencyBand::Technical);
    assert_eq!(FrequencyBand::from_frequency(s(600.0)), FrequencyBand::Implementation);
    assert_eq!(FrequencyBand::from_frequency(s(800.0)), FrequencyBand::Abstract);
    assert_eq!(FrequencyBand::from_frequency(s(1000.0)), FrequencyBand::Abstract);
    assert_eq!(FrequencyBand::from_frequency(s(f32::INFINITY)), FrequencyBand::Abstract);
    assert_eq!(FrequencyBand::from_frequency(s(f32::NAN)), FrequencyBand::Abstract);
}

#[test]
fn new_wave_has_defaults() {
    let w = MemoryWave::new(s(440.0), s(0.8), TimeSpan::from_secs(12));
    assert_eq!(f(w.amplitude), 0.8);
    assert_eq!(f(w.frequency), 440.0);
    assert_eq!(f(w.phase), 0.0);
    assert_eq!(f(w.valence), 0.0);
    assert_eq!(f(w.arousal), 0.0);
    assert_eq!(w.created_at, TimeSpan::from_secs(12));
    assert_eq!(w.decay_tau, Some(TimeSpan::from_secs(5)));
}

#[test]
fn new_wave_clamps_frequency() {
    assert_eq!(f(wave(1500.0, 1.0).frequency), 1000.0);
    assert_eq!(f(wave(-3.0, 1.0).frequency), 0.0);
    assert_eq!(f(wave(1000.0, 1.0).frequency), 1000.0);
    assert_eq!(f(wave(f32::INFINITY, 1.0).frequency), 1000.0);
    assert!(f(wave(f32::NAN, 1.0).frequency).is_nan());
}

#[test]
fn new_with_band_takes_center_and_rate() {
    let now = TimeSpan::from_secs(1);
    let decaying =
        MemoryWave::new_with_band(FrequencyBand::Technical, s(0.9), s(1.5), s(0.5), now, &ieee, &span_of);
    assert_eq!(f(decaying.frequency), 500.0);
    assert_eq!(f(decaying.amplitude), 0.9);
    assert_eq!(f(decaying.phase), 1.5);
    assert_eq!(f(decaying.valence), 0.0);
    assert_eq!(f(decaying.arousal), 0.0);
    assert_eq!(decaying.created_at, now);
    assert_eq!(decaying.decay_tau, Some(TimeSpan::from_secs(2)));
    let quick =
        MemoryWave::new_with_band(FrequencyBand::Technical, s(0.9), s(0.0), s(4.0), now, &ieee, &span_of);
    assert_eq!(quick.decay_tau, Some(TimeSpan::from_millis(250)));
    let permanent =
        MemoryWave::new_with_band(FrequencyBand::Beta, s(0.9), s(0.0), s(0.0), now, &ieee, &span_of);
    assert_eq!(f(permanent.frequency), 21.5);
    assert_eq!(permanent.decay_tau, None);
    let negative =
        MemoryWave::new_with_band(FrequencyBand::Gamma, s(0.9), s(0.0), s(-1.0), now, &ieee, &span_of);
    assert_eq!(negative.decay_tau, None);
    let nan =
        MemoryWave::new_with_band(FrequencyBand::Gamma, s(0.9), s(0.0), s(f32::NAN), now, &ieee, &span_of);
    assert_eq!(nan.decay_tau, None);
}

#[test]
fn band_frequency_by_position() {
    assert_eq!(f(FrequencyBand::Conversational.frequency(s(0.0), &ieee)), 200.0);
    assert_eq!(f(FrequencyBand::Conversational.frequency(s(1.0), &ieee)), 400.0);
    assert_eq!(f(FrequencyBand::Conversational.frequency(s(0.25), &ieee)), 250.0);
    assert_eq!(f(FrequencyBand::Conversational.frequency(s(7.0), &ieee)), 400.0);
    assert_eq!(f(FrequencyBand::Conversational.frequency(s(-7.0), &ieee)), 200.0);
    assert_eq!(f(FrequencyBand::Beta.frequency(s(0.5), &ieee)), 21.5);
}

#[test]
fn decay_is_one_at_creation() {
    for tau_millis in [0u64, 1, 500, 5_000, 300_000] {
        let mut w = MemoryWave::new(s(440.0), s(0.8), TimeSpan::from_secs(77));
        w.decay_tau = Some(TimeSpan::from_millis(tau_millis));
        assert_eq!(f(w.calculate_decay(TimeSpan::from_secs(77), &ieee)), 1.0);
    }
    let mut permanent = wave(440.0, 0.8);
    permanent.decay_tau = None;
    assert_eq!(f(permanent.calculate_decay(TimeSpan::from_secs(1_000_000), &ieee)), 1.0);
}

#[test]
fn decay_follows_the_exponential() {
    let w = MemoryWave::new(s(440.0), s(0.8), TimeSpan::from_secs(10));
    let after_tau = f(w.calculate_decay(TimeSpan::from_secs(15), &ieee));
    assert_eq!(after_tau, (-1.0f32).exp());
    let after_two = f(w.calculate_decay(TimeSpan::from_secs(20), &ieee));
    assert!((after_two - 0.135_335_28).abs() < 1e-6);
    let before = f(w.calculate_decay(TimeSpan::from_secs(3), &ieee));
    assert_eq!(before, 1.0);
}

#[test]
fn modulation_formula() {
    let mut w = wave(440.0, 0.8);
    assert_eq!(f(w.calculate_emotional_modulation(&ieee)), 1.0);
    w.valence = s(1.0);
    w.arousal = s(1.0);
    assert!((f(w.calculate_emotional_modulation(&ieee)) - 1.95).abs() < 1e-6);
    w.valence = s(-1.0);
    w.arousal = s(0.0);
    assert!((f(w.calculate_emotional_modulation(&ieee)) - 0.7).abs() < 1e-6);
    w.valence = s(0.5);
    w.arousal = s(0.4);
    assert_eq!(
        f(w.calculate_emotional_modulation(&ieee)),
        (1.0 + 0.3f32 * 0.5) * (1.0 + 0.5f32 * 0.4)
    );
}

#[test]
fn value_follows_the_formula() {
    let mut w = wave(0.25, 0.8);
    w.decay_tau = None;
    let now = TimeSpan::from_secs(3);
    // sin(2 pi * 0.25 * 1) = 1
    assert!((f(w.calculate(s(1.0), now, &ieee)) - 0.8).abs() < 1e-6);
    w.phase = s(std::f32::consts::PI);
    assert!((f(w.calculate(s(1.0), now, &ieee)) + 0.8).abs() < 1e-6);
    let mut v = MemoryWave::new(s(440.0), s(0.6), TimeSpan::from_secs(1));
    v.phase = s(0.3);
    v.valence = s(-0.4);
    v.arousal = s(0.9);
    let t: f32 = 0.37;
    let decay = (-(2.0f32) / 5.0).exp();
    let modulation = (1.0 + 0.3f32 * -0.4) * (1.0 + 0.5f32 * 0.9);
    let expected = 0.6f32 * decay * modulation * (2.0 * std::f32::consts::PI * 440.0 * t + 0.3).sin();
    assert_eq!(f(v.calculate(s(t), TimeSpan::from_secs(3), &ieee)), expected);
}

#[test]
fn value_is_bounded_by_amplitude_times_modulation() {
    let mut state: u32 = 12345;
    let mut next = move || {
        state = state.wrapping_mul(1664525).wrapping_add(1013904223);
        (state >> 8) as f32 / (1u32 << 24) as f32
    };
    for _ in 0..300 {
        let mut w = MemoryWave::new(s(next() * 1000.0), s(next()), TimeSpan::from_secs(0));
        w.phase = s(next() * 6.0);
        w.valence = s(next() * 2.0 - 1.0);
        w.arousal = s(next());
        let now = TimeSpan::from_millis((next() * 20_000.0) as u64);
        let bound = f(w.amplitude) * f(w.calculate_emotional_modulation(&ieee));
        let value = f(w.calculate(s(next() * 10.0), now, &ieee));
        assert!(value.abs() <= bound + 1e-6);
    }
}

#[test]
fn elapsed_counts_from_creation() {
    let w = MemoryWave::new(s(1.0), s(1.0), TimeSpan::from_secs(10));
    assert_eq!(w.elapsed(TimeSpan::from_secs(10)), TimeSpan::from_nanos(0));
    assert_eq!(w.elapsed(TimeSpan::from_secs(13)), TimeSpan::from_secs(3));
    assert_eq!(w.elapsed(TimeSpan::from_secs(2)), TimeSpan::from_nanos(0));
}

#[test]
fn context_factors_are_clamped() {
    let (r, fam, t) = MemoryWave::context_factors(s(3.0), s(0.1), s(0.5));
    assert_eq!(f(r), 2.0);
    assert_eq!(f(fam), 0.8);
    assert_eq!(f(t), 0.5);
    let (r, fam, t) = MemoryWave::context_factors(s(0.1), s(9.0), s(0.0));
    assert_eq!(f(r), 0.5);
    assert_eq!(f(fam), 1.5);
    assert_eq!(f(t), 0.3);
    let (r, fam, t) = MemoryWave::context_factors(s(1.0), s(1.0), s(7.0));
    assert_eq!(f(r), 1.0);
    assert_eq!(f(fam), 1.0);
    assert_eq!(f(t), 1.0);
}

#[test]
fn context_decay_scales_the_time_constant() {
    let mut decaying = wave(440.0, 0.8);
    decaying.apply_context_decay(s(2.0), s(1.5), s(1.0), &ieee, &span_of);
    assert_eq!(decaying.decay_tau, Some(TimeSpan::from_secs(15)));
    assert_eq!(f(decaying.frequency), 440.0);
    assert_eq!(f(decaying.amplitude), 0.8);

    let mut limited = wave(440.0, 0.8);
    limited.apply_context_decay(s(100.0), s(100.0), s(100.0), &ieee, &span_of);
    assert_eq!(limited.decay_tau, Some(TimeSpan::from_secs(15)));

    let mut shrunk = wave(440.0, 0.8);
    shrunk.apply_context_decay(s(0.0), s(1.0), s(1.0), &ieee, &span_of);
    assert_eq!(shrunk.decay_tau, Some(TimeSpan::from_millis(2500)));
}

#[test]
fn context_decay_skips_permanent_waves() {
    let mut permanent = MemoryWave::new_with_band(
        FrequencyBand::Abstract,
        s(0.8),
        s(0.0),
        s(0.0),
        TimeSpan::from_nanos(0),
        &ieee,
        &span_of,
    );
    permanent.apply_context_decay(s(2.0), s(1.5), s(1.0), &ieee, &span_of);
    assert_eq!(permanent.decay_tau, None);
}

#[test]
fn new_grid_is_empty() {
    let grid = WaveGrid::new();
    assert_eq!(grid.width(), 64);
    assert_eq!(grid.height(), 64);
    assert_eq!(grid.depth(), 256);
    assert_eq!(f(grid.noise_floor()), 0.1);
    assert!(grid.get(0, 0, 0).is_none());
    assert!(grid.get(63, 63, 255).is_none());
    assert!(grid.get(255, 255, 65535).is_none());
    assert_eq!(grid.occupants().len(), 0);
}

#[test]
fn store_then_get_returns_the_wave() {
    let mut grid = WaveGrid::new();
    let mut w = wave(440.0, 0.8);
    w.phase = s(1.25);
    grid.store(3, 4, 5, w);
    let found = grid.get(3, 4, 5).expect("stored");
    assert_eq!(f(found.amplitude), 0.8);
    assert_eq!(f(found.frequency), 440.0);
    assert_eq!(f(found.phase), 1.25);
    assert!(grid.get(4, 3, 5).is_none());
    assert!(grid.get(3, 4, 6).is_none());
}

#[test]
fn store_below_noise_floor_changes_nothing() {
    let mut grid = WaveGrid::new();
    grid.store(1, 1, 1, wave(100.0, 0.05));
    assert!(grid.get(1, 1, 1).is_none());
    grid.store(1, 1, 1, wave(100.0, 0.1));
    assert!(grid.get(1, 1, 1).is_none());
    grid.store(1, 1, 1, wave(100.0, f32::NAN));
    assert!(grid.get(1, 1, 1).is_none());
    grid.store(1, 1, 1, wave(100.0, 0.9));
    grid.store(1, 1, 1, wave(200.0, 0.05));
    assert_eq!(f(grid.get(1, 1, 1).expect("kept").frequency), 100.0);
}

#[test]
fn store_replaces_the_occupant() {
    let mut grid = WaveGrid::new();
    grid.store(9, 9, 9, wave(100.0, 0.9));
    let first: Arc<MemoryWave> = grid.get(9, 9, 9).expect("first").clone();
    grid.store(9, 9, 9, wave(300.0, 0.7));
    assert_eq!(f(grid.get(9, 9, 9).expect("second").frequency), 300.0);
    assert_eq!(f(first.frequency), 100.0);
}

#[test]
fn coordinates_wrap_around() {
    let mut grid = WaveGrid::new();
    grid.store(5, 6, 7, wave(250.0, 0.6));
    assert_eq!(f(grid.get(5 + 64, 6, 7).expect("x wraps").frequency), 250.0);
    assert_eq!(f(grid.get(5, 6 + 64, 7).expect("y wraps").frequency), 250.0);
    assert_eq!(f(grid.get(5, 6, 7 + 256).expect("z wraps").frequency), 250.0);
    assert_eq!(f(grid.get(5 + 128, 6 + 192, 7 + 512).expect("all wrap").frequency), 250.0);

    grid.store(64 + 10, 128 + 11, 1024 + 12, wave(350.0, 0.6));
    assert_eq!(f(grid.get(10, 11, 12).expect("stored wrapped").frequency), 350.0);
}

#[test]
fn stored_wave_is_shared_not_copied() {
    let mut grid = WaveGrid::new();
    grid.store(2, 2, 2, wave(440.0, 0.8));
    let occupants = grid.occupants();
    assert_eq!(occupants.len(), 1);
    let held = grid.get(2, 2, 2).expect("stored");
    assert!(Arc::ptr_eq(held, &occupants[0]));
    assert_eq!(Arc::strong_count(held), 2);
}

#[test]
fn occupants_come_in_slot_order() {
    let mut grid = WaveGrid::new();
    grid.store(1, 0, 1, wave(300.0, 0.8));
    grid.store(0, 1, 0, wave(200.0, 0.8));
    grid.store(5, 0, 0, wave(100.0, 0.8));
    let occupants = grid.occupants();
    let frequencies: Vec<f32> = occupants.iter().map(|w| f(w.frequency)).collect();
    assert_eq!(frequencies, vec![100.0, 200.0, 300.0]);
}

#[test]
fn active_count_needs_more_than_a_hundredth() {
    let decays = vec![s(1.0), s(0.01), s(0.0100001), s(f32::NAN)];
    assert_eq!(WaveGrid::count_active(&decays), 2);
    assert_eq!(WaveGrid::count_active(&Vec::new()), 0);
}

#[test]
fn active_memories_fade_out() {
    let mut grid = WaveGrid::new();
    let created = TimeSpan::from_secs(100);
    grid.store(0, 0, 0, MemoryWave::new(s(100.0), s(0.8), created));
    grid.store(1, 0, 0, MemoryWave::new(s(100.0), s(0.8), created));
    let mut permanent = MemoryWave::new(s(100.0), s(0.8), created);
    permanent.decay_tau = None;
    grid.store(2, 0, 0, permanent);
    let mut brief = MemoryWave::new(s(100.0), s(0.8), created);
    brief.decay_tau = Some(TimeSpan::from_millis(500));
    grid.store(3, 0, 0, brief);
    assert_eq!(grid.active_memory_count(created, &ieee), 4);
    // exp(-3 / 0.5) is below a hundredth, exp(-3 / 5) is not.
    assert_eq!(grid.active_memory_count(TimeSpan::from_secs(103), &ieee), 3);
    // exp(-24 / 5) is below a hundredth.
    assert_eq!(grid.active_memory_count(TimeSpan::from_secs(124), &ieee), 1);
    assert_eq!(WaveGrid::new().active_memory_count(created, &ieee), 0);
}

#[test]
fn noise_floor_is_limited() {
    let mut grid = WaveGrid::new();
    grid.adjust_noise_floor(s(100.0), &ieee);
    assert_eq!(f(grid.noise_floor()), 0.5);
    grid.adjust_noise_floor(s(-100.0), &ieee);
    assert_eq!(f(grid.noise_floor()), 0.01);
    grid.adjust_noise_floor(s(f32::NAN), &ieee);
    assert!(f(grid.noise_floor()).is_nan());
}

#[test]
fn noise_floor_smoothing_formula() {
    let mut grid = WaveGrid::new();
    grid.adjust_noise_floor(s(0.4), &ieee);
    assert_eq!(f(grid.noise_floor()), (0.1f32 * 0.9 + 0.4 * 0.1).clamp(0.01, 0.5));
    assert!((f(grid.noise_floor()) - 0.13).abs() < 1e-6);
    grid.adjust_noise_floor(s(0.4), &ieee);
    assert!((f(grid.noise_floor()) - 0.157).abs() < 1e-6);
}

#[test]
fn raised_noise_floor_gates_insertion() {
    let mut grid = WaveGrid::new();
    grid.adjust_noise_floor(s(100.0), &ieee);
    grid.store(0, 0, 0, wave(100.0, 0.4));
    assert!(grid.get(0, 0, 0).is_none());
    grid.store(0, 0, 0, wave(100.0, 0.6));
    assert!(grid.get(0, 0, 0).is_some());
}

#[test]
fn neighborhood_of_an_inner_point() {
    let mut grid = WaveGrid::new();
    grid.store(10, 10, 10, wave(100.0, 0.8));
    grid.store(11, 10, 10, wave(200.0, 0.8));
    grid.store(9, 9, 9, wave(300.0, 0.8));
    grid.store(13, 10, 10, wave(400.0, 0.8));
    let found = grid.interference_neighbors(10, 10, 10);
    let seen: Vec<(f32, u8)> = found.iter().map(|n| (f(n.wave.frequency), n.distance_squared)).collect();
    assert_eq!(seen, vec![(300.0, 3), (100.0, 0), (200.0, 1)]);
}

#[test]
fn neighborhood_clamps_at_the_edge() {
    let mut grid = WaveGrid::new();
    grid.store(0, 0, 0, wave(100.0, 0.8));
    let found = grid.interference_neighbors(0, 0, 0);
    // Offsets of -1 are pulled back to 0 along each axis, so the corner
    // cell is met once for every combination of -1 and 0: eight times.
    let distances: Vec<u8> = found.iter().map(|n| n.distance_squared).collect();
    assert_eq!(distances, vec![3, 2, 2, 1, 2, 1, 1, 0]);
}

#[test]
fn neighborhood_is_clamped_not_wrapped() {
    let mut grid = WaveGrid::new();
    // The cell at x = 0 is a neighbour of x = 63 only if coordinates wrap,
    // and the cell at x = 63 a neighbour of x = 0 likewise.
    grid.store(0, 0, 0, wave(100.0, 0.8));
    assert_eq!(grid.interference_neighbors(63, 0, 0).len(), 0);
    assert_eq!(grid.interference_neighbors(63, 63, 255).len(), 0);
    grid.store(63, 5, 5, wave(200.0, 0.8));
    let at_lower_edge: Vec<f32> =
        grid.interference_neighbors(0, 5, 5).iter().map(|n| f(n.wave.frequency)).collect();
    assert!(at_lower_edge.is_empty());
}

#[test]
fn neighborhood_clamps_at_the_upper_edge() {
    let mut grid = WaveGrid::new();
    grid.store(63, 63, 255, wave(100.0, 0.8));
    let found = grid.interference_neighbors(63, 63, 255);
    // Offsets of +1 are pulled back to the last cell along each axis, so
    // the corner cell is met once for every combination of 0 and +1.
    let distances: Vec<u8> = found.iter().map(|n| n.distance_squared).collect();
    assert_eq!(distances, vec![0, 1, 1, 2, 1, 2, 2, 3]);
}

#[test]
fn neighborhood_of_a_point_beyond_the_extent() {
    let mut grid = WaveGrid::new();
    grid.store(63, 10, 10, wave(100.0, 0.8));
    grid.store(62, 10, 10, wave(200.0, 0.8));
    grid.store(8, 10, 10, wave(300.0, 0.8));
    // x = 200 lies beyond the 64 cells of the first axis: all its
    // neighbours along that axis are the cell at x = 63. x = 200 would
    // wrap to x = 8, which is not looked at.
    let found = grid.interference_neighbors(200, 10, 10);
    let seen: Vec<(f32, u8)> = found.iter().map(|n| (f(n.wave.frequency), n.distance_squared)).collect();
    assert_eq!(seen, vec![(100.0, 1), (100.0, 0), (100.0, 1)]);
    // A layer beyond the depth has the last layer for neighbours.
    grid.store(3, 3, 255, wave(400.0, 0.8));
    let deep = grid.interference_neighbors(3, 3, 1000);
    assert_eq!(deep.len(), 3);
}

#[test]
fn interference_does_not_wrap_around() {
    let mut grid = WaveGrid::new();
    let mut w = wave(0.0, 1.0);
    w.phase = s(std::f32::consts::FRAC_PI_2);
    w.decay_tau = None;
    grid.store(0, 0, 0, w);
    let now = TimeSpan::from_secs(0);
    assert_eq!(f(grid.calculate_interference(63, 0, 0, s(0.0), now, &ieee)), 0.0);
    assert_eq!(f(grid.calculate_interference(0, 63, 0, s(0.0), now, &ieee)), 0.0);
    assert_eq!(f(grid.calculate_interference(0, 0, 255, s(0.0), now, &ieee)), 0.0);
    assert!(f(grid.calculate_interference(1, 0, 0, s(0.0), now, &ieee)) > 0.49);
}

#[test]
fn interference_of_one_neighbor() {
    let mut grid = WaveGrid::new();
    let mut w = wave(0.25, 1.0);
    w.decay_tau = None;
    grid.store(20, 20, 20, w);
    let now = TimeSpan::from_secs(0);
    // At distance one the weight is a half, and sin(2 pi * 0.25 * 1) = 1.
    assert!((f(grid.calculate_interference(21, 20, 20, s(1.0), now, &ieee)) - 0.5).abs() < 1e-6);
    // At the wave's own cell the weight is one.
    assert!((f(grid.calculate_interference(20, 20, 20, s(1.0), now, &ieee)) - 1.0).abs() < 1e-6);
    // Along a diagonal of the cube the distance is the root of three.
    let corner = f(grid.calculate_interference(21, 21, 21, s(1.0), now, &ieee));
    assert!((corner - 1.0 / (1.0 + 3.0f32.sqrt())).abs() < 1e-6);
    assert_eq!(f(grid.calculate_interference(30, 30, 30, s(1.0), now, &ieee)), 0.0);
}

#[test]
fn interference_adds_up_neighbors() {
    let mut grid = WaveGrid::new();
    let mut state: u32 = 9;
    let mut next = move || {
        state = state.wrapping_mul(1664525).wrapping_add(1013904223);
        (state >> 8) as f32 / (1u32 << 24) as f32
    };
    for x in 9..12u8 {
        for y in 9..12u8 {
            for z in 9..12u16 {
                let mut w = MemoryWave::new(s(next() * 10.0), s(0.2 + next()), TimeSpan::from_secs(0));
                w.phase = s(next());
                grid.store(x, y, z, w);
            }
        }
    }
    let now = TimeSpan::from_secs(1);
    let t: f32 = 0.7;
    let mut total: f32 = 0.0;
    for dx in -1i8..=1 {
        for dy in -1i8..=1 {
            for dz in -1i16..=1 {
                let nx = (10 + dx as i16).clamp(0, 255) as u8;
                let ny = (10 + dy as i16).clamp(0, 255) as u8;
                let nz = (10 + dz as i32).clamp(0, 65535) as u16;
                if let Some(w) = grid.get(nx, ny, nz) {
                    let distance = ((dx * dx + dy * dy) as f32 + (dz * dz) as f32).sqrt();
                    let weight = 1.0 / (1.0 + distance);
                    total += f(w.calculate(s(t), now, &ieee)) * weight;
                }
            }
        }
    }
    assert_eq!(f(grid.calculate_interference(10, 10, 10, s(t), now, &ieee)), total);
}

#[test]
fn interference_at_the_edge_counts_the_corner_eight_times() {
    let mut grid = WaveGrid::new();
    let mut w = wave(0.25, 1.0);
    w.decay_tau = None;
    grid.store(0, 0, 0, w);
    let now = TimeSpan::from_secs(0);
    let mut expected: f32 = 0.0;
    for squared in [3.0f32, 2.0, 2.0, 1.0, 2.0, 1.0, 1.0, 0.0] {
        expected += 1.0 * (1.0 / (1.0 + squared.sqrt()));
    }
    let got = f(grid.calculate_interference(0, 0, 0, s(1.0), now, &ieee));
    assert!((got - expected).abs() < 1e-5);
}
