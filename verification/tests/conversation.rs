use mem8::arithmetic::Binary;
use mem8::arithmetic::Operation;
use mem8::arithmetic::Unary;
use mem8::conversation::ConversationAnalyzer;
use mem8::conversation::ConversationPattern;
use mem8::conversation::ConversationType;
use mem8::conversation::Message;
use mem8::scalar::Scalar;
use mem8::timespan::TimeSpan;
use std::time::Duration;

fn s(x: f32) -> Scalar {
    Scalar::from_bits(x.to_bits())
}

fn f(x: Scalar) -> f32 {
    f32::from_bits(x.to_bits())
}

fn duration(span: TimeSpan) -> Duration {
    let nanos = span.as_nanos();
    Duration::new((nanos / 1_000_000_000) as u64, (nanos % 1_000_000_000) as u32)
}

fn ieee(operation: Operation) -> Scalar {
    match operation {
        Operation::Binary(Binary::Sum, a, b) => s(f(a) + f(b)),
        Operation::Binary(Binary::Difference, a, b) => s(f(a) - f(b)),
        Operation::Binary(Binary::Product, a, b) => s(f(a) * f(b)),
        Operation::Binary(Binary::Quotient, a, b) => s(f(a) / f(b)),
        Operation::Binary(Binary::Remainder, a, b) => s(f(a) % f(b)),
        Operation::Unary(Unary::Exp, x) => s(f(x).exp()),
        Operation::Unary(Unary::Sine, x) => s(f(x).sin()),
        Operation::Unary(Unary::Log2, x) => s(f(x).log2()),
        Operation::Unary(Unary::SquareRoot, x) => s(f(x).sqrt()),
        Operation::Integer(n) => s(n as f32),
        Operation::Seconds(span) => s(duration(span).as_secs_f32()),
    }
}

fn message(role: &str, emotion: &str, importance: u8) -> Message {
    Message {
        content: "hello".to_string(),
        role: role.to_string(),
        timestamp: 0,
        emotion: emotion.to_string(),
        importance,
    }
}

#[test]
fn analyzer_keeps_its_patterns() {
    let pattern = ConversationPattern {
        name: "Forum".to_string(),
        message_path: vec!["thread".to_string(), "posts".to_string()],
        content_field: "body".to_string(),
        role_field: "author".to_string(),
    };
    let analyzer = ConversationAnalyzer::new(vec![pattern]);
    assert_eq!(analyzer.known_patterns().len(), 1);
    assert_eq!(analyzer.known_patterns()[0].name, "Forum");
    assert_eq!(analyzer.known_patterns()[0].message_path.len(), 2);
    assert_eq!(analyzer.known_patterns()[0].content_field, "body");
    assert_eq!(analyzer.known_patterns()[0].role_field, "author");
    assert_eq!(ConversationType::Unknown, ConversationType::Unknown);
    assert_ne!(ConversationType::Generic, ConversationType::MessageArray);
}

#[test]
fn participants_are_unique_in_first_order() {
    let analyzer = ConversationAnalyzer::new(Vec::new());
    let messages = vec![
        message("user", "neutral", 5),
        message("assistant", "neutral", 5),
        message("user", "happy", 5),
        message("system", "neutral", 5),
        message("assistant", "sad", 5),
    ];
    assert_eq!(
        analyzer.extract_participants(&messages),
        vec!["user".to_string(), "assistant".to_string(), "system".to_string()]
    );
    assert!(analyzer.extract_participants(&Vec::new()).is_empty());
}

#[test]
fn importance_by_length() {
    let analyzer = ConversationAnalyzer::new(Vec::new());
    assert_eq!(analyzer.calculate_importance(None), 5);
    assert_eq!(analyzer.calculate_importance(Some(0)), 3);
    assert_eq!(analyzer.calculate_importance(Some(50)), 3);
    assert_eq!(analyzer.calculate_importance(Some(51)), 5);
    assert_eq!(analyzer.calculate_importance(Some(200)), 5);
    assert_eq!(analyzer.calculate_importance(Some(201)), 6);
    assert_eq!(analyzer.calculate_importance(Some(500)), 6);
    assert_eq!(analyzer.calculate_importance(Some(501)), 8);
    assert_eq!(analyzer.calculate_importance(Some(usize::MAX)), 8);
}

#[test]
fn emotions_map_to_frequencies() {
    let expected: Vec<(&str, f32)> = vec![
        ("happy", 100.0),
        ("excited", 100.0),
        ("sad", 20.0),
        ("worried", 20.0),
        ("angry", 150.0),
        ("frustrated", 150.0),
        ("neutral", 50.0),
        ("thinking", 50.0),
        ("curious", 44.1),
        ("", 44.1),
    ];
    for (emotion, frequency) in expected {
        assert_eq!(f(message("user", emotion, 5).wave_frequency()), frequency, "{}", emotion);
    }
}

#[test]
fn emotions_map_to_valences() {
    let expected: Vec<(&str, f32)> = vec![
        ("happy", 0.8),
        ("excited", 0.8),
        ("sad", -0.5),
        ("worried", -0.5),
        ("angry", -0.8),
        ("frustrated", -0.8),
        ("neutral", 0.0),
        ("thinking", 0.0),
        ("curious", 0.0),
    ];
    for (emotion, valence) in expected {
        assert_eq!(f(message("user", emotion, 5).wave_valence()), valence, "{}", emotion);
    }
}

#[test]
fn message_becomes_a_wave() {
    let mut angry = message("user", "angry", 7);
    angry.timestamp = 12;
    let wave = angry.to_wave(TimeSpan::from_secs(4), &ieee);
    assert_eq!(f(wave.frequency), 150.0);
    assert_eq!(f(wave.amplitude), 7.0 / 10.0);
    assert!((f(wave.amplitude) - 0.7).abs() < 1e-6);
    assert_eq!(f(wave.phase), 12.0);
    assert_eq!(f(wave.valence), -0.8);
    assert_eq!(f(wave.arousal), 7.0 / 10.0);
    assert_eq!(wave.created_at, TimeSpan::from_secs(4));
    assert_eq!(wave.decay_tau, Some(TimeSpan::from_secs(5)));
    let plain = message("user", "curious", 10).to_wave(TimeSpan::from_secs(0), &ieee);
    assert_eq!(f(plain.frequency), 44.1);
    assert_eq!(f(plain.amplitude), 1.0);
    assert_eq!(f(plain.valence), 0.0);
}
