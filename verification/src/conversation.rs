//! Conversations as a source of memory waves.
//!
//! A conversation reaches the engine as a list of messages, each with an
//! emotion and an importance from which the parameters of its wave are
//! taken.

use vstd::prelude::*;
use crate::arithmetic::Formula;
use crate::arithmetic::Operation;
use crate::arithmetic::Term;
use crate::arithmetic::constant;
use crate::arithmetic::evaluates;
use crate::arithmetic::integer;
use crate::arithmetic::quotient;
use crate::arithmetic::total;
use crate::scalar::Scalar;
use crate::scalar::ZERO;
use crate::text::same_text;
use crate::timespan::TimeSpan;
use crate::wave::FREQUENCY_MAX;
use crate::wave::MemoryWave;

verus! {

/// Bit pattern of `100.0`, the frequency of a happy or excited message.
pub const FREQUENCY_HIGH_ENERGY: u32 = 0x42c8_0000;

/// Bit pattern of `20.0`, the frequency of a sad or worried message.
pub const FREQUENCY_LOW_ENERGY: u32 = 0x41a0_0000;

/// Bit pattern of `150.0`, the frequency of an angry or frustrated message.
pub const FREQUENCY_INTENSE: u32 = 0x4316_0000;

/// Bit pattern of `50.0`, the frequency of a neutral or thinking message.
pub const FREQUENCY_BALANCED: u32 = 0x4248_0000;

/// Bit pattern of `44.1`, the frequency of a message of any other emotion.
pub const FREQUENCY_BASELINE: u32 = 0x4230_6666;

/// Bit pattern of `0.8`, the valence of a happy or excited message.
pub const VALENCE_BRIGHT: u32 = 0x3f4c_cccd;

/// Bit pattern of `-0.5`, the valence of a sad or worried message.
pub const VALENCE_LOW: u32 = 0xbf00_0000;

/// Bit pattern of `-0.8`, the valence of an angry or frustrated message.
pub const VALENCE_DARK: u32 = 0xbf4c_cccd;

/// Bit pattern of `0.0`, the valence of a message of any other emotion.
pub const VALENCE_NEUTRAL: u32 = 0x0000_0000;

/// Bit pattern of `10.0`, the highest importance of a message.
pub const IMPORTANCE_SCALE: u32 = 0x4120_0000;

/// The share of the highest importance that a message has:
/// `importance / 10`.
pub open spec fn weight_formula(importance: u8) -> Formula {
    quotient(integer(importance as u64), constant(IMPORTANCE_SCALE))
}

/// Where a conversation comes from, told by its structure.
#[derive(Clone, Copy, Debug, PartialEq, Eq, Structural)]
pub enum ConversationType {
    ChatGPT,
    Claude,
    Generic,
    MessageArray,
    Unknown,
}

/// One message of a conversation.
#[derive(Debug)]
pub struct Message {
    pub content: String,
    pub role: String,
    pub timestamp: u64,
    pub emotion: String,
    /// From 1 to 10.
    pub importance: u8,
}

/// The wave frequency that stands for an emotion.
pub open spec fn emotion_frequency(emotion: Seq<char>) -> u32 {
    if emotion == "happy"@ || emotion == "excited"@ {
        FREQUENCY_HIGH_ENERGY
    } else if emotion == "sad"@ || emotion == "worried"@ {
        FREQUENCY_LOW_ENERGY
    } else if emotion == "angry"@ || emotion == "frustrated"@ {
        FREQUENCY_INTENSE
    } else if emotion == "neutral"@ || emotion == "thinking"@ {
        FREQUENCY_BALANCED
    } else {
        FREQUENCY_BASELINE
    }
}

/// The valence that stands for an emotion.
pub open spec fn emotion_valence(emotion: Seq<char>) -> u32 {
    if emotion == "happy"@ || emotion == "excited"@ {
        VALENCE_BRIGHT
    } else if emotion == "sad"@ || emotion == "worried"@ {
        VALENCE_LOW
    } else if emotion == "angry"@ || emotion == "frustrated"@ {
        VALENCE_DARK
    } else {
        VALENCE_NEUTRAL
    }
}

/// The importance of a message by the length of its content: 8 above 500
/// bytes, 6 above 200, 5 above 50, 3 for anything shorter, and 5 for a
/// message without content.
pub open spec fn importance_of(content_len: Option<usize>) -> u8 {
    match content_len {
        Some(len) => if len > 500 {
            8
        } else if len > 200 {
            6
        } else if len > 50 {
            5
        } else {
            3
        },
        None => 5,
    }
}

impl Message {
    /// The frequency of the message's wave: 100 Hz for a happy or excited
    /// message, 20 Hz for a sad or worried one, 150 Hz for an angry or
    /// frustrated one, 50 Hz for a neutral or thinking one and 44.1 Hz for
    /// any other.
    pub fn wave_frequency(&self) -> (frequency: Scalar)
        ensures
            frequency.bits == emotion_frequency(self.emotion@),
    {
        let emotion: &str = self.emotion.as_str();
        if same_text(emotion, "happy") || same_text(emotion, "excited") {
            Scalar::from_bits(FREQUENCY_HIGH_ENERGY)
        } else if same_text(emotion, "sad") || same_text(emotion, "worried") {
            Scalar::from_bits(FREQUENCY_LOW_ENERGY)
        } else if same_text(emotion, "angry") || same_text(emotion, "frustrated") {
            Scalar::from_bits(FREQUENCY_INTENSE)
        } else if same_text(emotion, "neutral") || same_text(emotion, "thinking") {
            Scalar::from_bits(FREQUENCY_BALANCED)
        } else {
            Scalar::from_bits(FREQUENCY_BASELINE)
        }
    }

    /// The wave that carries the message into memory, made at
    /// `created_at`: its frequency and valence stand for the emotion of
    /// the message, its amplitude and arousal are a tenth of the
    /// importance, and its phase is the time of the message.
    pub fn to_wave<A: Fn(Operation) -> Scalar>(&self, created_at: TimeSpan, arithmetic: &A) -> (wave:
        MemoryWave)
        requires
            total(*arithmetic),
        ensures
            wave.frequency == Scalar::from_bits(emotion_frequency(self.emotion@)).spec_clamp(
                Scalar::from_bits(ZERO),
                Scalar::from_bits(FREQUENCY_MAX),
            ),
            evaluates(*arithmetic, weight_formula(self.importance), wave.amplitude),
            evaluates(*arithmetic, integer(self.timestamp), wave.phase),
            wave.valence.bits == emotion_valence(self.emotion@),
            evaluates(*arithmetic, weight_formula(self.importance), wave.arousal),
            wave.created_at == created_at,
            wave.decay_tau == Some(TimeSpan { nanos: 5_000_000_000 }),
            wave.wf(),
    {
        let amplitude: Term = Term::integer(self.importance as u64, arithmetic).over(
            &Term::constant(IMPORTANCE_SCALE),
            arithmetic,
        );
        let mut wave: MemoryWave = MemoryWave::new(self.wave_frequency(), amplitude.value, created_at);
        wave.phase = Term::integer(self.timestamp, arithmetic).value;
        wave.valence = self.wave_valence();
        wave.arousal =
        Term::integer(self.importance as u64, arithmetic).over(
            &Term::constant(IMPORTANCE_SCALE),
            arithmetic,
        ).value;
        wave
    }

    /// The valence of the message's wave: 0.8 for a happy or excited
    /// message, -0.5 for a sad or worried one, -0.8 for an angry or
    /// frustrated one and 0 for any other.
    pub fn wave_valence(&self) -> (valence: Scalar)
        ensures
            valence.bits == emotion_valence(self.emotion@),
    {
        let emotion: &str = self.emotion.as_str();
        if same_text(emotion, "happy") || same_text(emotion, "excited") {
            Scalar::from_bits(VALENCE_BRIGHT)
        } else if same_text(emotion, "sad") || same_text(emotion, "worried") {
            Scalar::from_bits(VALENCE_LOW)
        } else if same_text(emotion, "angry") || same_text(emotion, "frustrated") {
            Scalar::from_bits(VALENCE_DARK)
        } else {
            Scalar::from_bits(VALENCE_NEUTRAL)
        }
    }
}

/// How one source lays out its conversations.
#[derive(Debug)]
pub struct ConversationPattern {
    pub name: String,
    pub message_path: Vec<String>,
    pub content_field: String,
    pub role_field: String,
}

/// A stored conversation at a glance.
#[derive(Debug)]
pub struct ConversationSummary {
    pub file_name: String,
    pub conversation_type: ConversationType,
    pub message_count: usize,
    pub participants: Vec<String>,
    /// When the conversation was stored, as the time since the Unix epoch.
    pub timestamp: crate::timespan::TimeSpan,
}

/// The roles among the first `count` of a sequence, each once, in the
/// order in which they first occur.
pub open spec fn participants_of(roles: Seq<Seq<char>>, count: nat) -> Seq<Seq<char>>
    decreases count,
{
    if count == 0 {
        Seq::empty()
    } else {
        let before = participants_of(roles, (count - 1) as nat);
        if before.contains(roles[count - 1]) {
            before
        } else {
            before.push(roles[count - 1])
        }
    }
}

/// The roles of a sequence of messages.
pub open spec fn roles_of(messages: Seq<Message>) -> Seq<Seq<char>> {
    messages.map_values(|message: Message| message.role@)
}

/// The texts of a sequence of strings.
pub open spec fn names_of(strings: Seq<String>) -> Seq<Seq<char>> {
    strings.map_values(|string: String| string@)
}

/// Recognises the structure of conversations.
pub struct ConversationAnalyzer {
    patterns: Vec<ConversationPattern>,
}

impl ConversationAnalyzer {
    /// The patterns the analyzer knows.
    pub closed spec fn patterns(&self) -> Seq<ConversationPattern> {
        self.patterns@
    }

    /// An analyzer that knows the given patterns.
    pub fn new(patterns: Vec<ConversationPattern>) -> (analyzer: ConversationAnalyzer)
        ensures
            analyzer.patterns() == patterns@,
    {
        ConversationAnalyzer { patterns }
    }

    /// The patterns the analyzer knows.
    pub fn known_patterns(&self) -> (patterns: &Vec<ConversationPattern>)
        ensures
            patterns@ == self.patterns(),
    {
        &self.patterns
    }

    /// The roles that take part in the messages, each once, in the order
    /// in which they first speak.
    pub fn extract_participants(&self, messages: &Vec<Message>) -> (participants: Vec<String>)
        ensures
            names_of(participants@) == participants_of(roles_of(messages@), messages@.len()),
    {
        let mut participants: Vec<String> = Vec::new();
        let mut i: usize = 0;
        while i < messages.len()
            invariant
                i <= messages@.len(),
                names_of(participants@) == participants_of(roles_of(messages@), i as nat),
            decreases messages@.len() - i,
        {
            let role: &String = &messages[i].role;
            if !contains_name(&participants, role) {
                let ghost before = names_of(participants@);
                participants.push(role.clone());
                assert(names_of(participants@) =~= before.push(role@));
            }
            i = i + 1;
        }
        participants
    }

    /// The importance of a message, from the length of its content in
    /// bytes, if it has content.
    pub fn calculate_importance(&self, content_len: Option<usize>) -> (importance: u8)
        ensures
            importance == importance_of(content_len),
            1 <= importance <= 10,
    {
        match content_len {
            Some(len) => {
                if len > 500 {
                    8
                } else if len > 200 {
                    6
                } else if len > 50 {
                    5
                } else {
                    3
                }
            },
            None => 5,
        }
    }
}

/// Whether one of the strings has the given text.
fn contains_name(names: &Vec<String>, name: &String) -> (found: bool)
    ensures
        found == names_of(names@).contains(name@),
{
    let mut i: usize = 0;
    while i < names.len()
        invariant
            i <= names@.len(),
            forall|j: int| 0 <= j < i ==> names_of(names@)[j] != name@,
        decreases names@.len() - i,
    {
        if names[i] == *name {
            assert(names_of(names@)[i as int] == name@);
            return true;
        }
        i = i + 1;
    }
    false
}

} // verus!
