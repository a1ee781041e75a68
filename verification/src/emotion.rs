//! The eight primary emotions of Plutchik's wheel, their names and their
//! opposites. How strongly an agent feels each of them is kept outside the
//! library, as fractional values.
use vstd::prelude::*;

use crate::text::str_eq;

verus! {

/// A primary emotion
#[derive(Debug, Clone, Copy, PartialEq, Eq, Structural)]
pub enum Emotion {
    /// Joy
    Joy,
    /// Trust
    Trust,
    /// Fear
    Fear,
    /// Surprise
    Surprise,
    /// Sadness
    Sadness,
    /// Disgust
    Disgust,
    /// Anger
    Anger,
    /// Anticipation
    Anticipation,
}

/// The name of an emotion.
pub open spec fn emotion_name(e: Emotion) -> Seq<char> {
    match e {
        Emotion::Joy => "joy"@,
        Emotion::Trust => "trust"@,
        Emotion::Fear => "fear"@,
        Emotion::Surprise => "surprise"@,
        Emotion::Sadness => "sadness"@,
        Emotion::Disgust => "disgust"@,
        Emotion::Anger => "anger"@,
        Emotion::Anticipation => "anticipation"@,
    }
}

/// The emotion a name denotes, if any (names are lowercase).
pub open spec fn emotion_from_name(n: Seq<char>) -> Option<Emotion> {
    if n == "joy"@ {
        Some(Emotion::Joy)
    } else if n == "trust"@ {
        Some(Emotion::Trust)
    } else if n == "fear"@ {
        Some(Emotion::Fear)
    } else if n == "surprise"@ {
        Some(Emotion::Surprise)
    } else if n == "sadness"@ {
        Some(Emotion::Sadness)
    } else if n == "disgust"@ {
        Some(Emotion::Disgust)
    } else if n == "anger"@ {
        Some(Emotion::Anger)
    } else if n == "anticipation"@ {
        Some(Emotion::Anticipation)
    } else {
        None
    }
}

/// The emotion opposite on the wheel: joy and sadness, trust and disgust,
/// fear and anger, surprise and anticipation.
pub open spec fn opposite_of(e: Emotion) -> Emotion {
    match e {
        Emotion::Joy => Emotion::Sadness,
        Emotion::Sadness => Emotion::Joy,
        Emotion::Trust => Emotion::Disgust,
        Emotion::Disgust => Emotion::Trust,
        Emotion::Fear => Emotion::Anger,
        Emotion::Anger => Emotion::Fear,
        Emotion::Surprise => Emotion::Anticipation,
        Emotion::Anticipation => Emotion::Surprise,
    }
}

impl Emotion {
    /// The emotion's name.
    pub fn name(&self) -> (r: &'static str)
        ensures
            r@ == emotion_name(*self),
    {
        match self {
            Emotion::Joy => "joy",
            Emotion::Trust => "trust",
            Emotion::Fear => "fear",
            Emotion::Surprise => "surprise",
            Emotion::Sadness => "sadness",
            Emotion::Disgust => "disgust",
            Emotion::Anger => "anger",
            Emotion::Anticipation => "anticipation",
        }
    }

    /// The emotion a name denotes, if any.
    pub fn from_name(s: &str) -> (r: Option<Emotion>)
        ensures
            r == emotion_from_name(s@),
    {
        if str_eq(s, "joy") {
            Some(Emotion::Joy)
        } else if str_eq(s, "trust") {
            Some(Emotion::Trust)
        } else if str_eq(s, "fear") {
            Some(Emotion::Fear)
        } else if str_eq(s, "surprise") {
            Some(Emotion::Surprise)
        } else if str_eq(s, "sadness") {
            Some(Emotion::Sadness)
        } else if str_eq(s, "disgust") {
            Some(Emotion::Disgust)
        } else if str_eq(s, "anger") {
            Some(Emotion::Anger)
        } else if str_eq(s, "anticipation") {
            Some(Emotion::Anticipation)
        } else {
            None
        }
    }

    /// The emotion opposite on the wheel, which an update of this one
    /// mirrors.
    pub fn opposite(&self) -> (r: Emotion)
        ensures
            r == opposite_of(*self),
    {
        match self {
            Emotion::Joy => Emotion::Sadness,
            Emotion::Sadness => Emotion::Joy,
            Emotion::Trust => Emotion::Disgust,
            Emotion::Disgust => Emotion::Trust,
            Emotion::Fear => Emotion::Anger,
            Emotion::Anger => Emotion::Fear,
            Emotion::Surprise => Emotion::Anticipation,
            Emotion::Anticipation => Emotion::Surprise,
        }
    }
}

/// The emotions in the order they are listed: joy, trust, fear, surprise,
/// sadness, disgust, anger, anticipation.
pub fn all_emotions() -> (r: Vec<Emotion>)
    ensures
        r@ == seq![
            Emotion::Joy,
            Emotion::Trust,
            Emotion::Fear,
            Emotion::Surprise,
            Emotion::Sadness,
            Emotion::Disgust,
            Emotion::Anger,
            Emotion::Anticipation,
        ],
{
    vec![
        Emotion::Joy,
        Emotion::Trust,
        Emotion::Fear,
        Emotion::Surprise,
        Emotion::Sadness,
        Emotion::Disgust,
        Emotion::Anger,
        Emotion::Anticipation,
    ]
}

/// Opposition pairs the emotions: every emotion differs from its opposite,
/// and the opposite of the opposite is the emotion itself.
pub proof fn lemma_opposite_pairs(e: Emotion)
    ensures
        opposite_of(e) != e,
        opposite_of(opposite_of(e)) == e,
{
}

/// Each emotion is called by its own name, and each name read back gives
/// that emotion: joy, trust, fear, surprise, sadness, disgust, anger and
/// anticipation.
pub proof fn lemma_emotion_names()
    ensures
        emotion_name(Emotion::Joy) == "joy"@,
        emotion_name(Emotion::Trust) == "trust"@,
        emotion_name(Emotion::Fear) == "fear"@,
        emotion_name(Emotion::Surprise) == "surprise"@,
        emotion_name(Emotion::Sadness) == "sadness"@,
        emotion_name(Emotion::Disgust) == "disgust"@,
        emotion_name(Emotion::Anger) == "anger"@,
        emotion_name(Emotion::Anticipation) == "anticipation"@,
        emotion_from_name("joy"@) == Some(Emotion::Joy),
        emotion_from_name("trust"@) == Some(Emotion::Trust),
        emotion_from_name("fear"@) == Some(Emotion::Fear),
        emotion_from_name("surprise"@) == Some(Emotion::Surprise),
        emotion_from_name("sadness"@) == Some(Emotion::Sadness),
        emotion_from_name("disgust"@) == Some(Emotion::Disgust),
        emotion_from_name("anger"@) == Some(Emotion::Anger),
        emotion_from_name("anticipation"@) == Some(Emotion::Anticipation),
{
    lemma_emotion_name_round_trip(Emotion::Joy);
    lemma_emotion_name_round_trip(Emotion::Trust);
    lemma_emotion_name_round_trip(Emotion::Fear);
    lemma_emotion_name_round_trip(Emotion::Surprise);
    lemma_emotion_name_round_trip(Emotion::Sadness);
    lemma_emotion_name_round_trip(Emotion::Disgust);
    lemma_emotion_name_round_trip(Emotion::Anger);
    lemma_emotion_name_round_trip(Emotion::Anticipation);
}

/// The opposites on the wheel: joy and sadness, trust and disgust, fear
/// and anger, surprise and anticipation, each the opposite of the other.
pub proof fn lemma_wheel_opposites()
    ensures
        opposite_of(Emotion::Joy) == Emotion::Sadness,
        opposite_of(Emotion::Sadness) == Emotion::Joy,
        opposite_of(Emotion::Trust) == Emotion::Disgust,
        opposite_of(Emotion::Disgust) == Emotion::Trust,
        opposite_of(Emotion::Fear) == Emotion::Anger,
        opposite_of(Emotion::Anger) == Emotion::Fear,
        opposite_of(Emotion::Surprise) == Emotion::Anticipation,
        opposite_of(Emotion::Anticipation) == Emotion::Surprise,
{
}

/// Every emotion's name is read back as that emotion.
pub proof fn lemma_emotion_name_round_trip(e: Emotion)
    ensures
        emotion_from_name(emotion_name(e)) == Some(e),
{
    reveal_strlit("joy");
    reveal_strlit("trust");
    reveal_strlit("fear");
    reveal_strlit("surprise");
    reveal_strlit("sadness");
    reveal_strlit("disgust");
    reveal_strlit("anger");
    reveal_strlit("anticipation");
    assert("joy"@.len() == 3 && "trust"@.len() == 5 && "fear"@.len() == 4);
    assert("surprise"@.len() == 8 && "sadness"@.len() == 7 && "disgust"@.len() == 7);
    assert("anger"@.len() == 5 && "anticipation"@.len() == 12);
    assert("sadness"@[0] != "disgust"@[0]);
    assert("trust"@[0] != "anger"@[0]);
}

} // verus!
