//! Intent understanding for player interactions: the kinds of intent, the
//! rule-based classification of player input, and the reading of a
//! language model's classification.
use vstd::prelude::*;

use vstd::string::StringSliceAdditionalSpecFns;
use vstd::utf8::encode_utf8;

use crate::text::{
    chars_of, pieces, split_words, string_of, trim_non_alphanumeric, trim_non_alphanumeric_chars,
    words, ends_with_char, is_whitespace, starts_with_seq, starts_with_str, str_eq,
    str_lowercase, to_lowercase, word_count, words_from, trim_whitespace, trim_whitespace_chars,
};

verus! {

/// Type of player intent
#[derive(Debug, Clone, Copy, PartialEq, Eq, Structural)]
pub enum IntentType {
    /// Player is asking a question
    Question,
    /// Player is greeting the NPC
    Greeting,
    /// Player is issuing a command
    Command,
    /// General chat/conversation
    Chat,
    /// Proximity-based intent (player approaching/nearby)
    Proximity,
    /// Custom/unknown intent type
    Custom,
}

/// The lowercase name of an intent type.
pub open spec fn intent_name(t: IntentType) -> Seq<char> {
    match t {
        IntentType::Question => "question"@,
        IntentType::Greeting => "greeting"@,
        IntentType::Command => "command"@,
        IntentType::Chat => "chat"@,
        IntentType::Proximity => "proximity"@,
        IntentType::Custom => "custom"@,
    }
}

/// The intent type an already lowercased name denotes; anything unknown
/// is `Custom`.
pub open spec fn intent_from_name(n: Seq<char>) -> IntentType {
    if n == "question"@ {
        IntentType::Question
    } else if n == "greeting"@ {
        IntentType::Greeting
    } else if n == "command"@ {
        IntentType::Command
    } else if n == "chat"@ {
        IntentType::Chat
    } else if n == "proximity"@ {
        IntentType::Proximity
    } else {
        IntentType::Custom
    }
}

impl IntentType {
    /// Convert from an already lowercased string representation.
    pub fn from_lowercase(s: &str) -> (r: IntentType)
        ensures
            r == intent_from_name(s@),
    {
        if str_eq(s, "question") {
            IntentType::Question
        } else if str_eq(s, "greeting") {
            IntentType::Greeting
        } else if str_eq(s, "command") {
            IntentType::Command
        } else if str_eq(s, "chat") {
            IntentType::Chat
        } else if str_eq(s, "proximity") {
            IntentType::Proximity
        } else {
            IntentType::Custom
        }
    }

    /// Convert from string representation, ignoring case.
    pub fn from_str(s: &str) -> (r: IntentType)
        ensures
            r == intent_from_name(str_lowercase(s@)),
    {
        let lower = to_lowercase(s);
        IntentType::from_lowercase(lower.as_str())
    }

    /// Convert to string representation
    pub fn as_str(&self) -> (r: &'static str)
        ensures
            r@ == intent_name(*self),
    {
        match self {
            IntentType::Question => "question",
            IntentType::Greeting => "greeting",
            IntentType::Command => "command",
            IntentType::Chat => "chat",
            IntentType::Proximity => "proximity",
            IntentType::Custom => "custom",
        }
    }
}

/// Every intent type's name is read back as that type.
pub proof fn lemma_intent_name_round_trip(t: IntentType)
    ensures
        intent_from_name(intent_name(t)) == t,
{
    reveal_strlit("question");
    reveal_strlit("greeting");
    reveal_strlit("command");
    reveal_strlit("chat");
    reveal_strlit("proximity");
    reveal_strlit("custom");
    assert("question"@.len() == 8 && "greeting"@.len() == 8 && "command"@.len() == 7);
    assert("chat"@.len() == 4 && "proximity"@.len() == 9 && "custom"@.len() == 6);
    assert("question"@[0] != "greeting"@[0]);
}

/// Words that, at the start of the lowercased input, make it a command.
pub open spec fn is_command_word_start(lower: Seq<char>) -> bool {
    ||| starts_with_seq(lower, "follow"@)
    ||| starts_with_seq(lower, "go"@)
    ||| starts_with_seq(lower, "stop"@)
    ||| starts_with_seq(lower, "attack"@)
    ||| starts_with_seq(lower, "come"@)
}

/// Rule-based classification of player input, given its lowercase form:
/// a trailing `?` makes a question, a leading command word a command, at
/// most two words a greeting, anything else chat.
pub open spec fn classify(input: Seq<char>, lower: Seq<char>) -> IntentType {
    if input.len() > 0 && input.last() == '?' {
        IntentType::Question
    } else if is_command_word_start(lower) {
        IntentType::Command
    } else if word_count(input) <= 2 {
        IntentType::Greeting
    } else {
        IntentType::Chat
    }
}

/// Number of whitespace-separated words in `s`.
pub fn count_words(s: &str) -> (r: usize)
    ensures
        r == word_count(s@),
{
    let v = crate::text::chars_of(s);
    let mut count: usize = 0;
    let mut in_word = false;
    let mut k: usize = 0;
    assert(v@.skip(0) =~= v@);
    while k < v.len()
        invariant
            k <= v.len(),
            v@ == s@,
            count + words_from(v@.skip(k as int), in_word) == word_count(s@),
            count <= k,
        decreases v.len() - k,
    {
        proof {
            assert(v@.skip(k as int).skip(1) =~= v@.skip(k + 1));
            assert(v@.skip(k as int)[0] == v@[k as int]);
        }
        let c = v[k];
        if is_whitespace(c) {
            in_word = false;
        } else if in_word {
        } else {
            count = count + 1;
            in_word = true;
        }
        k = k + 1;
    }
    assert(v@.skip(k as int).len() == 0);
    count
}

/// Rule-based intent type of player input, used when no language model is
/// available.
pub fn classify_input(input: &str) -> (r: IntentType)
    ensures
        r == classify(input@, str_lowercase(input@)),
{
    if ends_with_char(input, '?') {
        return IntentType::Question;
    }
    let lower = to_lowercase(input);
    let l = lower.as_str();
    if starts_with_str(l, "follow") || starts_with_str(l, "go") || starts_with_str(l, "stop")
        || starts_with_str(l, "attack") || starts_with_str(l, "come") {
        return IntentType::Command;
    }
    if count_words(input) <= 2 {
        IntentType::Greeting
    } else {
        IntentType::Chat
    }
}

/// The rules of classification: an input ending in `?` is a question;
/// otherwise one whose lowercase form begins with "follow", "go", "stop",
/// "attack" or "come" is a command; otherwise one of at most two words is
/// a greeting, and anything longer is chat.
pub proof fn lemma_classification_rules(input: Seq<char>)
    ensures
        ({
            let lower = str_lowercase(input);
            let t = classify(input, lower);
            let question = input.len() > 0 && input.last() == '?';
            let command = (lower.len() >= 6 && lower.subrange(0, 6) == "follow"@) || (lower.len()
                >= 2 && lower.subrange(0, 2) == "go"@) || (lower.len() >= 4 && lower.subrange(0, 4)
                == "stop"@) || (lower.len() >= 6 && lower.subrange(0, 6) == "attack"@) || (
            lower.len() >= 4 && lower.subrange(0, 4) == "come"@);
            &&& question ==> t == IntentType::Question
            &&& !question && command ==> t == IntentType::Command
            &&& !question && !command && word_count(input) <= 2 ==> t == IntentType::Greeting
            &&& !question && !command && word_count(input) > 2 ==> t == IntentType::Chat
        }),
{
    reveal_strlit("follow");
    reveal_strlit("go");
    reveal_strlit("stop");
    reveal_strlit("attack");
    reveal_strlit("come");
}

/// Common short words in several languages that are never keywords.
pub open spec fn stop_words() -> Seq<Seq<char>> {
    seq![
        "the"@, "a"@, "an"@, "and"@, "or"@, "but"@, "in"@, "on"@, "at"@, "to"@, "for"@,
        "with"@, "by"@, "from"@, "up"@, "about"@, "is"@, "are"@, "was"@, "were"@,
        "be"@, "been"@, "being"@, "have"@, "has"@, "had"@, "do"@, "does"@, "did"@,
        "will"@, "would"@, "could"@, "should"@, "may"@, "might"@, "must"@,
        "i"@, "you"@, "he"@, "she"@, "it"@, "we"@, "they"@, "me"@, "him"@, "her"@,
        "my"@, "your"@, "his"@, "its"@, "our"@, "their"@,
        "el"@, "la"@, "los"@, "las"@, "un"@, "una"@, "de"@, "en"@, "es"@, "y"@, "o"@,
        "le"@, "les"@, "une"@, "et"@, "est"@, "ou"@,
        "der"@, "die"@, "das"@, "ein"@, "eine"@, "und"@, "ist"@, "oder"@,
        "は"@, "が"@, "を"@, "に"@, "で"@, "と"@, "の"@, "も"@, "へ"@, "から"@,
    ]
}

/// A Chinese, Japanese or Korean character.
pub open spec fn is_cjk(c: char) -> bool {
    let u = c as u32;
    (0x4E00 <= u <= 0x9FFF) || (0x3040 <= u <= 0x309F) || (0x30A0 <= u <= 0x30FF) || (0xAC00 <= u
        <= 0xD7AF)
}

/// A cleaned word is a keyword when it is not empty, not a common short
/// word, and either holds a CJK character or is at least three bytes long.
pub open spec fn is_keyword(clean: Seq<char>) -> bool {
    &&& clean.len() > 0
    &&& !stop_words().contains(clean)
    &&& (exists|i: int| 0 <= i < clean.len() && is_cjk(#[trigger] clean[i])) || encode_utf8(
        clean,
    ).len() >= 3
}

/// A word cleaned for keyword extraction: trimmed of non-alphanumeric
/// characters at both ends, then lowercased.
pub open spec fn clean_word(w: Seq<char>) -> Seq<char> {
    str_lowercase(trim_non_alphanumeric(w))
}

/// The keywords of a text: its cleaned words that are keywords, in order.
pub open spec fn keywords_of(ws: Seq<Seq<char>>) -> Seq<Seq<char>>
    decreases ws.len(),
{
    if ws.len() == 0 {
        Seq::empty()
    } else if is_keyword(clean_word(ws.last())) {
        keywords_of(ws.drop_last()).push(clean_word(ws.last()))
    } else {
        keywords_of(ws.drop_last())
    }
}

proof fn lemma_keywords_of_props(ws: Seq<Seq<char>>)
    ensures
        forall|i: int|
            0 <= i < keywords_of(ws).len() ==> is_keyword(#[trigger] keywords_of(ws)[i]) && exists|
                j: int,
            | 0 <= j < ws.len() && keywords_of(ws)[i] == clean_word(#[trigger] ws[j]),
        forall|j: int|
            0 <= j < ws.len() && is_keyword(clean_word(#[trigger] ws[j])) ==> keywords_of(
                ws,
            ).contains(clean_word(ws[j])),
    decreases ws.len(),
{
    if ws.len() > 0 {
        let init = ws.drop_last();
        lemma_keywords_of_props(init);
        let prev = keywords_of(init);
        let kw = keywords_of(ws);
        assert forall|i: int| 0 <= i < kw.len() implies is_keyword(#[trigger] kw[i]) && exists|
            j: int,
        | 0 <= j < ws.len() && kw[i] == clean_word(#[trigger] ws[j]) by {
            if i < prev.len() {
                assert(kw[i] == prev[i]);
                let j = choose|j: int| 0 <= j < init.len() && prev[i] == clean_word(#[trigger] init[j]);
                assert(ws[j] == init[j]);
            } else {
                assert(kw[i] == clean_word(ws[ws.len() - 1]));
            }
        }
        assert forall|j: int|
            0 <= j < ws.len() && is_keyword(clean_word(#[trigger] ws[j])) implies kw.contains(
            clean_word(ws[j]),
        ) by {
            if j < init.len() {
                assert(init[j] == ws[j]);
                let t = choose|t: int| 0 <= t < prev.len() && prev[t] == clean_word(init[j]);
                if is_keyword(clean_word(ws.last())) {
                    assert(kw[t] == prev[t]);
                }
            } else {
                assert(kw[kw.len() - 1] == clean_word(ws[j]));
            }
        }
    }
}

/// The keywords of a list of words: each is one of the words, trimmed of
/// non-alphanumeric characters at both ends and lowercased; none is empty
/// or one of the common short words (English articles, conjunctions,
/// prepositions, auxiliaries and pronouns, the Spanish, French and German
/// articles and conjunctions, and the Japanese particles); each holds a
/// CJK character or is at least three bytes long; and every such cleaned
/// word is a keyword.
pub proof fn lemma_keywords_skip_common_words(ws: Seq<Seq<char>>)
    ensures
        ({
            let common: Seq<Seq<char>> = seq![
                "the"@, "a"@, "an"@, "and"@, "or"@, "but"@, "in"@, "on"@, "at"@, "to"@,
                "for"@, "with"@, "by"@, "from"@, "up"@, "about"@, "is"@, "are"@, "was"@,
                "were"@, "be"@, "been"@, "being"@, "have"@, "has"@, "had"@, "do"@, "does"@,
                "did"@, "will"@, "would"@, "could"@, "should"@, "may"@, "might"@, "must"@,
                "i"@, "you"@, "he"@, "she"@, "it"@, "we"@, "they"@, "me"@, "him"@, "her"@,
                "my"@, "your"@, "his"@, "its"@, "our"@, "their"@, "el"@, "la"@, "los"@,
                "las"@, "un"@, "una"@, "de"@, "en"@, "es"@, "y"@, "o"@, "le"@, "les"@,
                "une"@, "et"@, "est"@, "ou"@, "der"@, "die"@, "das"@, "ein"@, "eine"@,
                "und"@, "ist"@, "oder"@, "は"@, "が"@, "を"@, "に"@, "で"@, "と"@, "の"@,
                "も"@, "へ"@, "から"@,
            ];
            let cjk_or_long = |k: Seq<char>|
                encode_utf8(k).len() >= 3 || exists|c: int|
                    0 <= c < k.len() && ((0x4E00 <= #[trigger] (k[c] as u32) <= 0x9FFF) || (0x3040
                        <= k[c] as u32 <= 0x309F) || (0x30A0 <= k[c] as u32 <= 0x30FF) || (0xAC00
                        <= k[c] as u32 <= 0xD7AF));
            &&& forall|i: int|
                0 <= i < keywords_of(ws).len() ==> {
                    let k = #[trigger] keywords_of(ws)[i];
                    &&& k.len() > 0
                    &&& !common.contains(k)
                    &&& cjk_or_long(k)
                    &&& exists|j: int| 0 <= j < ws.len() && k == clean_word(#[trigger] ws[j])
                }
            &&& forall|j: int|
                0 <= j < ws.len() ==> {
                    let k = clean_word(#[trigger] ws[j]);
                    k.len() > 0 && !common.contains(k) && cjk_or_long(k) ==> keywords_of(
                        ws,
                    ).contains(k)
                }
        }),
{
    lemma_keywords_of_props(ws);
    let common: Seq<Seq<char>> = seq![
                "the"@, "a"@, "an"@, "and"@, "or"@, "but"@, "in"@, "on"@, "at"@, "to"@,
                "for"@, "with"@, "by"@, "from"@, "up"@, "about"@, "is"@, "are"@, "was"@,
                "were"@, "be"@, "been"@, "being"@, "have"@, "has"@, "had"@, "do"@, "does"@,
                "did"@, "will"@, "would"@, "could"@, "should"@, "may"@, "might"@, "must"@,
                "i"@, "you"@, "he"@, "she"@, "it"@, "we"@, "they"@, "me"@, "him"@, "her"@,
                "my"@, "your"@, "his"@, "its"@, "our"@, "their"@, "el"@, "la"@, "los"@,
                "las"@, "un"@, "una"@, "de"@, "en"@, "es"@, "y"@, "o"@, "le"@, "les"@,
                "une"@, "et"@, "est"@, "ou"@, "der"@, "die"@, "das"@, "ein"@, "eine"@,
                "und"@, "ist"@, "oder"@, "は"@, "が"@, "を"@, "に"@, "で"@, "と"@, "の"@,
                "も"@, "へ"@, "から"@,
            ];
    assert(common =~= stop_words());
}

fn has_cjk(v: &Vec<char>) -> (r: bool)
    ensures
        r == exists|i: int| 0 <= i < v@.len() && is_cjk(#[trigger] v@[i]),
{
    let mut i: usize = 0;
    while i < v.len()
        invariant
            i <= v.len(),
            forall|j: int| 0 <= j < i ==> !is_cjk(#[trigger] v@[j]),
        decreases v.len() - i,
    {
        let u = v[i] as u32;
        if (0x4E00 <= u && u <= 0x9FFF) || (0x3040 <= u && u <= 0x309F) || (0x30A0 <= u && u
            <= 0x30FF) || (0xAC00 <= u && u <= 0xD7AF) {
            return true;
        }
        i = i + 1;
    }
    false
}

fn is_stop_word(w: &str) -> (r: bool)
    ensures
        r == stop_words().contains(w@),
{
    let list: Vec<&str> = vec![
        "the", "a", "an", "and", "or", "but", "in", "on", "at", "to", "for",
        "with", "by", "from", "up", "about", "is", "are", "was", "were",
        "be", "been", "being", "have", "has", "had", "do", "does", "did",
        "will", "would", "could", "should", "may", "might", "must",
        "i", "you", "he", "she", "it", "we", "they", "me", "him", "her",
        "my", "your", "his", "its", "our", "their",
        "el", "la", "los", "las", "un", "una", "de", "en", "es", "y", "o",
        "le", "les", "une", "et", "est", "ou",
        "der", "die", "das", "ein", "eine", "und", "ist", "oder",
        "は", "が", "を", "に", "で", "と", "の", "も", "へ", "から",
    ];
    let ghost sw = list@.map_values(|s: &str| s@);
    assert(sw =~= stop_words());
    let mut i: usize = 0;
    while i < list.len()
        invariant
            i <= list.len(),
            sw == list@.map_values(|s: &str| s@),
            sw == stop_words(),
            forall|j: int| 0 <= j < i ==> #[trigger] sw[j] != w@,
        decreases list.len() - i,
    {
        if str_eq(list[i], w) {
            assert(sw[i as int] == w@);
            return true;
        }
        i = i + 1;
    }
    false
}

/// Extract keywords from text: its whitespace-separated words, trimmed of
/// non-alphanumeric characters and lowercased, that are neither empty nor
/// common short words and are either CJK or at least three bytes long.
pub fn extract_keywords(text: &str) -> (r: Vec<String>)
    ensures
        r@.map_values(|s: String| s@) == keywords_of(words(text@)),
{
    let chars = chars_of(text);
    let ws = split_words(&chars);
    let ghost wseq = pieces(ws@);
    let mut out: Vec<String> = Vec::new();
    let mut i: usize = 0;
    while i < ws.len()
        invariant
            i <= ws.len(),
            wseq == pieces(ws@),
            wseq == words(text@),
            out@.map_values(|s: String| s@) == keywords_of(wseq.take(i as int)),
        decreases ws.len() - i,
    {
        proof {
            assert(wseq.take(i + 1).drop_last() =~= wseq.take(i as int));
            assert(wseq.take(i + 1).last() == ws@[i as int]@);
        }
        let trimmed = trim_non_alphanumeric_chars(&ws[i]);
        let trimmed_text = string_of(&trimmed);
        let clean = to_lowercase(trimmed_text.as_str());
        let ghost cw = clean@;
        assert(cw == clean_word(ws@[i as int]@));
        let cv = chars_of(clean.as_str());
        let keep = cv.len() > 0 && !is_stop_word(clean.as_str()) && (has_cjk(&cv)
            || clean.as_str().as_bytes().len() >= 3);
        let ghost before = out@.map_values(|s: String| s@);
        if keep {
            out.push(clean);
            assert(out@.map_values(|s: String| s@) =~= before.push(cw));
        }
        i = i + 1;
    }
    assert(wseq.take(ws@.len() as int) =~= wseq);
    out
}

/// Why an input could not be analysed.
#[derive(Debug, Clone, Copy, PartialEq, Eq, Structural)]
pub enum IntentError {
    /// The input is empty or holds only whitespace
    EmptyInput,
}

impl IntentError {
    /// The error's message.
    pub fn message(&self) -> (r: String)
        ensures
            r@ == "Empty input"@,
    {
        "Empty input".to_owned()
    }
}

/// What the analysis of a player's input found.
#[derive(Debug, Clone)]
pub struct IntentAnalysis {
    /// Type of intent
    pub intent_type: IntentType,
    /// Keywords extracted from the input
    pub keywords: Vec<String>,
    /// The type was read from a language model's classification (rather
    /// than found by the rules), which earns it a higher confidence
    pub from_model: bool,
}

/// Whether `input` is empty or holds only whitespace.
pub fn is_blank(input: &str) -> (r: bool)
    ensures
        r == (trim_whitespace(input@).len() == 0),
{
    let v = chars_of(input);
    let t = trim_whitespace_chars(&v);
    t.len() == 0
}

/// The note added to the classification prompt for a language other than
/// English.
pub open spec fn language_note(language: Seq<char>) -> Seq<char> {
    if language != "en"@ {
        " (Note: Input may be in language code: "@ + language + ")"@
    } else {
        Seq::empty()
    }
}

/// The instructions that follow the quoted input in the classification
/// prompt.
pub open spec fn classification_instructions() -> Seq<char> {
    "\"\n\nRespond with ONLY ONE of these exact English words, nothing else: greeting, question, command, chat\nFor Non English inputs, first translate to English, then classify as one of those four.\n\n- greeting: if saying hello, hi, greetings, or similar\n- question: if asking something (contains ?, what, who, where, when, why, how)\n- command: if giving an order or request (follow me, attack, go, stop)\n- chat: if making a statement or general conversation\n\nIntent:"@
}

/// The prompt that asks a language model to classify `input`, written in
/// the language with code `language`.
pub open spec fn classification_prompt(input: Seq<char>, language: Seq<char>) -> Seq<char> {
    "Classify the intent of this message"@ + language_note(language) + ": \""@ + input
        + classification_instructions()
}

/// Build the prompt that asks a language model to classify `input`.
pub fn intent_prompt(input: &str, language: &str) -> (r: String)
    ensures
        r@ == classification_prompt(input@, language@),
{
    let mut prompt = String::new();
    prompt.append("Classify the intent of this message");
    if !str_eq(language, "en") {
        prompt.append(" (Note: Input may be in language code: ");
        prompt.append(language);
        prompt.append(")");
    }
    prompt.append(": \"");
    prompt.append(input);
    prompt.append(
        "\"\n\nRespond with ONLY ONE of these exact English words, nothing else: greeting, question, command, chat\nFor Non English inputs, first translate to English, then classify as one of those four.\n\n- greeting: if saying hello, hi, greetings, or similar\n- question: if asking something (contains ?, what, who, where, when, why, how)\n- command: if giving an order or request (follow me, attack, go, stop)\n- chat: if making a statement or general conversation\n\nIntent:",
    );
    prompt
}

/// The intent type a language model's reply names: the reply, trimmed of
/// whitespace, read as an intent name ignoring case.
pub open spec fn reply_intent(reply: Seq<char>) -> IntentType {
    intent_from_name(str_lowercase(trim_whitespace(reply)))
}

/// Read the intent type from a language model's reply to the
/// classification prompt.
pub fn intent_from_reply(reply: &str) -> (r: IntentType)
    ensures
        r == reply_intent(reply@),
{
    let v = chars_of(reply);
    let t = trim_whitespace_chars(&v);
    let trimmed = string_of(&t);
    IntentType::from_str(trimmed.as_str())
}

/// Analyse a player's input. `model_reply` is the language model's reply
/// to [`intent_prompt`] when a model was asked and answered; without one
/// the rules of [`classify_input`] decide. Blank input is refused.
pub fn analyze_input(input: &str, model_reply: Option<&str>) -> (r: Result<
    IntentAnalysis,
    IntentError,
>)
    ensures
        r is Err <==> trim_whitespace(input@).len() == 0,
        r matches Err(e) ==> e == IntentError::EmptyInput,
        r matches Ok(a) ==> {
            &&& a.keywords@.map_values(|s: String| s@) == keywords_of(words(input@))
            &&& a.from_model == (model_reply is Some)
            &&& a.intent_type == match model_reply {
                Some(reply) => reply_intent(reply@),
                None => classify(input@, str_lowercase(input@)),
            }
        },
{
    if is_blank(input) {
        return Err(IntentError::EmptyInput);
    }
    let keywords = extract_keywords(input);
    match model_reply {
        Some(reply) => Ok(
            IntentAnalysis { intent_type: intent_from_reply(reply), keywords, from_model: true },
        ),
        None => Ok(
            IntentAnalysis { intent_type: classify_input(input), keywords, from_model: false },
        ),
    }
}

} // verus!
