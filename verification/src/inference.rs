//! The decisions of the inference layer: which provider serves a request,
//! what it needs from the configuration, and how requests and responses are
//! worded. Talking to a model or an API is left to the caller.
use vstd::prelude::*;
use vstd::string::StringExecFns;

use crate::intent::count_words;
use crate::prompts::{join_lines, join_with_newlines, texts};
use crate::text::{contains_seq, contains_str, str_eq, word_count};

verus! {

/// Inference provider types
#[derive(Debug, Clone, Copy, PartialEq, Eq, Structural)]
pub enum ProviderType {
    /// Local model inference
    Local,
    /// Cloud API inference
    Cloud,
}

/// Response from the inference engine
#[derive(Debug)]
pub struct InferenceResponse {
    /// Generated text
    pub text: String,
    /// Time taken for inference in milliseconds
    pub time_ms: u64,
    /// Provider name or identifier
    pub provider_name: String,
    /// Tokens generated
    pub tokens: usize,
}

/// Local model inference provider
#[derive(Debug)]
pub struct LocalInferenceProvider {
    model_path: String,
}

/// Cloud API inference provider
#[derive(Debug)]
pub struct CloudInferenceProvider {
    api_endpoint: String,
    api_key: String,
}

/// Why a provider cannot serve requests with the given configuration.
#[derive(Debug, Clone, Copy, PartialEq, Eq, Structural)]
pub enum ProviderSetupError {
    /// Local inference without a model path
    NoLocalModelPath,
    /// Cloud inference without an endpoint
    NoApiEndpoint,
    /// Cloud inference without a key, neither configured nor in the environment
    NoApiKey,
}

/// A provider ready to serve requests.
#[derive(Debug)]
pub enum ResolvedProvider {
    /// The local model at a path
    Local(LocalInferenceProvider),
    /// A cloud API at an endpoint, with its key
    Cloud(CloudInferenceProvider),
}

/// The message of a setup error.
pub open spec fn setup_error_message(e: ProviderSetupError) -> Seq<char> {
    match e {
        ProviderSetupError::NoLocalModelPath => "No local model path configured"@,
        ProviderSetupError::NoApiEndpoint => "No API endpoint configured"@,
        ProviderSetupError::NoApiKey =>
            "No API key configured. Set OXYDE_API_KEY environment variable or configure in InferenceConfig"@,
    }
}

/// The text of a simulated local response.
pub open spec fn simulated_text(input: Seq<char>) -> Seq<char> {
    "This is a simulated response to: "@ + input
}

/// The instruction appended to the system prompt for a response language
/// other than English.
pub open spec fn language_instruction_text(lang: Seq<char>) -> Seq<char> {
    if lang == "es"@ {
        "Respond in Spanish."@
    } else if lang == "ja"@ {
        "Respond in Japanese (日本語で回答してください)."@
    } else if lang == "fr"@ {
        "Respond in French."@
    } else if lang == "zh"@ {
        "Respond in Chinese (用中文回答)."@
    } else if lang == "de"@ {
        "Respond in German."@
    } else if lang == "ru"@ {
        "Respond in Russian (Ответьте на русском языке)."@
    } else {
        "Respond in language code: "@ + lang
    }
}

/// The system message sent to a cloud API: the system prompt, followed by
/// the language instruction unless the language is English.
pub open spec fn system_message_text(system_prompt: Seq<char>, lang: Seq<char>) -> Seq<char> {
    if lang == "en"@ {
        system_prompt
    } else {
        system_prompt + "\n\n"@ + language_instruction_text(lang)
    }
}

impl ProviderSetupError {
    /// The message of this error.
    pub fn message(&self) -> (r: &'static str)
        ensures
            r@ == setup_error_message(*self),
    {
        match self {
            ProviderSetupError::NoLocalModelPath => "No local model path configured",
            ProviderSetupError::NoApiEndpoint => "No API endpoint configured",
            ProviderSetupError::NoApiKey =>
                "No API key configured. Set OXYDE_API_KEY environment variable or configure in InferenceConfig",
        }
    }
}

impl LocalInferenceProvider {
    /// A provider for the local model at `model_path`.
    pub fn new(model_path: String) -> (r: LocalInferenceProvider)
        ensures
            r.model_path_view() == model_path@,
    {
        LocalInferenceProvider { model_path }
    }

    /// The model's path.
    pub closed spec fn model_path_view(&self) -> Seq<char> {
        self.model_path@
    }

    /// The model's path.
    pub fn model_path(&self) -> (r: &str)
        ensures
            r@ == self.model_path_view(),
    {
        self.model_path.as_str()
    }

    /// The response of the local provider to `input`, generation having
    /// taken `elapsed_ms` milliseconds.
    pub fn respond(&self, input: &str, elapsed_ms: u64) -> (r: InferenceResponse)
        ensures
            r.text@ == simulated_text(input@),
            r.time_ms == elapsed_ms,
            r.provider_name@ == "local"@,
            r.tokens == word_count(simulated_text(input@)),
    {
        let mut text = "This is a simulated response to: ".to_owned();
        text.append(input);
        let tokens = count_words(text.as_str());
        InferenceResponse { text, time_ms: elapsed_ms, provider_name: "local".to_owned(), tokens }
    }
}

impl CloudInferenceProvider {
    /// A provider for the API at `api_endpoint`, authenticated by `api_key`.
    pub fn new(api_endpoint: String, api_key: String) -> (r: CloudInferenceProvider)
        ensures
            r.endpoint_view() == api_endpoint@,
            r.key_view() == api_key@,
    {
        CloudInferenceProvider { api_endpoint, api_key }
    }

    /// The API endpoint.
    pub closed spec fn endpoint_view(&self) -> Seq<char> {
        self.api_endpoint@
    }

    /// The API key.
    pub closed spec fn key_view(&self) -> Seq<char> {
        self.api_key@
    }

    /// The API endpoint.
    pub fn api_endpoint(&self) -> (r: &str)
        ensures
            r@ == self.endpoint_view(),
    {
        self.api_endpoint.as_str()
    }

    /// The API key.
    pub fn api_key(&self) -> (r: &str)
        ensures
            r@ == self.key_view(),
    {
        self.api_key.as_str()
    }

    /// The model requested from the API: an OpenAI model for OpenAI
    /// endpoints, a Llama model otherwise.
    pub fn model_name(&self) -> (r: &'static str)
        ensures
            r@ == if contains_seq(self.endpoint_view(), "openai"@) {
                "gpt-3.5-turbo"@
            } else {
                "llama-2-7b"@
            },
    {
        if contains_str(self.api_endpoint.as_str(), "openai") {
            "gpt-3.5-turbo"
        } else {
            "llama-2-7b"
        }
    }

    /// The response of the API, given the text it returned and how long
    /// the call took.
    pub fn respond(&self, text: String, elapsed_ms: u64) -> (r: InferenceResponse)
        ensures
            r.text@ == text@,
            r.time_ms == elapsed_ms,
            r.provider_name@ == "cloud"@,
            r.tokens == word_count(text@),
    {
        let tokens = count_words(text.as_str());
        InferenceResponse { text, time_ms: elapsed_ms, provider_name: "cloud".to_owned(), tokens }
    }
}

/// The instruction appended to the system prompt for a response language
/// other than English.
pub fn language_instruction(lang: &str) -> (r: String)
    ensures
        r@ == language_instruction_text(lang@),
{
    if str_eq(lang, "es") {
        "Respond in Spanish.".to_owned()
    } else if str_eq(lang, "ja") {
        "Respond in Japanese (日本語で回答してください).".to_owned()
    } else if str_eq(lang, "fr") {
        "Respond in French.".to_owned()
    } else if str_eq(lang, "zh") {
        "Respond in Chinese (用中文回答).".to_owned()
    } else if str_eq(lang, "de") {
        "Respond in German.".to_owned()
    } else if str_eq(lang, "ru") {
        "Respond in Russian (Ответьте на русском языке).".to_owned()
    } else {
        let mut r = "Respond in language code: ".to_owned();
        r.append(lang);
        r
    }
}

/// The system message sent to a cloud API for a response language.
pub fn system_message(system_prompt: &str, lang: &str) -> (r: String)
    ensures
        r@ == system_message_text(system_prompt@, lang@),
{
    let mut r = system_prompt.to_owned();
    if !str_eq(lang, "en") {
        r.append("\n\n");
        let instruction = language_instruction(lang);
        r.append(instruction.as_str());
    }
    r
}

/// The provider an engine starts with.
pub fn initial_provider(use_local: bool) -> (r: ProviderType)
    ensures
        r == if use_local {
            ProviderType::Local
        } else {
            ProviderType::Cloud
        },
{
    if use_local {
        ProviderType::Local
    } else {
        ProviderType::Cloud
    }
}

/// The provider of the other kind.
pub open spec fn other_provider(p: ProviderType) -> ProviderType {
    match p {
        ProviderType::Local => ProviderType::Cloud,
        ProviderType::Cloud => ProviderType::Local,
    }
}

/// A failing provider falls back on the other kind, and a failing fallback
/// on the first kind again: falling back twice returns to the start.
pub proof fn lemma_fallback_alternates(p: ProviderType)
    ensures
        other_provider(p) != p,
        other_provider(other_provider(p)) == p,
{
}

/// The provider tried when the other one fails.
pub fn fallback_provider(p: ProviderType) -> (r: ProviderType)
    ensures
        r == other_provider(p),
{
    match p {
        ProviderType::Local => ProviderType::Cloud,
        ProviderType::Cloud => ProviderType::Local,
    }
}

/// The provider to try again with after a request to `current` ended:
/// the other kind, where the request failed and a fallback API is
/// configured; else none, and the outcome stands.
pub fn retry_provider(current: ProviderType, request_failed: bool, fallback_configured: bool) -> (r:
    Option<ProviderType>)
    ensures
        r == if request_failed && fallback_configured {
            Some(other_provider(current))
        } else {
            None
        },
{
    if request_failed && fallback_configured {
        Some(fallback_provider(current))
    } else {
        None
    }
}

/// Prepares the provider of a type from the configuration: a local model
/// needs its path; a cloud API needs its endpoint and a key, the configured
/// one or else the one from the environment.
pub fn resolve_provider(
    provider: ProviderType,
    local_model_path: &Option<String>,
    api_endpoint: &Option<String>,
    api_key: &Option<String>,
    env_api_key: &Option<String>,
) -> (r: Result<ResolvedProvider, ProviderSetupError>)
    ensures
        match provider {
            ProviderType::Local => match local_model_path {
                Some(p) => r matches Ok(ResolvedProvider::Local(l)) && l.model_path_view() == p@,
                None => r == Err::<ResolvedProvider, _>(ProviderSetupError::NoLocalModelPath),
            },
            ProviderType::Cloud => match api_endpoint {
                None => r == Err::<ResolvedProvider, _>(ProviderSetupError::NoApiEndpoint),
                Some(e) => match (api_key, env_api_key) {
                    (Some(k), _) => r matches Ok(ResolvedProvider::Cloud(c)) && c.endpoint_view()
                        == e@ && c.key_view() == k@,
                    (None, Some(k)) => r matches Ok(ResolvedProvider::Cloud(c))
                        && c.endpoint_view() == e@ && c.key_view() == k@,
                    (None, None) => r == Err::<ResolvedProvider, _>(ProviderSetupError::NoApiKey),
                },
            },
        },
{
    match provider {
        ProviderType::Local => match local_model_path {
            Some(p) => Ok(ResolvedProvider::Local(LocalInferenceProvider::new(p.clone()))),
            None => Err(ProviderSetupError::NoLocalModelPath),
        },
        ProviderType::Cloud => match api_endpoint {
            None => Err(ProviderSetupError::NoApiEndpoint),
            Some(e) => {
                let key = match api_key {
                    Some(k) => Some(k.clone()),
                    None => match env_api_key {
                        Some(k) => Some(k.clone()),
                        None => None,
                    },
                };
                match key {
                    Some(k) => Ok(
                        ResolvedProvider::Cloud(CloudInferenceProvider::new(e.clone(), k)),
                    ),
                    None => Err(ProviderSetupError::NoApiKey),
                }
            },
        },
    }
}

/// One message of a chat request to a cloud API.
#[derive(Debug, Clone)]
pub struct ChatMessage {
    /// Who speaks: `system` or `user`
    pub role: String,
    /// What is said
    pub content: String,
}

/// Each memory's content as an item of a list: `- ` and the content.
pub open spec fn context_items(contents: Seq<Seq<char>>) -> Seq<Seq<char>> {
    contents.map_values(|c: Seq<char>| "- "@ + c)
}

/// The messages of a chat request, as (role, content) pairs: the system
/// message; when there is memory context, a system message listing the
/// relevant memories and one holding the memory context; then the player's
/// input from the user.
pub open spec fn chat_messages(
    system_prompt: Seq<char>,
    memory_contents: Seq<Seq<char>>,
    memory_context: Seq<char>,
    lang: Seq<char>,
    input: Seq<char>,
) -> Seq<(Seq<char>, Seq<char>)> {
    let context = if memory_context.len() > 0 {
        seq![
            ("system"@, "Relevant context:\n"@ + join_lines(context_items(memory_contents))),
            ("system"@, memory_context),
        ]
    } else {
        Seq::empty()
    };
    seq![("system"@, system_message_text(system_prompt, lang))] + context + seq![("user"@, input)]
}

/// The prompt given to a local model: the system prompt, the memory
/// context when there is one, and the player's input for the assistant to
/// answer.
pub open spec fn local_prompt_text(
    system_prompt: Seq<char>,
    memory_context: Seq<char>,
    input: Seq<char>,
) -> Seq<char> {
    let context = if memory_context.len() > 0 {
        memory_context + "\n\n"@
    } else {
        Seq::empty()
    };
    system_prompt + "\n\n"@ + context + "User: "@ + input + "\nAssistant: "@
}

fn message(role: &str, content: String) -> (r: ChatMessage)
    ensures
        r.role@ == role@,
        r.content@ == content@,
{
    ChatMessage { role: role.to_owned(), content }
}

/// Build the messages of a chat request to a cloud API from the system
/// prompt, the contents of the relevant memories, the memory context, the
/// response language and the player's input.
pub fn cloud_messages(
    system_prompt: &str,
    memory_contents: &Vec<String>,
    memory_context: &str,
    lang: &str,
    input: &str,
) -> (r: Vec<ChatMessage>)
    ensures
        r@.map_values(|m: ChatMessage| (m.role@, m.content@)) == chat_messages(
            system_prompt@,
            texts(memory_contents@),
            memory_context@,
            lang@,
            input@,
        ),
{
    let ghost expected = chat_messages(
        system_prompt@,
        texts(memory_contents@),
        memory_context@,
        lang@,
        input@,
    );
    let mut messages: Vec<ChatMessage> = Vec::new();
    messages.push(message("system", system_message(system_prompt, lang)));
    if !memory_context.is_empty() {
        let mut items: Vec<String> = Vec::new();
        let mut i: usize = 0;
        while i < memory_contents.len()
            invariant
                i <= memory_contents.len(),
                texts(items@) == context_items(texts(memory_contents@.take(i as int))),
            decreases memory_contents.len() - i,
        {
            let mut item = "- ".to_owned();
            item.append(memory_contents[i].as_str());
            let ghost before = items@;
            items.push(item);
            proof {
                assert(memory_contents@.take(i + 1) =~= memory_contents@.take(i as int).push(
                    memory_contents@[i as int],
                ));
                assert(texts(items@) =~= texts(before).push(item@));
                assert(texts(items@) =~= context_items(texts(memory_contents@.take(i + 1))));
            }
            i = i + 1;
        }
        assert(memory_contents@.take(memory_contents@.len() as int) =~= memory_contents@);
        let mut listing = "Relevant context:\n".to_owned();
        let joined = join_with_newlines(items.as_slice());
        listing.append(joined.as_str());
        messages.push(message("system", listing));
        messages.push(message("system", memory_context.to_owned()));
    }
    messages.push(message("user", input.to_owned()));
    assert(messages@.map_values(|m: ChatMessage| (m.role@, m.content@)) =~= expected);
    messages
}

/// Build the prompt given to a local model.
pub fn local_prompt(system_prompt: &str, memory_context: &str, input: &str) -> (r: String)
    ensures
        r@ == local_prompt_text(system_prompt@, memory_context@, input@),
{
    let mut prompt = system_prompt.to_owned();
    prompt.append("\n\n");
    if !memory_context.is_empty() {
        prompt.append(memory_context);
        prompt.append("\n\n");
    }
    prompt.append("User: ");
    prompt.append(input);
    prompt.append("\nAssistant: ");
    prompt
}

} // verus!
