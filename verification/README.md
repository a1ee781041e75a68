# oxyde

Building blocks for AI-driven game NPCs, written in Verus. The functions in
`src/` carry contracts that the verifier proves, except the few marked
`#[verifier::external_body]`: thin calls into std and `rand` (the
clock, random numbers, lowercase mapping, alphanumeric characters, appending
a character) whose contracts are trusted as those crates document them.

## Layout

- `src/` — the verified library.
  - `agent` — agent states and events, and the decisions of a turn: which
    behavior answers a player, when the inference engine must, what is
    remembered and reported.
  - `intent` — intent types, rule-based classification, keyword extraction,
    and the reading of a language model's classification.
  - `behavior`, `dialogue`, `strategy` — what behaviors answer and match, and
    how a strategy selects among them.
  - `memory`, `memory_store` — memory categories, the word counts relevance is
    made of, and the store that decides what is kept, displaced, forgotten and
    recalled.
  - `emotion` — the primary emotions and their opposites.
  - `prompts`, `str_map` — prompt templates and how they are filled in.
  - `inference` — provider choice and setup, chat messages and responses.
  - `audio` — the size-bounded LRU cache of synthesised speech.
  - `study` — scoring helpers of the behavior selection study.
  - `deploy` — engine integration sources written by the deployment tool.
  - `text`, `utils`, `config`, `bindings`, `game` — text primitives,
    identifiers and truncation, configuration defaults and formats, and
    shared data types.
- `tests/` — tests of the library.
- `app/` — the SDK around the library: configuration files, the async agent,
  the memory system, the inference engine's network calls, emotional state
  arithmetic and voice profiles.
