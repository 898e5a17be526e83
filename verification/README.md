# shadowlearn

The decision logic of an ambient desktop assistant that watches what the
user is doing (active application, idle time, clipboard, screen changes,
repeated actions) and offers help at the right moment, written in Verus and
proved against its contracts.

## Layout

- `src/`: the verified library. Each module states its behaviour in
  `requires`/`ensures` over mathematical models (`Seq`, `Map`, integers) and
  proves it; laws that relate several functions are public proof functions
  (`lemma_*`).
  - feature flags and their dependencies (`features`), configuration
    (`config`), health monitoring (`health`), pause mode (`pause`), focus
    mode (`focus`), flow state (`flow`), daily digest (`digest`);
  - context capture: active application cache, idle time, clipboard
    (`context`), file events and code smells (`detection`), screen samples
    and the adaptive capture cache (`monitor`, `smart_cache`);
  - intents: heuristics, cache keys and answer cleaning (`intent`), the
    detector's LRU cache and statistics (`intent_detector`), the chat retry
    protocol and slash commands (`chat`), adaptive prompts (`adaptive`),
    artefact fallbacks and counts (`artefact`);
  - learning from use: clustering of context fingerprints (`clustering`),
    workflow patterns (`patterns`, `pattern_learner`), repeated tasks
    (`repetition`), personalisation (`ml`), workflow recording and
    tutorials (`learn`), feedback counts (`learning`).
- `app/`: ordinary Rust around the library: files, environment variables,
  the operating system, JSON payloads, language-model calls, and the scores
  computed in floating point.
- `tests/`: tests of the library's public API.

Times are integers (seconds or milliseconds since the epoch) passed in by
the caller; functions that read the clock themselves state what holds for
every reading. Confidences and ratios are whole percents or exact fractions.
