# lm_agent

A verified library for a retrieval-augmented language-model agent: the agent loops'
decisions, the prompts, the parsing of model replies, the conversation timeline and its
summaries, the TF-IDF vocabulary with its pruning, the input side of dense embeddings, the
document reader's admission rules, and the layout of the terminal chat pane. Verus proves
the functions of `src/` against their contracts; the few that call outside crates or std
functions without a specification (the tokenizer, the stemmer, the expression evaluator,
std's sort, the clock and the random run id) are wrappers whose contracts are trusted, and
their doc comments say what is claimed.

Layout:

- `src/text.rs`, `src/term_map.rs`, `src/term_counts.rs`, `src/nlp.rs`: string helpers,
  a term map that keeps its insertion order, token counting, and the tokenizer's calls into
  `unicode-segmentation` and `rust-stemmers`.
- `src/orchestrator/`: the cascade's prompts and reply types, the sparse TF-IDF vocabulary
  (counting, pruning and the laws about them), and document splitting.
- `src/worker/`: the agents (ReAct loop, cascade stages, thinking agent), tools, timeline,
  summaries, configuration and embedding inputs.
- `src/tui/`: which files are read as documents, and how the chat pane is laid out.
- `app/`: what stays outside the proofs: command line and environment, JSON and JSON
  schema, floating-point embedding arithmetic, file-system walking, the loops that call a
  language model, and drawing with `ratatui`.
- `tests/`: scenario tests run against the compiled library.
