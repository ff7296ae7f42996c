# rqmd

Hybrid search for markdown on your own machine: full-text search, vector search and reranking by
local language models. The library holds the rules of the program, each with a contract that Verus
proves.

## Layout

- `src/text`: characters, numbers, searching in text.
- `src/cli.rs`, `src/commands`, `src/output.rs`, `src/search_view.rs`: what the subcommands decide
  and what they write.
- `src/collection_filter.rs`, `src/collections.rs`, `src/paths.rs`, `src/state.rs`: which
  collections and which files.
- `src/llm`: models, prompts, sessions, workers, and the life of the model handle.
- `src/rqmd_store.rs`, `src/doctor.rs`: searching and upkeep of an open index.
- `src/bench`: scores of labelled queries.
- `tests`: the library from outside.
- `app`: the program around the library. Everything that touches the disk, a database, a terminal
  or a floating-point number is there.

## Scores

Scores are floating point. The library takes them by their bits, compares them as IEEE 754 does,
and writes them as they are handed over; benchmark scores are exact fractions.
