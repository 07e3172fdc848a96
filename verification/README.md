# llm_panel

The rules of a panel for running language models on one's own machine, written in
[Verus](https://github.com/verus-lang/verus) with what they do stated and proved.

- `src/providers` tells which runtimes are there and which models they have: names in the
  forms of Ollama, MLX, llama.cpp, Docker Model Runner, LM Studio, vLLM and RamaLama are
  matched against those of the hub.
- `src/estimate.rs`, `src/fit.rs`, `src/context_fit.rs` and `src/fit_request.rs` work out how
  much memory a model takes, how well it fits a card, and which context fits.
- `src/hf.rs`, `src/catalog.rs`, `src/pull.rs` and `src/gguf.rs` read what the hub and model
  files tell.
- `src/gateway` reads requests, decides who may ask, finds the server for a model and writes
  the heads of answers.
- `src/servers.rs`, `src/settings.rs`, `src/library.rs`, `src/library_change.rs`,
  `src/memory.rs`, `src/env.rs`, `src/scripts.rs`, `src/share.rs`, `src/tools.rs` and
  `src/update.rs` are the rules of the panel itself.
- `src/text.rs`, `src/text_map.rs`, `src/names.rs`, `src/numeral.rs`, `src/double.rs`,
  `src/json.rs` and `src/paths.rs` are what the others are built on.
- `src/outside.rs` holds the calls into other crates, with what is taken for granted of them.

Amounts are whole numbers: memory is counted in 256ths of a byte, shares in ten-thousandths,
parameters in millions and speeds in millionths of a token per second.

`app` asks servers, reads directories, runs scripts and serves the gateway; `tests` runs the
library.
