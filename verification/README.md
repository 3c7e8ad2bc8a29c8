# llamacpp_manager

A local manager for llama.cpp servers: it installs llama.cpp builds from
GitHub releases, finds and downloads GGUF models on HuggingFace, keeps
launch presets, and runs one supervised `llama-server`.

The library in `src/` is written in Verus and verified: every public
function but the methods of the shared cancellation flag states what it
returns in its contract, and the laws that tie functions together are
proof functions. Calls into std and `shlex` stand behind a few trusted
wrappers, each documented with what its contract claims.

- `gguf` — the GGUF header format as a specification, the reader proved
  against it, and the integer part of the memory estimate.
- `github`, `builds` — release assets, their classification into builds,
  build directories, the installed list, the release cache and its policy.
- `huggingface`, `download` — URLs, file selection, quantisation names, and
  the decisions of a resumable download.
- `process_mgr` — the launch command line, the checks before a launch, the
  readiness probe, the captured output, and the supervisor state machine
  with automatic restarts.
- `params`, `presets`, `logger`, `vram`, `meminfo`, `ui`, `theme`,
  `config` — parameter choices and their arguments, presets and their
  names, the journal and its level filter, memory totals, the restart
  settings, and what the screens show.
- `text`, `order`, `paths` — shared text operations.

`app/` is the command-line program around the library: HTTP, files,
processes, threads, JSON and time.
