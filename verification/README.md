# llamachat

A verified library for running local language models: it rates which
models a machine can run, drives a chat with tool calls and permission
prompts, lets an agent use the desktop, reads web pages safely, keeps
conversations as markdown, and draws the terminal UI's state. The
library's own functions carry contracts that Verus proves. Calls into
outside crates (`serde_json`, `image`, `base64`, `dirs`) and a few `std`
functions go through small wrappers marked `#[verifier::external_body]`:
their contracts, where they have any, are believed, not proved, and each
one's doc comment says what it claims.

## Layout

- `src/` — the library, one module per concern:
  - `text`, `json` — character-level helpers and the JSON lookups (through
    `serde_json`) the rest reads tool arguments with.
  - `types`, `settings`, `ollama`, `recommend`, `hardware`, `bench` — tiers
    and modes, settings files, installed-model resolution, memory fit, quant
    choice and rating text, reading what GPU probes print, and the order
    and progress of benchmark runs.
  - `tools`, `web`, `chat`, `agent`, `computer`, `computer_use`, `control`,
    `vision` — the tools a model may call, the safety gate in front of them,
    the chat and agent state machines, desktop actions and their input
    events, and image preparation.
  - `memory`, `history`, `markdown`, `render`, `design`, `progress`, `tui` —
    saved conversations and their listing order, the transcript's markdown, text layout, terminal styling,
    progress lines and the terminal UI's reducer.
- `tests/` — unit and scenario tests run against the compiled library.
- `app/` — the `llamachat` command: terminal UI, chat, tools, web, GPU
  probes, model downloads and X11 desktop input. It does the I/O and hands
  every decision to the library.
