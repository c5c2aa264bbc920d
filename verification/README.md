# tetanus

The logic of the `tetanus` command line and of its Agent Client Protocol
bridge, written in Verus.

- `src/` is the library. Every item in it is verified: what a turn reads as,
  what a failure says and which status it exits with, what a key does to a
  view, what a peer's frame is answered by.
- `tests/` runs the library on concrete values.
- `app/` is the program around it: arguments, terminal, processes and sockets.
  It asks the library what to do next, does it, and says what came of it.

## Modules

| Module | What it decides |
| --- | --- |
| `command`, `run`, `chat` | the steps of each subcommand, from what the last one came to |
| `settings`, `prompt`, `journal`, `mcp` | what a run is made on, and why it cannot be |
| `rpc`, `event`, `json`, `text`, `paint`, `input` | the values everything else speaks of |
| `carrier` | the protocol over plain HTTP |
| `acp` | one Agent Client Protocol connection, from either end |
| `render` | rows, pages and screens, before a terminal folds them |

What a text measures on a terminal, and how it is cut, folded and coloured, is
the terminal's. The library says how much room there is, and finishes a row
with what came back.

## What is taken on trust

`serde_json` is called through the wrappers in `json`, and a few functions of
the standard library through those in `text` and `render::figures`. Each says
above it what is claimed of the function it calls.
