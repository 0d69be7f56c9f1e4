# agentrust

A coding agent for the terminal. `src/` is the verified library: everything the agent decides
or computes. `app/` is the program around it: the command line, files, the network, the
terminal and the async runtime.

| Modules | What they hold |
| --- | --- |
| `text`, `json`, `ids`, `error`, `creds` | strings, JSON values, identifiers, errors, keys |
| `model`, `messages`, `request`, `stream` | models and usage, the conversation, requests, server-sent events |
| `anthropic`, `openai`, `provider` | request bodies, stream parsers, the registry of providers and the settings file |
| `state`, `tools`, `builtins`, `agent_loop` | the tool registry, the built-in tools, the loop of turns and tool calls |
| `entry`, `journal`, `context`, `compaction`, `bus`, `session` | the journal of a session, its context and budget, hooks and events |
| `setup`, `headless`, `rpc`, `tui`, `tui_view` | the front ends |

Each function's contract says what it returns for every input it takes. The public proof
functions at the end of most modules state what holds of several functions together. What
`serde_json`, `dashmap`, `bytes` and the standard library do is stated where they are called,
in the functions marked `external_body` and in the two `assume_specification` items of `text`.
