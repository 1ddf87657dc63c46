# pi_agent

The core of an agent that works with language models:

- `providers`: what a request to the Anthropic Messages API, the OpenAI
  Responses API and the Google Gemini API holds, what the events of their
  answers mean, and how a request is shown in a log without its secrets;
- `agent`: the loop in which a model is asked, its tool calls are permitted and
  run, and their results go back to it, turn by turn;
- `json`, `headers`, `text`, `types`: what the two are made of.

The library does no I/O. Every function states what it returns, and Verus proves
it; `agent/laws.rs` and the `law_` functions of the other modules say what holds
of whole streams and whole runs. The functions of `serde_json` that it calls are
named in `json.rs`, each with what is relied on.

`app/` carries the library's decisions out: it sends the requests, reads the
streams and runs the tools. Prices and temperatures are floating-point numbers
and stay there.

## Logs

`PI_AI_DEBUG_PROVIDER_REQUEST=1` shows each request to a provider;
`PI_AI_DEBUG_PROVIDER_REQUEST=2` shows what the model is asked in each turn.
