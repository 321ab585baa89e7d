# toolcall

A verified library that finds tool calls in the output of language models, and shapes and
records the responses they appear in.

- `base_json_parser`, `json_calls`, `json_repair`, `json`, `frames`, `text`: parsing of tool
  calls that models write as JSON, and detection of their start in a stream.
- `config`, `structural_tag`: the formats of the model families.
- `delta`, `nvext`, `protocol`, `tracker`: the chunks of a streamed chat response.
- `finish_metadata`, `trace`, `tool_events`: what is recorded of requests of agents.
- `capture`, `response`: feeding captured output to the parsers.

`src/` is the library, every item of which is checked by Verus. `tests/` runs it on values.
`app/` holds what surrounds it: serialization of the configuration, shared state, logging, the
Python module and the asynchronous loops.
