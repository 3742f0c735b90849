# helios_engine

A framework for LLM-powered agents: chat sessions, agents that call tools,
a forest of collaborating agents with shared context and task plans, a tool
builder, retrieval-augmented generation over a document store, and a set of
built-in tools (files, JSON, timestamps, text processing, HTTP, shell, system
information, an in-memory key-value store).

## Layout

- `src/` is the library, written in Verus. Every function carries a contract
  stated over mathematical models (`Seq`, `Map`, spec functions and views) and
  is proved against it. Each decision of the agents and tools is made here:
  what a tool reads from its arguments and what it answers, how a turn of an
  agent proceeds, how a collaborative task advances, how a streamed reply is
  split and assembled.
- `app/` is the command-line program around the library: it talks to the
  language model over HTTP, reads configuration files, touches the file system,
  runs processes, and computes what needs floating point (similarity scores,
  arithmetic of the calculator). It hands the library plain values and
  performs what the library decides.
- `tests/` exercises the library from outside.

Local models are not available in this build: the program answers a request
for the offline mode with an error, since the llama.cpp and candle backends are
not among its dependencies. The library still holds what is decided around
them (prompt formats, greedy decoding, the response), verified, for when a
backend is linked.

The library calls a few outside crates through trusted items whose contracts
are stated where they are declared: `chrono` (times and their formats),
`regex` (regular expressions) and `uuid` (identifiers).
