# NoEnding

Conversations end. Context doesn't.

NoEnding gathers the sessions of several coding agents on one machine and keeps, for each line of
work, a context that outlives them. This project is its core as a Verus library: what is read out
of the files that agents leave behind, what becomes of it, and what is told to an agent. Every
function states what it returns and is proved to.

## Layout

| Where | What |
|---|---|
| `src/adapters/` | One module per agent: which files are its own, which sessions they hold, which messages, and the command lines that start it. `reader.rs` reads only what is new, `fingerprint.rs` tells formats apart, `discovery.rs` looks through files, `laws.rs` relates one reading to the next. |
| `src/agent_runtime/` | What can be overridden for an agent, and the models it offers. |
| `src/assistant/` | The assistant: what it is told, and which actions it may propose. |
| `src/commands/` | What the user interface asks for: sessions, workstreams, projects, launches, ingestion. |
| `src/context/` | The context of sessions and workstreams: what is pending, what a prompt holds, and what an answer changes. |
| `src/context_eval/` | The quality corpus: fixtures, checks, baselines, reports. |
| `src/store.rs` | The rows that the rest works on. |
| `src/text.rs`, `src/json.rs`, `src/bytes.rs`, `src/time.rs`, `src/paths.rs` | Text, documents, bytes, time, file names. |
| `tests/` | Scenarios, with the outside crates linked. |
| `app/` | `context-eval`, and what else surrounds the library: files, databases, processes, the loop that asks an agent, and printing. |

## How to read a contract

Types that hold strings have a twin over mathematical sequences, which `deep_view` gives. A
contract says which twin comes back, as a spec function of the twins that went in. Where several
functions promise something together, a public proof function states it; such functions stand at
the end of a module or in a `laws.rs`.

## What is believed

Calls into other crates stand behind small functions whose contracts are believed: `serde_json`
for documents, `chrono` for dates, `sha2` for fingerprints, `zstd` for compressed transcripts,
`uuid` for ids, and a few functions of the standard library. Where the result takes pages to
state, it has a name, and what follows is proved for whatever that name stands for.

Reading files and databases, running programs and knowing the time are left to `app/`, which
hands over plain values. The engine that finds changes in a conversation and merges them is a
program of its own; `app/` asks it, and the library judges what it says.
