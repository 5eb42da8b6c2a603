# my_claw

The rules of a lightweight agent that reads code bases, prepares technical
interviews from them and publishes what it writes. The library holds everything
that is decided or computed; it is verified with Verus. The program around it
does the input and output.

## The library (`src/`)

- `text`, `order`, `keyed`, `paths`: texts, stable orders, entries under keys and
  paths.
- `json`, `encoding`, `patterns`: values of `serde_json`, Base64, and patterns for
  texts and paths.
- `agents`, `config`, `cli`, `ask`: the two agents, the settings, the commands, and
  where sessions are kept.
- `compact`: when a conversation is compacted, and how its summary is made.
- `runtime`: the loop of model and tools.
- `llm`: requests to the model, the prompt cache, token counts and sessions.
- `tools`: the registry and the tools themselves.
- `web`: what is shown of a conversation, turns that run and are cancelled, and
  the course of an interview.

Each function says in its contract what it returns on every input. What holds
across several of them stands as public proof functions, whose names begin with
`lemma_`.

Calls of other crates stand in small functions whose contracts are believed, not
proved. Their comments say which function is called and what is claimed of it.

## The program (`app/`)

Commands, files, processes, the network and the web server. It asks the library
what to do, does it, and hands back what came of it.

## Tests (`tests/`)

The tests run the library together with the crates that it calls.
