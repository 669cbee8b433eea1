# memory_server

The verified core of a conversational memory service. A chat model extracts
facts from user messages; events and states are kept in a Neo4j graph, the
messages of each session in Redis.

- `src/` is the library, verified with Verus:
  - `text`: white space, trimming, substring search, lines and joins over
    `Seq<char>`;
  - `llm`: what is kept of a model reply, and how a generated reply becomes
    a bare Cypher query;
  - `neo4j`: the statements that store extracted facts, the rule that
    lets a query run only when it starts with `MATCH` or `RETURN` and holds
    no writing or procedure keyword, and the fact a stored node records;
  - `session`: which requests are refused and which session a message goes
    to;
  - `runners`: the runner and the archive monitor, a state machine that
    decides when a session is archived;
  - `ids`, `redis`, `types`: fresh ids, the Redis handle, the data.
- `tests/` runs the library on concrete values.
- `app/` is the server: HTTP routes, the calls to the model, Neo4j and Redis,
  and the loops of the background tasks.
