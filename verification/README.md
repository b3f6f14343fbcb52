# news

A news pipeline: it collects items from RSS feeds and HTML pages, translates their
titles, publishes them to a news API, and serves them with semantic search over the
articles' content.

- `src/` is the library, verified with Verus: text chunking for embeddings, the
  selection and ordering of search results, token authentication, the reading of
  feeds and pages into items, and the decisions of the publishing run. Its contracts
  and the proof functions named `law_*` state what it guarantees.
- `app/` is the program around it: the command line (`fetch`, `publish`, `serve`,
  `channel`, `translate`), HTTP clients and server, and the databases.
- `tests/` runs the library on concrete inputs.
