# cursor_server

The rules of a local agent server, verified with Verus: how conversations are stored and shown to a
model, how runs and tool rounds proceed, how tool calls are prepared, routed, answered and cut to
size, how pages are fetched and searches merged, and how settings, providers and usage are kept.

- `src/` is the verified library. Every function has a contract over the views of its types; the
  laws that relate several functions are public proof functions whose names begin with `law_`.
- `tests/` runs the library on concrete values.
- `app/` is the service around it: the database, the network, processes and tasks. It performs what
  the library asks for and hands back plain values.

The calls into other crates that the library makes stand behind small functions marked
`external_body`, each with a comment that says what is taken on trust.
