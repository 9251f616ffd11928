# Web gateway

The decisions behind the HTTP routes of a web gateway, verified with Verus.

- `src/` holds the library. Each group of routes has a module (`chat`, `memory`, `jobs`,
  `files`, `extensions`, `logs`, `control`, `routes`); what they share stands in `reply`,
  `state`, `text`, `path`, `sort`, `ids`, `clock`, `media` and `body`. A handler whose work
  has several steps is a chain of functions: the first one, which has the name of the
  handler, takes the request and says what a service is asked; each of the others takes what
  a service came back with and says what is done next. Public proof functions whose names
  begin with `law_` state what holds of several functions together.
- `app/` is the server: it listens, reads requests, calls the services and the file system,
  and writes answers.
- `tests/` runs the library on concrete values.

Calls into other crates (`uuid`, `chrono`, `mime_guess`, `dirs`, `serde_json`, `axum`) stand
in small functions marked `#[verifier::external_body]`; their contracts are believed, not
proved, and their doc comments say what is claimed.
