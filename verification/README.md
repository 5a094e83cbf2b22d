# lib_mal

A client library for the MyAnimeList v2 API, written in Verus.

- `src/` is the verified library. It builds every request the client sends
  (method, URL, bearer token, form), renders list updates as form
  parameters, decides the OAuth (PKCE) login steps and the token cache, and
  reads the outcome of a deletion. Its contracts state each of these
  exactly; the laws (`law_*` proof functions) state what holds across
  calls.
- `app/` is `miru`, a command line program around the library: it sends the
  requests with `reqwest`, runs the login redirect server with `tiny_http`,
  reads and writes the token cache, and parses replies with `serde_json`.
- `tests/` runs the library on concrete values.
