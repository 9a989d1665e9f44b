# docker_registry

The request-handling core of a small container-image registry that speaks a
subset of the Docker registry HTTP API v2, with its behaviour proved in Verus.

Each endpoint is a function from the shared registry state and the plain
values of a request (path parameters, the raw `content-length` header, the
`digest` query value, the body) to the next state and a response value. Its
contract states both exactly, through a spec function of the endpoint.

Layout of `src/`:

- `search.rs`: the first match of a predicate in a sequence, as a linear
  search finds it.
- `text.rs`: decimal numbers as header values, written and read.
- `keyed.rs`: a map from text keys to values with distinct keys.
- `http.rs`: the response model.
- `state.rs`: the shared state and the searches over it.
- `blob.rs`: reading blobs and the chunked upload sessions.
- `handlers.rs`: manifests, the digest store with its upload tickets, and the
  fixed answers.
- `registry.rs`: a registry that refuses a second blob under a digest and finds
  manifests by digest or tag.
- `laws.rs`: what holds across endpoints.
- `trusted.rs`: the calls into `sha256` and `uuid`.

`app/main.rs` is the axum server around the library: routing, extraction,
the clock, JSON and logging.
