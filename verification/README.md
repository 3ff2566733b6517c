# falcon_jsonapi

Shared [JSON:API](https://jsonapi.org/) protocol types: documents, resource objects,
relationship linkage, error documents, the `JsonApiResource` trait and helpers for
building `/api/v1` collection and resource paths. The library in `src/` carries
proved contracts; the serde wire format in `app/` does not.

- `src/` — the verified library (`document`, `paths`, `resource`, `constants`, `json`).
  Resource object attributes and relationships are held as lists of `(name, value)`
  entries; `ResourceObject::wf` states that each name occurs once.
- `app/` — the wire format: serde copies of the document types with conversions
  to and from the library's types.
- `tests/` — tests of the library.
