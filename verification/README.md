# virust

The core of the Virust web framework as a Verus-verified library, with the
`virust` command-line tool around it.

## Layout

- `src/` — the verified library.
  - `ssg.rs`: static site generation: route patterns from file paths,
    handler names and revalidation times read from route files, route
    discovery, page locations and contents, build statistics.
  - `component.rs`: the registry of server-side-rendered components, render
    errors, and the reading of a renderer's reply.
  - `persistence.rs`: the in-memory store of JSON items (collections of
    items keyed by id) with its invariant and its read-after-write laws.
  - `routes.rs`: what the handler attributes (`#[get]`, `#[post]`, `#[ws]`,
    `#[cache]`, ...) derive from a handler's signature.
  - `cli.rs`: the decisions of the command-line tool: build modes, the files
    that `virust init` writes, and the steps of the development loops.
  - `templates/`: the data and request logic of the project templates.
  - `text.rs`, `keyed.rs`: string and keyed-sequence helpers with their models.
  - `clock.rs`, `json.rs`: fresh ids, the current time, and JSON values.
- `tests/` — tests of the library.
- `app/` — the `virust` binary: argument parsing, files, processes, file
  watching, the asynchronous SSG build and the Bun renderer process.

## Keyed collections

The persistence store and the component registry keep their entries in a
`Vec` of (key, value) pairs with the invariant that no key occurs twice,
rather than in a `HashMap<String, _>`.  vstd specifies `HashMap` operations
only for key types whose hashing obeys its key model
(`obeys_key_model::<K>()`), and for `String` keys nothing in a crate can
establish that without an assumption; listing a map's entries also needs
iteration, which vstd does not specify for `HashMap`.  With a `Vec`, every
lookup, insertion and removal is proved.  Lists come out in insertion order.

Verify with Verus; build and test with cargo.
