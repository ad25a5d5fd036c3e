# svelte-rust build steps, verified

The library decides what a Rust build script does around a SvelteKit
frontend: which files it watches, which inputs go into the change hash, when the
OpenAPI spec is rewritten and when `npm install`, the client generator and
`npm run build` run. It is written in Verus and proved against its contracts.

- `src/path.rs`: paths as bytes, with `join`, `components`, `starts_with` and
  `extension` following the Unix rules of `std::path`; the crate is for Unix
  hosts, and `app/` refuses to build elsewhere.
- `src/tree.rs`: what the walk of one directory watches, hashes or descends
  into, and `Walk`, the depth-first walk of a whole tree.
- `src/run.rs`: `Frontend::run` as a state machine: each step takes the
  answer to the last request and asks for the next piece of outside work.
- `src/cwd.rs`: the same for the plain working-directory build `frontend`.
- `src/laws.rs`: properties of the machines and walks, proved.
- `app/`: the build-script side that does the file system, environment and
  npm work the steps ask for, and the `svelte-rust build` command.
