# greentic_interfaces_guest (verified core)

`src/` is verified with Verus:

- `wit_paths` decides where the canonical WIT bundle of the guest bindings
  crate lives: the candidate locations, in order of preference, and a
  depth-first search of a directory tree for `.wit` files, both written as
  step functions that take what the file system answered and say what to do
  next.
- `component` is the canonical component fixture: its self-description,
  its invocation result, and its question-and-answer setup functions.
- `bytes` holds small helpers for building byte strings.

`app/` performs the file-system work that the step functions ask for
(reading `CARGO_MANIFEST_DIR`, listing directories, canonicalising the
chosen root).
