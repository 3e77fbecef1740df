# palette_tracer_engine

The integral core of a palette-based bitmap tracing engine, written in Verus:
every function in `src/` carries a contract that Verus proves, except three
small trusted wrappers whose contracts Verus takes on trust: `blake3_bytes`
(around `blake3::hash`), `is_utf8` (around `core::str::from_utf8`) and
`push_char` (around `String::push`).

## Layout

- `src/` — the verified library.
  - `netpbm`, `image`, `labels`: input decoding (binary PPM and PAM) with
    resource limits checked before allocation, image views over stored bytes,
    and the label plane.
  - `limits`, `checked`, `control`: resource limits and the work budget,
    checked integer conversions, cooperative cancellation.
  - `config`: policies, profiles, modifiers and the rules that combine them;
    hex colour parsing; palette entry ordering.
  - `ir`: paint colours, curve chains and their exact reversal, and the shared
    topology (half-edges, faces, cycles).
  - `digest`: the semantic digest — a tagged, length-prefixed token stream
    hashed with BLAKE3, closed chains read from a canonical start, and the
    digest of a whole document whose real values are given as quantised keys.
  - `color`: the exact-result colour cache, claim ordering, sampling keys.
  - `cli`, `text`, `render`, `report`, `error`: command-line arguments, byte
    and character scanning, text rendering, report records and error values.
- `tests/` — tests run against the compiled library.
- `app/` — the command-line front end: argument loop, file and stream I/O,
  JSON configuration through serde, and everything that computes with
  floating-point numbers.

Laws of the library are public proof functions named `law_…`.
