# mtgo_notes

The verified core of a private, local-first MTGO opponent notebook: the
encounter state machine, the operation coordinator, Player public-result
lookups and manual official-source statements, deck-provider validation,
the encrypted backup archive format and how a backup is sealed,
restore planning and rollback retention, schema migrations, the decisions the
notebook makes about the Player identity, imports, deletions and confirmed
encounters, the window provider's consent and idempotent replay, settings
and update staging, and the command handlers' admission and reporting rules. The functions under `src/` are proved by Verus against
their `requires`/`ensures` contracts, except the small trusted wrappers
around outside crates (marked `#[verifier::external_body]`), whose contracts
are taken from those crates' sources; the laws the library keeps stand there
as public proof functions named `law_*`.

- `src/` — the library. Outside crates (hashing, key derivation,
  authenticated encryption, Unicode normalization, URL parsing, JSON string
  literals, randomness,
  the clock) are reached only through small trusted wrappers whose contracts
  say what those crates document.
- `tests/` — ordinary Rust tests against the compiled library.
- `app/` — the shell around it: serialized forms of library records, and the
  file work (archives on disk, picked paths, the sealed key file). Work the
  library cannot do itself (database queries, the window system, update
  services) is handed to its command functions as closures, which the
  library calls at the points the contracts name. The database layer and the
  command wiring that would supply those closures are not part of this
  crate.
