# dnf_repofile

Parsing, rendering, validating and diffing of DNF/YUM `.repo` files, written
in Verus. The functions of the library in `src/` carry contracts that Verus
proves, except the small wrappers around calls into `indexmap`, `url`,
`camino` and the standard library (marked `#[verifier::external_body]`),
whose contracts are trusted and stated from those libraries' documentation
and source.

- `src/parse.rs`, `src/sections.rs`, `src/values.rs`: the `.repo` parser, as
  a line-by-line state machine with a specification of what it makes of a
  text, and the typed reading of each option.
- `src/render.rs`, `src/fieldtext.rs`: writing a file back to text. Comments,
  unknown options and options whose typed value is what their entries say
  are written as read; every other known option is written from the typed
  data (where its first entry stood, or after the entries).
- `src/rewrite.rs`: what rendering an edited file writes, and the proofs
  that parsing that text gives back the written entries with the typed data
  they denote, and that rendering the result again gives the same text.
- `src/roundtrip.rs`: the proof that rendering a parsed file and parsing the
  text again gives back the same sections (the same `[main]` presence and
  repository IDs in order, each with the same data and entries) whenever no
  leading comment of an entry ends with a carriage return; the preamble and
  header comments can differ there: the header comments of the first
  section join the preamble, and a final carriage return is dropped from a
  comment line. With neither of those the file comes back unchanged.
- `src/repofile.rs`, `src/merge.rs`, `src/diff.rs`, `src/validate.rs`,
  `src/variables.rs`, `src/builder.rs`, `src/reposdir.rs`: the operations on
  files, repositories and directories.
- `src/laws.rs`: properties relating several operations.
- `src/collections.rs`, `src/types.rs`, `src/text.rs`: the contracts of the
  `indexmap`, `url`, `camino` and standard-library calls the library makes,
  and the value types.
- `app/`: reading and writing directories of `.repo` files, and error types
  that implement `std::error::Error`.
