# kryphocron_lexicons

Tier vocabulary and closed-namespace registry for the `tools.kryphocron.*`
lexicon set, with the build-time rules that keep the registry consistent,
verified with Verus.

- `src/tier.rs`: `Tier`, `Visibility`, `SemVer`, `DeprecationState`,
  `LexiconRegistryEntry`, `UnknownNsid`.
- `src/registry.rs`: the registry and `Tier::from_nsid`, with the laws that
  the registry is a map over the `tools.kryphocron.` namespace.
- `src/manifest.rs`: manifest, lockfile and version documents and their
  schema-version checks.
- `src/consistency.rs`: lexicon documents, manifest and generated code name
  the same NSIDs.
- `src/lockfile.rs`: lockfile regeneration and validation (tier immutable,
  deprecation and successor monotonic, regeneration a fixed point), and
  the stale-lockfile comparison.
- `src/audience.rs`: the private-tier audience rule, also as read through
  the registry and on the lexicon collection built from checked files.
- `src/entries.rs`: registry entries built from the manifest, and the
  check that the registry is the one the manifest describes.
- `src/lexicon.rs`: parsing lexicon documents into the shape the audience
  rule reads, and building the lexicon collection.
- `src/codegen.rs`: NSIDs of generated files and the digest that pins them.
- `src/semver.rs`, `src/text.rs`, `src/rows.rs`: version parsing, string
  order and set helpers, keyed rows.
- `src/nsid.rs`: the outside `Nsid` type and its trusted operations.
- `app/`: file I/O, the code-generator subprocess, serde forms of the
  documents, error messages, and the lexicon-collection accessor.
