//! Failures of the build-time registry pipeline.

use vstd::prelude::*;

verus! {

/// A failure of the build-time registry pipeline: reading its inputs,
/// running the code generator, or one of the consistency rules.
#[derive(Debug)]
#[allow(inconsistent_fields)]
pub enum BuildError {
    /// A required environment variable is missing.
    Env(String),
    /// A file-system operation failed.
    Io(String),
    /// The code generator is not installed.
    CodegenBinaryMissing,
    /// The code generator could not be started.
    CodegenSpawn(String),
    /// The code generator exited with this status.
    CodegenFailed(i32),
    /// The manifest could not be read as a manifest.
    ManifestParse(String),
    /// The manifest declares an unsupported schema version.
    ManifestSchemaVersion(String),
    /// The lockfile could not be read as a lockfile.
    LockfileParse(String),
    /// The lockfile declares an unsupported schema version.
    LockfileSchemaVersion(String),
    /// The lexicon-set version document could not be read.
    VersionParse(String),
    /// A lexicon document could not be parsed.
    LexiconParse {
        /// Path of the offending file.
        path: String,
        /// The parser's message.
        detail: String,
    },
    /// Two lexicon documents declare the same NSID.
    DuplicateLexicon(String),
    /// The lexicon documents, the manifest and the generated code do not
    /// cover the same NSIDs.
    NsidSetMismatch {
        /// Lexicons with no manifest entry.
        lexicon_minus_manifest: Vec<String>,
        /// Manifest entries with no lexicon.
        manifest_minus_lexicon: Vec<String>,
        /// Lexicons with no generated code.
        lexicon_minus_codegen: Vec<String>,
        /// Generated code with no lexicon.
        codegen_minus_lexicon: Vec<String>,
    },
    /// A lexicon's tier differs from the one locked earlier.
    TierImmutableViolated {
        /// The lexicon.
        nsid: String,
        /// The locked tier.
        locked: String,
        /// The tier the manifest now gives.
        current: String,
    },
    /// A locked deprecation was removed or changed.
    DeprecationMonotonicityViolated {
        /// The lexicon.
        nsid: String,
        /// The locked deprecation version.
        locked: Option<String>,
        /// The deprecation version the manifest now gives.
        current: Option<String>,
    },
    /// A locked successor was removed or changed.
    SuccessorMonotonicityViolated {
        /// The lexicon.
        nsid: String,
        /// The locked successor.
        locked: Option<String>,
        /// The successor the manifest now gives.
        current: Option<String>,
    },
    /// The committed lockfile differs from the regenerated one.
    StaleLockfile {
        /// Where the regenerated lockfile was written.
        staging: String,
        /// Where the committed lockfile lives.
        committed: String,
    },
    /// A non-exempt private-tier lexicon declares no audience-list field.
    PrivateLexiconMissingAudienceRef {
        /// The lexicon.
        nsid: String,
        /// The audience lexicon the field must reference.
        expected_ref: String,
    },
    /// An audience-exempt lexicon gives no exemption reason.
    MissingExemptionReason(String),
    /// The audience lexicon itself is private but not marked exempt.
    AudienceMechanismMustBeExempt {
        /// The lexicon.
        nsid: String,
    },
    /// A manifest tier is neither `public` nor `private`.
    UnknownTier(String),
    /// The manifest and the lexicon registry disagree at this NSID: one of
    /// them lacks it, or they give it another tier or deprecation state.
    RegistryMismatch(String),
}

} // verus!
