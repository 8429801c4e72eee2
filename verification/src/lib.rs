//! Tier vocabulary, closed-namespace registry and build-time registry
//! consistency rules for the `tools.kryphocron.*` lexicon set.

pub mod audience;
pub mod codegen;
pub mod consistency;
pub mod entries;
pub mod error;
pub mod lexicon;
pub mod lockfile;
pub mod manifest;
pub mod nsid;
pub mod registry;
pub mod rows;
pub mod semver;
pub mod text;
pub mod tier;

pub use tier::{DeprecationState, LexiconRegistryEntry, SemVer, Tier, UnknownNsid, Visibility};
pub use registry::kryphocron_lexicon_registry;
pub use error::BuildError;
pub use proto_blue_lex_data::{BlobRef, Cid, CidError};
pub use proto_blue_lexicon::LexiconDoc;
pub use proto_blue_syntax::{AtUri, Datetime, Did, Handle, Nsid, RecordKey, Tid};
