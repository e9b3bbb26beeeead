//! The error taxonomy of the pipeline.
use vstd::prelude::*;
use toml::de::Error as DecodeError;
use toml::ser::Error as EncodeError;

verus! {

/// Everything that can go wrong while loading, parsing or rendering entries.
#[derive(Debug)]
pub enum Error {
    /// A filesystem operation failed; the text describes it.
    Io(String),
    /// The structured metadata document is not valid TOML.
    TomlDe(DecodeError),
    /// The metadata could not be written as TOML.
    TomlSer(EncodeError),
    /// The document is TOML but does not decode: the named field is missing
    /// where required, or has the wrong type.
    MetadataDecode(String),
    /// No renderer is registered under the name.
    RenderNotFound(String),
    /// The named renderer reported a failure, with its cause.
    RenderFailed(String, String),
    /// Another entry is already rendered to this path.
    OutputCollision(String),
    /// The front-matter delimiters are missing or malformed.
    InvalidDataBlock,
    Unknown,
}

} // verus!
