//! Error kinds surfaced by the provisioning pipeline.

use vstd::prelude::*;

verus! {

/// Everything the pipeline can report to its caller.  Deletion paths absorb
/// "not found" internally, so absence never appears here; each variant
/// carries the message that is surfaced verbatim to the front end.
#[derive(Debug)]
pub enum RecipeError {
    /// The recipe manifest is missing or malformed.
    ManifestParse(String),
    /// The container engine cannot be reached.
    EngineConnectivity(String),
    /// The engine reported a failure chunk while building a local image.
    ImageBuild(String),
    /// The engine reported a failure chunk while pulling from a registry.
    ImagePull(String),
    /// Corrupt compression or tar framing, or an unpack I/O failure.
    Archive(String),
    /// A directory scan or removal failed.
    Filesystem(String),
    /// An archive entry resolves outside the recipe's workspace directory.
    PathTraversal(String),
}

impl RecipeError {
    /// The message carried by this error, whatever its kind.
    pub open spec fn message_spec(&self) -> Seq<char> {
        match self {
            RecipeError::ManifestParse(m) => m@,
            RecipeError::EngineConnectivity(m) => m@,
            RecipeError::ImageBuild(m) => m@,
            RecipeError::ImagePull(m) => m@,
            RecipeError::Archive(m) => m@,
            RecipeError::Filesystem(m) => m@,
            RecipeError::PathTraversal(m) => m@,
        }
    }

    /// Hands the carried message out for user-visible translation.
    pub fn message(&self) -> (r: &String)
        ensures
            r@ == self.message_spec(),
    {
        match self {
            RecipeError::ManifestParse(m) => m,
            RecipeError::EngineConnectivity(m) => m,
            RecipeError::ImageBuild(m) => m,
            RecipeError::ImagePull(m) => m,
            RecipeError::Archive(m) => m,
            RecipeError::Filesystem(m) => m,
            RecipeError::PathTraversal(m) => m,
        }
    }
}

} // verus!
