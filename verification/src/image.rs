//! The image a recipe resolves to: a name for the engine's store, plus
//! where the bytes come from (a local build context or a registry pull).

use vstd::prelude::*;

use crate::paths::file_name;
use crate::paths::file_name_of;

verus! {

/// Where the engine obtains the image.
#[derive(Debug)]
pub enum ImageSource {
    /// Build from a directory holding the container build file.
    Local {
        /// Path of the build-context directory.
        path: String,
    },
    /// Pull the image from a registry.
    Registry,
}

/// An image request handed to the engine: the image's name and its source.
#[derive(Debug)]
pub struct Image {
    /// The name the image is addressed by; for recipe images this is the
    /// recipe name, which also becomes the association label's value.
    pub name: String,
    /// Where the engine obtains the image.
    pub source: ImageSource,
}

impl Image {
    /// An image built locally from the directory at `path`, named after the
    /// directory's final path component.
    pub fn new_local(path: &str) -> (r: Image)
        ensures
            r.name@ == file_name_of(path@),
            r.source matches ImageSource::Local { path: p } && p@ == path@,
    {
        Image { name: file_name(path), source: ImageSource::Local { path: String::from_str(path) } }
    }

    /// An image pulled from a registry under `name`.
    pub fn new_registry(name: &str) -> (r: Image)
        ensures
            r.name@ == name@,
            r.source is Registry,
    {
        Image { name: String::from_str(name), source: ImageSource::Registry }
    }
}

} // verus!
