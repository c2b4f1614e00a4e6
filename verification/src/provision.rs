//! Provisioning decisions: when an image is (re)created, and how the
//! engine's build or pull progress stream is judged.
//!
//! The caller performs the engine calls and hands their outcomes in; the
//! functions here decide what those outcomes mean.  A successful prior
//! build or pull is never redone: the existence check is the provisioning
//! cache.  The progress stream is consumed fully, and its first
//! failure-typed chunk aborts provisioning with the engine's own message —
//! there is no partial success and no retry.

use vstd::prelude::*;

use crate::errors::RecipeError;
use crate::image::ImageSource;

verus! {

/// What `resolve_image` does after inspecting the engine's store.
#[derive(Debug)]
pub enum ResolveAction {
    /// The image is already present: return it, touching nothing.
    UseExisting,
    /// The image is absent and may be created: build or pull it.
    Provision,
    /// The image is absent and must not be created: report it absent,
    /// with no side effect.
    ReportAbsent,
}

/// The action taken for a store inspection result (`exists`) and a
/// caller's permission to create (`create`).
pub open spec fn resolve_spec(exists: bool, create: bool) -> ResolveAction {
    if exists {
        ResolveAction::UseExisting
    } else if create {
        ResolveAction::Provision
    } else {
        ResolveAction::ReportAbsent
    }
}

/// Decides how to resolve an image, exactly as `resolve_spec` describes it.
pub fn resolve_decision(exists: bool, create: bool) -> (r: ResolveAction)
    ensures
        r == resolve_spec(exists, create),
{
    if exists {
        ResolveAction::UseExisting
    } else if create {
        ResolveAction::Provision
    } else {
        ResolveAction::ReportAbsent
    }
}

/// Resolving an absent image without permission to create performs no
/// build or pull and reports the image absent.
pub proof fn lemma_resolve_absent_no_side_effect(create: bool)
    ensures
        !create ==> resolve_spec(false, create) == ResolveAction::ReportAbsent,
        resolve_spec(false, true) == ResolveAction::Provision,
{
}

/// One chunk of the engine's build or pull progress stream, reduced to
/// what provisioning inspects.
#[derive(Debug)]
pub enum BuildChunk {
    /// Ordinary progress output; carried along, never inspected.
    Progress,
    /// The engine reported failure inside the stream.
    ErrorChunk {
        /// The engine's own failure message.
        message: String,
    },
    /// The transport to the engine failed mid-stream.
    TransportError {
        /// The transport error's message.
        message: String,
    },
}

/// The failure a single chunk carries, if any.
pub open spec fn chunk_failure_spec(c: BuildChunk) -> Option<Seq<char>> {
    match c {
        BuildChunk::Progress => None,
        BuildChunk::ErrorChunk { message } => Some(message@),
        BuildChunk::TransportError { message } => Some(message@),
    }
}

/// Classifies one stream chunk, exactly as `chunk_failure_spec` describes
/// it.
pub fn chunk_failure(c: &BuildChunk) -> (r: Option<String>)
    ensures
        r is Some <==> chunk_failure_spec(*c) is Some,
        r matches Some(m) ==> chunk_failure_spec(*c) == Some(m@),
{
    match c {
        BuildChunk::Progress => None,
        BuildChunk::ErrorChunk { message } => Some(message.clone()),
        BuildChunk::TransportError { message } => Some(message.clone()),
    }
}

/// The first failure in a progress stream, if any.
pub open spec fn first_failure(chunks: Seq<BuildChunk>) -> Option<Seq<char>>
    decreases chunks.len(),
{
    if chunks.len() == 0 {
        None
    } else {
        match chunk_failure_spec(chunks[0]) {
            Some(m) => Some(m),
            None => first_failure(chunks.drop_first()),
        }
    }
}

/// Judges a fully consumed progress stream: success when no chunk failed,
/// otherwise the first failure's message, reported as a build failure for
/// a local source and as a pull failure for a registry source.
pub fn consume_chunks(chunks: &Vec<BuildChunk>, source: &ImageSource) -> (r: Result<
    (),
    RecipeError,
>)
    ensures
        r is Ok <==> first_failure(chunks@) is None,
        r matches Err(e) ==> first_failure(chunks@) == Some(e.message_spec()),
        r matches Err(e) ==> match source {
            ImageSource::Local { .. } => e is ImageBuild,
            ImageSource::Registry => e is ImagePull,
        },
{
    let mut i: usize = 0;
    proof {
        assert(chunks@.skip(0) =~= chunks@);
    }
    while i < chunks.len()
        invariant
            i <= chunks@.len(),
            first_failure(chunks@) == first_failure(chunks@.skip(i as int)),
        decreases chunks@.len() - i,
    {
        let ghost rest = chunks@.skip(i as int);
        proof {
            assert(rest.len() > 0 && rest[0] == chunks@[i as int]);
            assert(rest.drop_first() =~= chunks@.skip(i as int + 1));
        }
        match chunk_failure(&chunks[i]) {
            Some(message) => {
                let e = match source {
                    ImageSource::Local { .. } => RecipeError::ImageBuild(message),
                    ImageSource::Registry => RecipeError::ImagePull(message),
                };
                return Err(e);
            },
            None => {
            },
        }
        i += 1;
    }
    proof {
        assert(chunks@.skip(i as int) =~= Seq::<BuildChunk>::empty());
    }
    Ok(())
}

} // verus!
