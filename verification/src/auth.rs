//! Login decisions for the file-transfer front end that exposes a
//! container's filesystem subtree.
//!
//! The transfer protocol itself is an external collaborator; only the
//! decision of whom a credential maps to lives here.  Lookup against a
//! real user store is not wired up yet: any password authenticates a
//! fixed development user, and every other method is refused.

use vstd::prelude::*;

use crate::paths::joined;

verus! {

/// Why a login was refused.
#[derive(Debug)]
pub enum AuthError {
    /// Looking up user information failed unexpectedly.
    Unknown,
    /// Only password-based authentication is supported.
    UnsupportedMethod,
}

/// An authenticated user and the directory subtree shown to them.
#[derive(Debug)]
pub struct User {
    /// The login name.
    pub username: String,
    /// The root of the subtree this user sees.
    pub root_path: String,
}

impl User {
    /// A user rooted at `root_path`.
    pub fn new(username: &str, root_path: &str) -> (r: User)
        ensures
            r.username@ == username@,
            r.root_path@ == root_path@,
    {
        User { username: String::from_str(username), root_path: String::from_str(root_path) }
    }

    /// Every known user's account is enabled.
    pub fn account_enabled(&self) -> (r: bool)
        ensures
            r,
    {
        true
    }

    /// The user's home directory: the root of their subtree.
    pub fn home(&self) -> (r: &String)
        ensures
            r@ == self.root_path@,
    {
        &self.root_path
    }
}

/// Maps credentials to users for the transfer front end.
#[derive(Debug)]
pub struct AuthManager {
    /// The directory under which every user's subtree lives.
    pub container_root: String,
}

impl AuthManager {
    /// An authenticator rooting user subtrees under `root`.
    pub fn new(root: &str) -> (r: AuthManager)
        ensures
            r.container_root@ == root@,
    {
        AuthManager { container_root: String::from_str(root) }
    }

    /// Decides a login: a password — any password, until a user store is
    /// wired up — authenticates the fixed development user, rooted at
    /// that user's subtree; any other method is refused as unsupported.
    pub fn authenticate(&self, username: &str, password: &Option<String>) -> (r: Result<
        User,
        AuthError,
    >)
        ensures
            r is Ok <==> password is Some,
            r matches Ok(u) ==> u.username@ == "meower"@ && u.root_path@ == joined(
                self.container_root@,
                "anvesh"@,
            ),
            r matches Err(e) ==> e is UnsupportedMethod,
    {
        match password {
            Some(_) => {
                let root_path = crate::paths::join_path(self.container_root.as_str(), "anvesh");
                Ok(User { username: String::from_str("meower"), root_path })
            },
            None => Err(AuthError::UnsupportedMethod),
        }
    }
}

} // verus!
