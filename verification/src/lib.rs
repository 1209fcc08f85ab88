//! Capability-scoped safe-path resolution.
//!
//! A session keeps a registry of directories the user has granted access to.
//! Every file operation names a `(base directory, relative path)` pair; the
//! resolver turns that untrusted pair into a path that is guaranteed to lie
//! inside an authorized directory, or rejects it with a typed error.
//!
//! Paths are modelled as byte strings with `/` as the separator; the
//! containment and authorization checks compare paths component by
//! component, never byte-prefix-wise, so `/a/bb` is not inside `/a/b`.

use vstd::prelude::*;

pub mod json;
pub mod listing;
pub mod paths;
pub mod registry;
pub mod resolve;
pub mod settings;

verus! {

/// Liveness probe of the command surface: the fixed ready answer.
pub fn ping() -> (r: &'static str)
    ensures
        r@ == "tauri-ready"@,
{
    "tauri-ready"
}

} // verus!

