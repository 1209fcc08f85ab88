//! The safe-path resolver: the single chokepoint through which every
//! relative-path file operation must pass.
//!
//! Resolution has two phases, because the decision in between depends on the
//! filesystem. The first phase ([`resolve_safe_path`]) validates the relative
//! path syntactically, checks the (canonicalized) base directory against the
//! registry, and hands back the joined candidate target. The caller then asks
//! the filesystem for the candidate's canonical form — directly when it
//! exists, through its enclosing directory when it is about to be created —
//! and the second phase ([`finish_resolution`]) accepts the canonical target
//! only if it still lies below the base. The two phases together defend
//! against both syntactic `..` traversal and symlink-based escapes that only
//! appear after canonicalization.

use vstd::prelude::*;

use crate::paths::contained_in;
use crate::paths::copy_bytes;
use crate::paths::has_parent_component;
use crate::paths::is_absolute;
use crate::paths::join_spec;
use crate::paths::join_under;
use crate::paths::spec_split_last;
use crate::paths::split_last_component;
use crate::registry::AuthorizedDirs;
use crate::registry::authorized_spec;

verus! {

/// Why a resolution request was rejected.
#[derive(Clone, Copy, Debug, PartialEq, Eq, Structural)]
pub enum RejectionKind {
    /// The relative path was empty.
    InvalidArgument,
    /// The relative path was absolute or held a `..` component, or the
    /// canonical target escaped the base directory.
    TraversalDetected,
    /// The claimed base directory has not been granted.
    UnauthorizedBase,
    /// No private application-data directory is available.
    NoApplicationDataDirectory,
}

impl RejectionKind {
    /// The stable error code reported to the front end.
    pub fn code(&self) -> (r: &'static str)
        ensures
            *self == RejectionKind::InvalidArgument ==> r@ == "ERR_INVALID_ARGS"@,
            *self == RejectionKind::TraversalDetected ==> r@ == "ERR_TRAVERSAL_DETECTED"@,
            *self == RejectionKind::UnauthorizedBase ==> r@ == "ERR_UNAUTHORIZED_BASE"@,
            *self == RejectionKind::NoApplicationDataDirectory ==> r@ == "ERR_NO_APP_DATA"@,
    {
        match self {
            RejectionKind::InvalidArgument => "ERR_INVALID_ARGS",
            RejectionKind::TraversalDetected => "ERR_TRAVERSAL_DETECTED",
            RejectionKind::UnauthorizedBase => "ERR_UNAUTHORIZED_BASE",
            RejectionKind::NoApplicationDataDirectory => "ERR_NO_APP_DATA",
        }
    }
}

/// The view of an optional byte vector.
pub open spec fn opt_view(o: Option<Vec<u8>>) -> Option<Seq<u8>> {
    match o {
        Some(v) => Some(v@),
        None => None,
    }
}

/// The base directory the checks run against: its canonical form when the
/// filesystem could supply one, otherwise the claimed base as given. The
/// fallback is best-effort only; a base that cannot be canonicalized is
/// still held against the registry.
pub open spec fn effective_base_spec(base_dir: Seq<u8>, canon_base: Option<Seq<u8>>) -> Seq<u8> {
    match canon_base {
        Some(c) => c,
        None => base_dir,
    }
}

/// What the first resolution phase decides: reject an empty relative path,
/// reject an absolute or `..`-bearing one before any filesystem resolution,
/// reject a base that is not authorized, and otherwise hand back the
/// effective base together with the joined candidate target.
pub open spec fn resolve_spec(
    base_dir: Seq<u8>,
    rel: Seq<u8>,
    dirs: Seq<Seq<u8>>,
    canon_base: Option<Seq<u8>>,
) -> Result<(Seq<u8>, Seq<u8>), RejectionKind> {
    if rel.len() == 0 {
        Err(RejectionKind::InvalidArgument)
    } else if is_absolute(rel) || has_parent_component(rel) {
        Err(RejectionKind::TraversalDetected)
    } else {
        let base = effective_base_spec(base_dir, canon_base);
        if !authorized_spec(dirs, base) {
            Err(RejectionKind::UnauthorizedBase)
        } else {
            Ok((base, join_spec(base, rel)))
        }
    }
}

/// The canonical target the containment check runs against. An existing
/// target is taken in the canonical form the filesystem gave it, or as-is
/// when canonicalization failed. A target still to be created is rebuilt
/// from the canonical form of its enclosing directory with the final
/// component re-appended, so that symlinks in the directory chain are
/// resolved without requiring the file itself to exist. A target without an
/// enclosing directory is taken as-is.
pub open spec fn chosen_target_spec(
    target: Seq<u8>,
    target_exists: bool,
    canon_target: Option<Seq<u8>>,
    canon_parent: Option<Seq<u8>>,
) -> Seq<u8> {
    if target_exists {
        match canon_target {
            Some(c) => c,
            None => target,
        }
    } else {
        match spec_split_last(target) {
            Some(pair) => join_spec(
                match canon_parent {
                    Some(c) => c,
                    None => pair.0,
                },
                pair.1,
            ),
            None => target,
        }
    }
}

/// What the second resolution phase decides: accept the canonical target
/// exactly when it still lies below the base, and reject it as traversal
/// otherwise.
pub open spec fn finish_spec(
    base: Seq<u8>,
    target: Seq<u8>,
    target_exists: bool,
    canon_target: Option<Seq<u8>>,
    canon_parent: Option<Seq<u8>>,
) -> Result<Seq<u8>, RejectionKind> {
    let chosen = chosen_target_spec(target, target_exists, canon_target, canon_parent);
    if contained_in(chosen, base) {
        Ok(chosen)
    } else {
        Err(RejectionKind::TraversalDetected)
    }
}

/// A validated request: the base directory the authorization check ran
/// against, and the joined candidate target awaiting its containment check.
pub struct ResolutionCandidate {
    pub base: Vec<u8>,
    pub target: Vec<u8>,
}

/// First resolution phase. `canon_base` carries the canonical form of
/// `base_dir` when the filesystem could supply one.
pub fn resolve_safe_path(
    base_dir: &Vec<u8>,
    relative_path: &Vec<u8>,
    auth: &AuthorizedDirs,
    canon_base: &Option<Vec<u8>>,
) -> (r: Result<ResolutionCandidate, RejectionKind>)
    ensures
        match r {
            Ok(c) => resolve_spec(base_dir@, relative_path@, auth@, opt_view(*canon_base))
                == Ok::<(Seq<u8>, Seq<u8>), RejectionKind>((c.base@, c.target@)),
            Err(k) => resolve_spec(base_dir@, relative_path@, auth@, opt_view(*canon_base))
                == Err::<(Seq<u8>, Seq<u8>), RejectionKind>(k),
        },
{
    if relative_path.len() == 0 {
        return Err(RejectionKind::InvalidArgument);
    }
    if crate::paths::is_absolute_path(relative_path) || crate::paths::contains_parent_component(
        relative_path,
    ) {
        return Err(RejectionKind::TraversalDetected);
    }
    let base: Vec<u8> = match canon_base {
        Some(c) => copy_bytes(c),
        None => copy_bytes(base_dir),
    };
    if !auth.is_authorized(&base) {
        return Err(RejectionKind::UnauthorizedBase);
    }
    let target = join_under(&base, relative_path);
    Ok(ResolutionCandidate { base, target })
}

/// Second resolution phase. `target_exists` says whether the candidate
/// target was found on disk; `canon_target` carries its canonical form when
/// it exists and could be canonicalized, and `canon_parent` the canonical
/// form of its enclosing directory when it does not yet exist.
pub fn finish_resolution(
    candidate: ResolutionCandidate,
    target_exists: bool,
    canon_target: &Option<Vec<u8>>,
    canon_parent: &Option<Vec<u8>>,
) -> (r: Result<Vec<u8>, RejectionKind>)
    ensures
        match r {
            Ok(p) => finish_spec(
                candidate.base@,
                candidate.target@,
                target_exists,
                opt_view(*canon_target),
                opt_view(*canon_parent),
            ) == Ok::<Seq<u8>, RejectionKind>(p@),
            Err(k) => finish_spec(
                candidate.base@,
                candidate.target@,
                target_exists,
                opt_view(*canon_target),
                opt_view(*canon_parent),
            ) == Err::<Seq<u8>, RejectionKind>(k),
        },
{
    let chosen: Vec<u8> = if target_exists {
        match canon_target {
            Some(c) => copy_bytes(c),
            None => copy_bytes(&candidate.target),
        }
    } else {
        match split_last_component(&candidate.target) {
            Some(pair) => {
                let (parent, name) = pair;
                let resolved_parent: Vec<u8> = match canon_parent {
                    Some(c) => copy_bytes(c),
                    None => parent,
                };
                join_under(&resolved_parent, &name)
            },
            None => copy_bytes(&candidate.target),
        }
    };
    proof {
        assert(chosen@ == chosen_target_spec(
            candidate.target@,
            target_exists,
            opt_view(*canon_target),
            opt_view(*canon_parent),
        ));
    }
    if crate::paths::path_contained_in(&chosen, &candidate.base) {
        Ok(chosen)
    } else {
        Err(RejectionKind::TraversalDetected)
    }
}

/// An empty relative path is rejected as an invalid argument, whatever the
/// base directory and whatever has been granted. Every file operation goes
/// through the resolver, so every operation inherits this rejection.
pub proof fn lemma_empty_relative_rejected(
    base_dir: Seq<u8>,
    rel: Seq<u8>,
    dirs: Seq<Seq<u8>>,
    canon_base: Option<Seq<u8>>,
)
    requires
        rel.len() == 0,
    ensures
        resolve_spec(base_dir, rel, dirs, canon_base) == Err::<
            (Seq<u8>, Seq<u8>),
            RejectionKind,
        >(RejectionKind::InvalidArgument),
{
}

/// A relative path holding any `..` component is rejected as traversal,
/// regardless of whether the base directory is authorized.
pub proof fn lemma_parent_component_rejected(
    base_dir: Seq<u8>,
    rel: Seq<u8>,
    dirs: Seq<Seq<u8>>,
    canon_base: Option<Seq<u8>>,
)
    requires
        has_parent_component(rel),
    ensures
        resolve_spec(base_dir, rel, dirs, canon_base) == Err::<
            (Seq<u8>, Seq<u8>),
            RejectionKind,
        >(RejectionKind::TraversalDetected),
{
    if rel.len() == 0 {
        assert(crate::paths::components(rel).len() == 0);
    }
}

/// A base directory that neither is, nor lies below, a granted directory is
/// rejected as unauthorized whenever the relative path itself is clean.
pub proof fn lemma_unauthorized_base_rejected(
    base_dir: Seq<u8>,
    rel: Seq<u8>,
    dirs: Seq<Seq<u8>>,
    canon_base: Option<Seq<u8>>,
)
    requires
        rel.len() > 0,
        !is_absolute(rel),
        !has_parent_component(rel),
        !authorized_spec(dirs, effective_base_spec(base_dir, canon_base)),
    ensures
        resolve_spec(base_dir, rel, dirs, canon_base) == Err::<
            (Seq<u8>, Seq<u8>),
            RejectionKind,
        >(RejectionKind::UnauthorizedBase),
{
}

/// A clean relative path under an authorized base resolves: the first phase
/// accepts it and hands back the joined target, the join lies below the
/// base, and when the filesystem reports that join as its own canonical
/// form the second phase returns exactly the join.
pub proof fn lemma_clean_path_resolves(
    base_dir: Seq<u8>,
    rel: Seq<u8>,
    dirs: Seq<Seq<u8>>,
    canon_base: Option<Seq<u8>>,
)
    requires
        rel.len() > 0,
        !is_absolute(rel),
        !has_parent_component(rel),
        authorized_spec(dirs, effective_base_spec(base_dir, canon_base)),
    ensures
        resolve_spec(base_dir, rel, dirs, canon_base) == Ok::<
            (Seq<u8>, Seq<u8>),
            RejectionKind,
        >(
            (
                effective_base_spec(base_dir, canon_base),
                join_spec(effective_base_spec(base_dir, canon_base), rel),
            ),
        ),
        contained_in(
            join_spec(effective_base_spec(base_dir, canon_base), rel),
            effective_base_spec(base_dir, canon_base),
        ),
        finish_spec(
            effective_base_spec(base_dir, canon_base),
            join_spec(effective_base_spec(base_dir, canon_base), rel),
            true,
            Some(join_spec(effective_base_spec(base_dir, canon_base), rel)),
            None,
        ) == Ok::<Seq<u8>, RejectionKind>(
            join_spec(effective_base_spec(base_dir, canon_base), rel),
        ),
{
    let base = effective_base_spec(base_dir, canon_base);
    crate::paths::lemma_join_contained(base, rel);
}

/// A canonical target that does not lie below the base — for instance one
/// reached through a symlink inside the base that points outside it — is
/// rejected as traversal by the second phase, never returned.
pub proof fn lemma_escaped_target_rejected(
    base: Seq<u8>,
    target: Seq<u8>,
    target_exists: bool,
    canon_target: Option<Seq<u8>>,
    canon_parent: Option<Seq<u8>>,
)
    requires
        !contained_in(
            chosen_target_spec(target, target_exists, canon_target, canon_parent),
            base,
        ),
    ensures
        finish_spec(base, target, target_exists, canon_target, canon_parent) == Err::<
            Seq<u8>,
            RejectionKind,
        >(RejectionKind::TraversalDetected),
{
}

} // verus!
