use safe_paths::registry::AuthorizedDirs;
use safe_paths::resolve::finish_resolution;
use safe_paths::resolve::resolve_safe_path;
use safe_paths::resolve::RejectionKind;
use safe_paths::resolve::ResolutionCandidate;

fn b(s: &str) -> Vec<u8> {
    s.as_bytes().to_vec()
}

fn granted(dirs: &[&str]) -> AuthorizedDirs {
    let mut auth = AuthorizedDirs::new();
    for d in dirs {
        auth.add(b(d));
    }
    auth
}

fn resolve_ok(
    base: &str,
    rel: &str,
    auth: &AuthorizedDirs,
    canon_base: Option<&str>,
) -> ResolutionCandidate {
    match resolve_safe_path(&b(base), &b(rel), auth, &canon_base.map(b)) {
        Ok(c) => c,
        Err(k) => panic!("expected success, got {:?}", k),
    }
}

fn resolve_err(
    base: &str,
    rel: &str,
    auth: &AuthorizedDirs,
    canon_base: Option<&str>,
) -> RejectionKind {
    match resolve_safe_path(&b(base), &b(rel), auth, &canon_base.map(b)) {
        Ok(_) => panic!("expected rejection"),
        Err(k) => k,
    }
}

#[test]
fn clean_path_resolves_to_join() {
    let auth = granted(&["/data"]);
    let cand = resolve_ok("/data", "x/y.json", &auth, Some("/data"));
    assert_eq!(cand.base, b("/data"));
    assert_eq!(cand.target, b("/data/x/y.json"));
    // The filesystem reports the candidate as its own canonical form.
    let target = cand.target.clone();
    let r = finish_resolution(cand, true, &Some(target), &None);
    assert_eq!(r, Ok(b("/data/x/y.json")));
}

#[test]
fn new_file_resolves_through_parent() {
    let auth = granted(&["/data"]);
    let cand = resolve_ok("/data", "x/y.json", &auth, Some("/data"));
    // The target does not exist; its directory canonicalizes to itself.
    let r = finish_resolution(cand, false, &None, &Some(b("/data/x")));
    assert_eq!(r, Ok(b("/data/x/y.json")));
}

#[test]
fn parent_component_is_traversal() {
    let auth = granted(&["/data"]);
    assert_eq!(
        resolve_err("/data", "a/../b", &auth, Some("/data")),
        RejectionKind::TraversalDetected
    );
    assert_eq!(
        resolve_err("/data", "..", &auth, Some("/data")),
        RejectionKind::TraversalDetected
    );
    assert_eq!(
        resolve_err("/data", "../secret", &auth, Some("/data")),
        RejectionKind::TraversalDetected
    );
}

#[test]
fn parent_component_rejected_even_without_authorization() {
    let auth = AuthorizedDirs::new();
    assert_eq!(
        resolve_err("/nowhere", "a/../b", &auth, None),
        RejectionKind::TraversalDetected
    );
}

#[test]
fn absolute_relative_path_is_traversal() {
    let auth = granted(&["/data"]);
    assert_eq!(
        resolve_err("/data", "/etc/passwd", &auth, Some("/data")),
        RejectionKind::TraversalDetected
    );
}

#[test]
fn unauthorized_base_is_rejected() {
    let auth = granted(&["/data"]);
    assert_eq!(
        resolve_err("/other", "x.json", &auth, Some("/other")),
        RejectionKind::UnauthorizedBase
    );
}

#[test]
fn base_below_a_grant_is_authorized() {
    let auth = granted(&["/data"]);
    let cand = resolve_ok("/data/sub", "x.json", &auth, Some("/data/sub"));
    assert_eq!(cand.target, b("/data/sub/x.json"));
}

#[test]
fn empty_relative_path_is_invalid() {
    let auth = granted(&["/data"]);
    assert_eq!(
        resolve_err("/data", "", &auth, Some("/data")),
        RejectionKind::InvalidArgument
    );
    // Every operation resolves first, so every operation inherits this.
    let none = AuthorizedDirs::new();
    assert_eq!(resolve_err("/data", "", &none, None), RejectionKind::InvalidArgument);
}

#[test]
fn symlink_escape_is_traversal() {
    // `link` inside the base is a symlink to /outside/data, so the
    // filesystem canonicalizes the existing target out of the base.
    let auth = granted(&["/data"]);
    let cand = resolve_ok("/data", "link/secret.json", &auth, Some("/data"));
    assert_eq!(cand.target, b("/data/link/secret.json"));
    let r = finish_resolution(cand, true, &Some(b("/outside/data/secret.json")), &None);
    assert_eq!(r, Err(RejectionKind::TraversalDetected));
}

#[test]
fn symlink_escape_through_parent_is_traversal() {
    // The target does not exist, but its directory is a symlink out.
    let auth = granted(&["/data"]);
    let cand = resolve_ok("/data", "link/new.json", &auth, Some("/data"));
    let r = finish_resolution(cand, false, &None, &Some(b("/outside/data")));
    assert_eq!(r, Err(RejectionKind::TraversalDetected));
}

#[test]
fn containment_is_component_wise() {
    // /a/bb is not below /a/b, even though it is a byte-prefix extension.
    let auth = granted(&["/a/b"]);
    assert_eq!(
        resolve_err("/a/bb", "x.json", &auth, Some("/a/bb")),
        RejectionKind::UnauthorizedBase
    );
    let cand = resolve_ok("/a/b/c", "x.json", &auth, Some("/a/b/c"));
    assert_eq!(cand.target, b("/a/b/c/x.json"));
}

#[test]
fn uncanonicalizable_base_falls_back_to_claimed_base() {
    let auth = granted(&["/data"]);
    let cand = resolve_ok("/data", "x.json", &auth, None);
    assert_eq!(cand.base, b("/data"));
    assert_eq!(cand.target, b("/data/x.json"));
}

#[test]
fn canonical_base_decides_authorization() {
    // The claimed spelling differs, but the canonical base is authorized.
    let auth = granted(&["/data"]);
    let cand = resolve_ok("/data/../data", "x.json", &auth, Some("/data"));
    assert_eq!(cand.base, b("/data"));
}

#[test]
fn grant_is_idempotent() {
    let mut auth = AuthorizedDirs::new();
    assert!(!auth.is_authorized(&b("/data/x")));
    auth.add(b("/data"));
    assert!(auth.is_authorized(&b("/data/x")));
    assert!(auth.is_authorized(&b("/data")));
    auth.add(b("/data"));
    assert!(auth.is_authorized(&b("/data/x")));
    assert!(auth.is_authorized(&b("/data")));
    assert!(!auth.is_authorized(&b("/elsewhere")));
}

#[test]
fn later_grants_never_revoke() {
    let mut auth = granted(&["/data"]);
    auth.add(b("/music"));
    assert!(auth.is_authorized(&b("/data/x")));
    assert!(auth.is_authorized(&b("/music/a")));
}

#[test]
fn ping_reports_ready() {
    assert_eq!(safe_paths::ping(), "tauri-ready");
}

#[test]
fn rejection_codes_are_stable() {
    assert_eq!(RejectionKind::InvalidArgument.code(), "ERR_INVALID_ARGS");
    assert_eq!(RejectionKind::TraversalDetected.code(), "ERR_TRAVERSAL_DETECTED");
    assert_eq!(RejectionKind::UnauthorizedBase.code(), "ERR_UNAUTHORIZED_BASE");
    assert_eq!(RejectionKind::NoApplicationDataDirectory.code(), "ERR_NO_APP_DATA");
}
