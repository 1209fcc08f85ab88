use safe_paths::listing::list_json_entries;
use safe_paths::paths::join_under;
use safe_paths::paths::split_last_component;
use safe_paths::paths::split_path;

fn b(s: &str) -> Vec<u8> {
    s.as_bytes().to_vec()
}

#[test]
fn components_drop_empty_runs() {
    assert_eq!(split_path(&b("/a//b/")), vec![b("a"), b("b")]);
    assert_eq!(split_path(&b("a/b/c")), vec![b("a"), b("b"), b("c")]);
    assert_eq!(split_path(&b("")), Vec::<Vec<u8>>::new());
    assert_eq!(split_path(&b("///")), Vec::<Vec<u8>>::new());
    assert_eq!(split_path(&b("..")), vec![b("..")]);
}

#[test]
fn join_inserts_a_single_separator() {
    assert_eq!(join_under(&b("/a"), &b("b")), b("/a/b"));
    assert_eq!(join_under(&b("/a/"), &b("b")), b("/a/b"));
    assert_eq!(join_under(&b(""), &b("b")), b("b"));
}

#[test]
fn split_last_component_cases() {
    assert_eq!(
        split_last_component(&b("/data/x/y.json")),
        Some((b("/data/x"), b("y.json")))
    );
    assert_eq!(split_last_component(&b("/x")), Some((b("/"), b("x"))));
    assert_eq!(split_last_component(&b("name")), None);
}

#[test]
fn listing_keeps_only_json_entries() {
    let names = vec![b("a.json"), b("b.txt")];
    let r = list_json_entries(&names);
    assert_eq!(r, vec![b("a.json")]);
}

#[test]
fn listing_keeps_order_and_skips_bare_suffix() {
    let names = vec![b("z.json"), b(".json"), b("a.json"), b("njson")];
    let r = list_json_entries(&names);
    assert_eq!(r, vec![b("z.json"), b("a.json")]);
}
