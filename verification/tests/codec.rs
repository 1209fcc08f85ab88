use safe_paths::json::parse_json_text;
use safe_paths::json::render_json_text;
use safe_paths::settings::settings_file_path;
use safe_paths::settings::settings_from_contents;

fn b(s: &str) -> Vec<u8> {
    s.as_bytes().to_vec()
}

#[test]
fn rendering_pretty_prints() {
    let v = parse_json_text("{\"a\":1}").unwrap();
    let text = render_json_text(&v).unwrap();
    assert_eq!(text, "{\n  \"a\": 1\n}");
}

#[test]
fn rendering_then_parsing_restores_the_value() {
    let v = parse_json_text("{\"name\":\"aras\",\"items\":[1,2,3]}").unwrap();
    let text = render_json_text(&v).unwrap();
    let back = parse_json_text(&text).unwrap();
    assert_eq!(v, back);
}

#[test]
fn parse_rejects_non_json() {
    assert!(parse_json_text("not json").is_err());
    assert!(parse_json_text("{\"a\":").is_err());
    assert!(parse_json_text("3").is_ok());
}

#[test]
fn missing_settings_default_to_empty_object() {
    let v = settings_from_contents(&None).unwrap();
    let empty: serde_json::Value = serde_json::from_str("{}").unwrap();
    assert_eq!(v, empty);
}

#[test]
fn present_settings_must_parse() {
    let v = settings_from_contents(&Some("{\"theme\":\"dark\"}".to_string())).unwrap();
    let expected: serde_json::Value = serde_json::from_str("{\"theme\":\"dark\"}").unwrap();
    assert_eq!(v, expected);
    assert!(settings_from_contents(&Some("broken".to_string())).is_err());
}

#[test]
fn settings_live_under_the_data_directory() {
    let p = settings_file_path(&b("/home/u/.local/share/app"));
    assert_eq!(p, b("/home/u/.local/share/app/Settings/settings.json"));
}
