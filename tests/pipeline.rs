use css_properties_sync::model::{CssProperty, CssPropertyName, SyncError};
use css_properties_sync::normalize::{normalize, remodel_raw_css_properties};
use css_properties_sync::render::{render_quoted_css_properties, serialize_css_properties};
use css_properties_sync::repository::{
    check_put_response, contents_url, prepare_push, put_request_body, render_put_body,
    SyncConfig,
};
use css_properties_sync::sort::sort_css_properties;
use css_properties_sync::stage::Stage;

fn record(original: &str, pascal_case: &str) -> CssProperty {
    CssProperty {
        name: CssPropertyName {
            original: original.to_string(),
            pascal_case: pascal_case.to_string(),
        },
    }
}

fn originals(v: &[CssProperty]) -> Vec<String> {
    v.iter().map(|p| p.name.original.clone()).collect()
}

#[test]
fn normalize_joins_capitalised_words() {
    assert_eq!(normalize("background-color"), "BackgroundColor");
    assert_eq!(normalize("border"), "Border");
}

#[test]
fn normalize_vendor_prefix_and_empty_segments() {
    assert_eq!(normalize("-webkit-box-shadow"), "WebkitBoxShadow");
    assert_eq!(normalize("a--b"), "AB");
    assert_eq!(normalize("grid-row-3"), "GridRow3");
    assert_eq!(normalize("trailing-"), "Trailing");
    assert_eq!(normalize("3d-x"), "3DX");
    assert_eq!(normalize("line-clamp2"), "LineClamp2");
}

#[test]
fn normalize_empty_and_delimiters_only() {
    assert_eq!(normalize(""), "");
    assert_eq!(normalize("---"), "");
}

#[test]
fn normalize_is_deterministic_and_free_of_delimiters() {
    for name in ["border-top-left-radius", "-moz-appearance", "x", "inset-inline-end"] {
        let a = normalize(name);
        let b = normalize(name);
        assert_eq!(a, b);
        assert!(!a.is_empty());
        assert!(!a.contains('-'));
        assert!(a.chars().next().unwrap().is_ascii_uppercase());
    }
}

#[test]
fn remodel_keeps_order_and_originals() {
    let r = remodel_raw_css_properties(vec!["border".to_string(), "background-color".to_string()]);
    assert_eq!(r.len(), 2);
    assert_eq!(r[0].name.original, "border");
    assert_eq!(r[0].name.pascal_case, "Border");
    assert_eq!(r[1].name.original, "background-color");
    assert_eq!(r[1].name.pascal_case, "BackgroundColor");
}

#[test]
fn sort_orders_by_code_points() {
    let mut v = vec![
        record("border", "Border"),
        record("Zoom", "Zoom"),
        record("background-color", "BackgroundColor"),
        record("-webkit-box", "WebkitBox"),
        record("background", "Background"),
    ];
    sort_css_properties(&mut v);
    assert_eq!(
        originals(&v),
        vec!["-webkit-box", "Zoom", "background", "background-color", "border"]
    );
}

#[test]
fn sort_twice_equals_once() {
    let mut v = vec![record("c", "C"), record("a", "A"), record("b", "B")];
    sort_css_properties(&mut v);
    let once = originals(&v);
    sort_css_properties(&mut v);
    assert_eq!(originals(&v), once);
    assert_eq!(once, vec!["a", "b", "c"]);
}

#[test]
fn sort_is_stable_for_equal_names() {
    let mut v = vec![record("b", "First"), record("a", "A"), record("b", "Second")];
    sort_css_properties(&mut v);
    assert_eq!(v[1].name.pascal_case, "First");
    assert_eq!(v[2].name.pascal_case, "Second");
}

#[test]
fn sort_empty_and_single() {
    let mut v: Vec<CssProperty> = Vec::new();
    sort_css_properties(&mut v);
    assert!(v.is_empty());
    let mut w = vec![record("a", "A")];
    sort_css_properties(&mut w);
    assert_eq!(originals(&w), vec!["a"]);
}

#[test]
fn end_to_end_two_properties() {
    let mut v =
        remodel_raw_css_properties(vec!["border".to_string(), "background-color".to_string()]);
    sort_css_properties(&mut v);
    assert_eq!(originals(&v), vec!["background-color", "border"]);
    let text = serialize_css_properties(&v);
    let expected = "[\n  {\n    \"name\": {\n      \"original\": \"background-color\",\n      \"pascal_case\": \"BackgroundColor\"\n    }\n  },\n  {\n    \"name\": {\n      \"original\": \"border\",\n      \"pascal_case\": \"Border\"\n    }\n  }\n]";
    assert_eq!(text, expected);
}

fn value_of(original: &str, pascal_case: &str) -> serde_json::Value {
    let mut inner = serde_json::Map::new();
    inner.insert("original".to_string(), serde_json::Value::String(original.to_string()));
    inner.insert("pascal_case".to_string(), serde_json::Value::String(pascal_case.to_string()));
    let mut outer = serde_json::Map::new();
    outer.insert("name".to_string(), serde_json::Value::Object(inner));
    serde_json::Value::Object(outer)
}

#[test]
fn serialize_matches_serde_json_pretty() {
    let v = vec![record("a\"b", "AB"), record("tab\there", "TabHere"), record("\\", "")];
    let text = serialize_css_properties(&v);
    let expected = serde_json::to_string_pretty(&serde_json::Value::Array(vec![
        value_of("a\"b", "AB"),
        value_of("tab\there", "TabHere"),
        value_of("\\", ""),
    ]))
    .unwrap();
    assert_eq!(text, expected);
    assert!(text.contains("\"original\": \"a\\\"b\""));
}

#[test]
fn serialize_is_deterministic() {
    let v = vec![record("a", "A"), record("b", "B")];
    assert_eq!(serialize_css_properties(&v), serialize_css_properties(&v));
}

#[test]
fn serialize_empty_collection() {
    assert_eq!(serialize_css_properties(&Vec::new()), "[]");
    assert_eq!(render_quoted_css_properties(&Vec::new()), "[]");
}

#[test]
fn render_lays_out_given_literals() {
    let q = vec![("\"x\"".to_string(), "\"X\"".to_string())];
    assert_eq!(
        render_quoted_css_properties(&q),
        "[\n  {\n    \"name\": {\n      \"original\": \"x\",\n      \"pascal_case\": \"X\"\n    }\n  }\n]"
    );
}

#[test]
fn contents_url_of_standard_config() {
    let c = SyncConfig::standard();
    assert_eq!(
        contents_url(&c),
        "https://api.github.com/repos/MartinKavik/html-css-db/contents/css_properties.json"
    );
    assert_eq!(c.token_variable, "GITHUB_TOKEN");
    assert_eq!(c.branch, "master");
}

#[test]
fn put_body_encodes_content_in_base64() {
    let c = SyncConfig::standard();
    let body = put_request_body(&c, "hi", "abc123");
    let expected = "{\n  \"message\": \"Updated CSS properties\",\n  \"content\": \"aGk=\",\n  \"sha\": \"abc123\",\n  \"committer\": {\n    \"name\": \"CRON_JOB\",\n    \"email\": \"CRON_JOB\"\n  },\n  \"branch\": \"master\"\n}";
    assert_eq!(body, expected);
    let parsed: serde_json::Value = serde_json::from_str(&body).unwrap();
    assert_eq!(parsed["sha"], "abc123");
}

#[test]
fn missing_token_prepares_no_write() {
    let c = SyncConfig::standard();
    let r = prepare_push(&c, None, "[]", "abc");
    assert!(matches!(r, Err(SyncError::MissingToken)));
}

#[test]
fn token_present_prepares_write() {
    let c = SyncConfig::standard();
    let r = prepare_push(&c, Some("SECRET-REDACTED".to_string()), "[]", "abc").unwrap();
    assert_eq!(r.token, "SECRET-REDACTED");
    assert_eq!(r.url, contents_url(&c));
    assert_eq!(r.body, put_request_body(&c, "[]", "abc"));
    assert!(r.body.contains("\"content\": \"W10=\""));
}

#[test]
fn stale_revision_is_a_failure() {
    let r = check_put_response(409, "sha does not match".to_string());
    match r {
        Err(SyncError::Rejected { status, body }) => {
            assert_eq!(status, 409);
            assert_eq!(body, "sha does not match");
        }
        _ => panic!("a conflict must not count as success"),
    }
    assert!(matches!(check_put_response(422, String::new()), Err(SyncError::Rejected { .. })));
    assert!(matches!(check_put_response(201, String::new()), Err(SyncError::Rejected { .. })));
}

#[test]
fn status_ok_is_success() {
    assert!(check_put_response(200, String::new()).is_ok());
}

#[test]
fn stages_move_forward_and_failure_is_final() {
    let mut s = Stage::Init;
    let mut seen = vec![s];
    while !s.is_finished() {
        s = s.next(true);
        seen.push(s);
    }
    assert_eq!(seen.len(), 7);
    assert_eq!(s, Stage::Pushed);
    assert_eq!(Stage::RevisionRead.next(false), Stage::Failed);
    assert_eq!(Stage::Failed.next(true), Stage::Failed);
    assert_eq!(Stage::Failed.next(false), Stage::Failed);
    assert_eq!(Stage::Pushed.next(false), Stage::Pushed);
}

#[test]
fn input_order_does_not_change_the_document() {
    let names = ["border", "-webkit-box", "background-color", "color", "background"];
    let mut forward = remodel_raw_css_properties(names.iter().map(|n| n.to_string()).collect());
    let mut backward =
        remodel_raw_css_properties(names.iter().rev().map(|n| n.to_string()).collect());
    sort_css_properties(&mut forward);
    sort_css_properties(&mut backward);
    assert_eq!(
        serialize_css_properties(&forward),
        serialize_css_properties(&backward)
    );
}

#[test]
fn put_body_layout_from_literals() {
    let b = render_put_body("\"m\"", "\"c\"", "\"s\"", "\"n\"", "\"e\"", "\"b\"");
    assert_eq!(
        b,
        "{\n  \"message\": \"m\",\n  \"content\": \"c\",\n  \"sha\": \"s\",\n  \"committer\": {\n    \"name\": \"n\",\n    \"email\": \"e\"\n  },\n  \"branch\": \"b\"\n}"
    );
}
