use nrql::json::{compact_text, parse_json, pretty_text, Json};
use nrql::render::{cell_text, render, render_parsed, render_table, strip_quotes_text, Format, RenderError};

fn s(t: &str) -> String {
    t.to_string()
}

#[test]
fn table_widths_follow_widest_cell() {
    let raw = r#"{"results":[{"events":[{"a":"1","bb":"22"},{"a":"333","bb":"4"}]}]}"#;
    let out = render(raw, Format::Table).unwrap();
    assert_eq!(out, "a   bb \n1   22 \n333 4  \n");
}

#[test]
fn table_from_library_tree() {
    let rows = vec![
        Json::Object(vec![(s("a"), Json::Str(s("1"))), (s("bb"), Json::Str(s("22")))]),
        Json::Object(vec![(s("a"), Json::Str(s("333"))), (s("bb"), Json::Str(s("4")))]),
    ];
    assert_eq!(render_table(&rows), "a   bb \n1   22 \n333 4  \n");
}

#[test]
fn json_format_prints_result_array() {
    let raw = r#"{"results":[{"events":[{"x":1}]}]}"#;
    let out = render(raw, Format::JSON).unwrap();
    assert_eq!(out, "[\n  {\n    \"x\": 1\n  }\n]\n");
}

#[test]
fn raw_format_prints_whole_document() {
    let out = render(r#"{"a":[1,2]}"#, Format::Raw).unwrap();
    assert_eq!(out, "{\n  \"a\": [\n    1,\n    2\n  ]\n}");
}

#[test]
fn csv_is_unsupported_for_any_payload() {
    assert_eq!(render("{}", Format::CSV), Err(RenderError::UnsupportedFormat));
    assert_eq!(render("not json", Format::CSV), Err(RenderError::UnsupportedFormat));
    let ok = r#"{"results":[{"events":[{"x":1}]}]}"#;
    assert_eq!(render(ok, Format::CSV), Err(RenderError::UnsupportedFormat));
    assert_eq!(render_parsed(&None, Format::CSV), Err(RenderError::UnsupportedFormat));
}

#[test]
fn non_json_is_malformed() {
    for f in [Format::Raw, Format::JSON, Format::Table] {
        assert_eq!(render("<html>oops</html>", f), Err(RenderError::MalformedResponse));
        assert_eq!(render("", f), Err(RenderError::MalformedResponse));
    }
}

#[test]
fn bad_envelope_is_malformed() {
    for raw in [r#"{"results":[]}"#, r#"{"other":1}"#, r#"[1,2]"#, r#"{"results":[1]}"#, r#"{"results":[{}]}"#, r#"{"results":[{"events":3}]}"#] {
        assert_eq!(render(raw, Format::Table), Err(RenderError::MalformedResponse));
        assert_eq!(render(raw, Format::JSON), Err(RenderError::MalformedResponse));
    }
}

#[test]
fn table_prints_plain_strings_as_lines() {
    let raw = r#"{"results":[{"eventTypes":["Transaction","PageView"]}]}"#;
    assert_eq!(render(raw, Format::Table).unwrap(), "Transaction\nPageView\n");
}

#[test]
fn table_reports_unexpected_elements() {
    let raw = r#"{"results":[{"events":["t",3,{"k":"v"},null]}]}"#;
    let out = render(raw, Format::Table).unwrap();
    assert_eq!(out, "t\nUnexpected type in result!\nUnexpected type in result!\nk \nv \n");
}

#[test]
fn table_renders_literals_and_nested_values() {
    let raw = r#"{"results":[{"events":[{"n":12,"b":true,"o":{"k":"v"}}]}]}"#;
    let out = render(raw, Format::Table).unwrap();
    assert_eq!(out, "b    n  o         \ntrue 12 {\"k\":\"v\"} \n");
}

#[test]
fn table_of_empty_array_is_empty() {
    let raw = r#"{"results":[{"events":[]}]}"#;
    assert_eq!(render(raw, Format::Table).unwrap(), "");
}

#[test]
fn strip_quotes_removes_one_pair() {
    assert_eq!(strip_quotes_text("\"ab\""), "ab");
    assert_eq!(strip_quotes_text("\"\""), "");
    assert_eq!(strip_quotes_text("\""), "\"");
    assert_eq!(strip_quotes_text("ab"), "ab");
    assert_eq!(strip_quotes_text("\"a\"\""), "a\"");
}

#[test]
fn cell_text_of_values() {
    assert_eq!(cell_text(&Json::Str(s("hi"))), "hi");
    assert_eq!(cell_text(&Json::Bool(false)), "false");
    assert_eq!(cell_text(&Json::Null), "null");
    assert_eq!(cell_text(&Json::Number(serde_json::Number::from(42))), "42");
}

#[test]
fn json_wrappers_round_values() {
    assert_eq!(compact_text(&Json::Str(s("hi"))), "\"hi\"");
    let v = Json::Array(vec![Json::Bool(true), Json::Null]);
    assert_eq!(compact_text(&v), "[true,null]");
    assert_eq!(pretty_text(&v), "[\n  true,\n  null\n]");
    let parsed = parse_json(r#"{"k":[1,"x"]}"#).unwrap();
    assert_eq!(compact_text(&parsed), r#"{"k":[1,"x"]}"#);
    assert!(parse_json("{").is_none());
}

#[test]
fn format_precedence() {
    assert_eq!(Format::from_flags(true, true, true), Format::JSON);
    assert_eq!(Format::from_flags(false, true, true), Format::CSV);
    assert_eq!(Format::from_flags(false, false, true), Format::Raw);
    assert_eq!(Format::from_flags(false, false, false), Format::Table);
}
