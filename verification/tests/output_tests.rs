//! Output formatting and the typed views of response data.

use tab_cli::json::JsonValue;
use tab_cli::output::{
    OutputFormat, OutputFormatter, format_snapshot, format_tab_list, parse_snapshot_data,
    parse_tab_list,
};
use tab_cli::types::{CommandResponse, SnapshotData, TabInfo, TabListData};

fn obj(members: Vec<(&str, JsonValue)>) -> JsonValue {
    let mut out: Vec<(String, JsonValue)> = Vec::new();
    for (k, v) in members {
        out.push((k.to_string(), v));
    }
    JsonValue::Obj(out)
}

fn success_with(data: Option<JsonValue>) -> CommandResponse {
    CommandResponse { id: "cmd-1".to_string(), success: true, data, error: None }
}

#[test]
fn output_formatter_new_stores_format() {
    let formatter = OutputFormatter::new(OutputFormat::Json);
    assert!(matches!(formatter.format, OutputFormat::Json));
}

#[test]
fn format_success_human_with_executed_data() {
    let formatter = OutputFormatter::new(OutputFormat::Human);
    let response = success_with(Some(obj(vec![("executed", JsonValue::Bool(true))])));
    assert_eq!(formatter.format_success(&response), "Success");
}

#[test]
fn format_success_human_with_generic_data() {
    let formatter = OutputFormatter::new(OutputFormat::Human);
    let response = success_with(Some(obj(vec![("result", JsonValue::Str("test".to_string()))])));
    assert!(formatter.format_success(&response).contains("result: test"));
}

#[test]
fn format_success_human_without_data() {
    let formatter = OutputFormatter::new(OutputFormat::Human);
    let response = success_with(None);
    assert_eq!(formatter.format_success(&response), "Success");
}

#[test]
fn format_success_json() {
    let formatter = OutputFormatter::new(OutputFormat::Json);
    let response = success_with(Some(obj(vec![("result", JsonValue::Str("test".to_string()))])));
    let output = formatter.format_success(&response);
    assert!(output.contains("\"result\""));
    assert!(output.contains("\"test\""));
    // The JSON format prints only the data, not the response envelope.
    assert!(!output.contains("\"success\""));
}

#[test]
fn format_success_json_without_data() {
    let formatter = OutputFormatter::new(OutputFormat::Json);
    let response = success_with(None);
    assert_eq!(formatter.format_success(&response), "{}");
}

#[test]
fn format_success_quiet_returns_empty() {
    let formatter = OutputFormatter::new(OutputFormat::Quiet);
    let response = success_with(Some(obj(vec![("result", JsonValue::Str("test".to_string()))])));
    assert_eq!(formatter.format_success(&response), "");
}

#[test]
fn format_error_human() {
    let formatter = OutputFormatter::new(OutputFormat::Human);
    let response = CommandResponse {
        id: "cmd-1".to_string(),
        success: false,
        data: None,
        error: Some("Something went wrong".to_string()),
    };
    assert_eq!(formatter.format_error(&response), "Error: Something went wrong");
}

#[test]
fn format_error_json() {
    let formatter = OutputFormatter::new(OutputFormat::Json);
    let response = CommandResponse {
        id: "cmd-1".to_string(),
        success: false,
        data: None,
        error: Some("Something went wrong".to_string()),
    };
    let output = formatter.format_error(&response);
    assert!(output.contains("\"success\":false"));
    assert!(output.contains("Something went wrong"));
}

#[test]
fn format_error_quiet() {
    let formatter = OutputFormatter::new(OutputFormat::Quiet);
    let response = CommandResponse {
        id: "cmd-1".to_string(),
        success: false,
        data: None,
        error: Some("Something went wrong".to_string()),
    };
    assert_eq!(formatter.format_error(&response), "Something went wrong");
}

#[test]
fn format_snapshot_displays_tree() {
    let data = SnapshotData {
        snapshot: "- RootWebArea \"Example\" [ref=e1]\n  - link \"Home\" [ref=e2]".to_string(),
        title: "Example".to_string(),
        url: "https://example.com/".to_string(),
    };

    let output = format_snapshot(&data);
    assert!(output.contains("Title: Example"));
    assert!(output.contains("URL: https://example.com"));
    assert!(!output.contains("URL: https://example.com/"));
    assert!(output.contains("RootWebArea"));
    assert!(output.contains("link \"Home\""));
}

#[test]
fn format_snapshot_normalizes_url() {
    let data = SnapshotData {
        snapshot: "- RootWebArea".to_string(),
        title: "Test".to_string(),
        url: "https://example.com/path/".to_string(),
    };

    let output = format_snapshot(&data);
    assert!(output.contains("URL: https://example.com/path"));
}

#[test]
fn format_tab_list_displays_tabs() {
    let data = TabListData {
        tabs: vec![
            TabInfo {
                id: 1,
                url: "https://example.com".to_string(),
                title: "Example".to_string(),
                active: true,
            },
            TabInfo {
                id: 2,
                url: "https://test.com".to_string(),
                title: "Test".to_string(),
                active: false,
            },
        ],
        active_tab_id: 1,
    };

    let output = format_tab_list(&data);
    assert!(output.contains("Open tabs"));
    assert!(output.contains("* [1] Example"));
    assert!(output.contains("  [2] Test"));
    assert!(output.contains("https://example.com"));
    assert!(output.contains("https://test.com"));
}

#[test]
fn format_human_snapshot_via_formatter() {
    let formatter = OutputFormatter::new(OutputFormat::Human);
    let response = success_with(Some(obj(vec![
        ("snapshot", JsonValue::Str("- RootWebArea \"Google\" [ref=e1]".to_string())),
        ("title", JsonValue::Str("Google".to_string())),
        ("url", JsonValue::Str("https://www.google.com/".to_string())),
    ])));

    let output = formatter.format_success(&response);
    assert!(output.contains("Title: Google"));
    assert!(output.contains("URL: https://www.google.com"));
    assert!(output.contains("RootWebArea"));
}

#[test]
fn format_human_tab_list_via_formatter() {
    let formatter = OutputFormatter::new(OutputFormat::Human);
    let response = success_with(Some(obj(vec![
        ("activeTabId", JsonValue::Int(1408441702)),
        (
            "tabs",
            JsonValue::Arr(vec![
                obj(vec![
                    ("active", JsonValue::Bool(false)),
                    ("id", JsonValue::Int(1408441701)),
                    ("title", JsonValue::Str("Google Images".to_string())),
                    (
                        "url",
                        JsonValue::Str(
                            "https://www.google.com/imghp?hl=en&authuser=0&ogbl".to_string(),
                        ),
                    ),
                ]),
                obj(vec![
                    ("active", JsonValue::Bool(true)),
                    ("id", JsonValue::Int(1408441702)),
                    ("title", JsonValue::Str("Google".to_string())),
                    ("url", JsonValue::Str("https://www.google.com/".to_string())),
                ]),
            ]),
        ),
    ])));

    let output = formatter.format_success(&response);
    assert!(output.contains("Open tabs"), "Expected tab list format, got: {}", output);
    assert!(output.contains("* [1408441702] Google"));
    assert!(output.contains("  [1408441701] Google Images"));
}

#[test]
fn parse_tab_list_deserializes_correctly() {
    let response = success_with(Some(obj(vec![
        (
            "tabs",
            JsonValue::Arr(vec![obj(vec![
                ("id", JsonValue::Int(1)),
                ("url", JsonValue::Str("https://example.com".to_string())),
                ("title", JsonValue::Str("Example".to_string())),
            ])]),
        ),
        ("active_tab_id", JsonValue::Int(1)),
    ])));

    let data = parse_tab_list(&response).unwrap();
    assert_eq!(data.tabs.len(), 1);
    assert_eq!(data.active_tab_id, 1);
}

#[test]
fn parse_tab_list_errors_without_data() {
    let response = success_with(None);
    assert!(parse_tab_list(&response).is_err());
}

#[test]
fn parse_snapshot_data_reads_the_snapshot_shape() {
    let response = success_with(Some(obj(vec![
        ("snapshot", JsonValue::Str("- RootWebArea".to_string())),
        ("title", JsonValue::Str("Example".to_string())),
        ("url", JsonValue::Str("https://example.com".to_string())),
    ])));
    let data = parse_snapshot_data(&response).unwrap();
    assert_eq!(data.title, "Example");
    assert_eq!(data.snapshot, "- RootWebArea");
}

#[test]
fn parse_snapshot_data_errors_without_data() {
    let response = success_with(None);
    assert!(parse_snapshot_data(&response).is_err());
}
