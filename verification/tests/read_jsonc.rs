use luci::json::{Field, FieldType, JsonValue, Shape};
use luci::reader::{read_jsonc, FileState, Snapshot};
use luci::result::Error;

fn configuration_shape() -> Shape {
    Shape {
        fields: vec![
            Field { name: "host".to_string(), ty: FieldType::Text },
            Field { name: "port".to_string(), ty: FieldType::UInt },
        ],
    }
}

fn one_file(path: &str, mode: u32, content: &str) -> Snapshot {
    Snapshot {
        files: vec![(path.to_string(), FileState::File { mode, content: content.to_string() })],
    }
}

#[test]
fn valid() {
    let file = "tests/data/valid.json";
    let content = "{\n  // the address to listen on\n  \"host\": \"127.0.0.1\",\n  \"port\": 8000\n}\n";
    let snapshot = one_file(file, 0o600, content);
    let candidates = vec![file.to_string()];
    let (config, read_file) =
        read_jsonc(&candidates, &snapshot, &configuration_shape()).unwrap();
    assert_eq!(config.get_text(&"host".to_string()).unwrap().as_str(), "127.0.0.1");
    assert_eq!(config.get_u64(&"port".to_string()), Some(8000));
    assert_eq!(read_file.as_str(), file);
}

#[test]
fn not_found() {
    let file = "tests/data/not_existed.json";
    let snapshot = Snapshot { files: vec![] };
    let candidates = vec![file.to_string()];
    let error = read_jsonc(&candidates, &snapshot, &configuration_shape()).unwrap_err();
    let matched_error = matches!(error, Error::NotFound);
    assert!(matched_error);
}

#[test]
fn unknown_field() {
    let file = "tests/data/unknown_field.json";
    let content = "{\n  \"host\": \"127.0.0.1\",\n  \"port\": 8000,\n  \"debug\": true\n}\n";
    let snapshot = one_file(file, 0o600, content);
    let candidates = vec![file.to_string()];
    let error = read_jsonc(&candidates, &snapshot, &configuration_shape()).unwrap_err();
    let matched_error = matches!(error, Error::Deserialization(_, _));
    assert!(matched_error);
}

#[test]
fn missing_field() {
    let file = "tests/data/missing_field.json";
    let content = "{\n  \"host\": \"127.0.0.1\"\n}\n";
    let snapshot = one_file(file, 0o600, content);
    let candidates = vec![file.to_string()];
    let error = read_jsonc(&candidates, &snapshot, &configuration_shape()).unwrap_err();
    let matched_error = matches!(error, Error::Deserialization(_, _));
    assert!(matched_error);
}

#[test]
fn malformed_format() {
    let file = "tests/data/malformed_jsonc.json";
    let content = "{\n  \"host\": [1,\n";
    let snapshot = one_file(file, 0o600, content);
    let candidates = vec![file.to_string()];
    let error = read_jsonc(&candidates, &snapshot, &configuration_shape()).unwrap_err();
    let matched_error = matches!(error, Error::Deserialization(_, _));
    assert!(matched_error);
}

#[test]
fn empty_candidates() {
    let snapshot = one_file("a.json", 0o600, "{\"host\": \"h\", \"port\": 1}");
    let candidates: Vec<String> = vec![];
    let error = read_jsonc(&candidates, &snapshot, &configuration_shape()).unwrap_err();
    assert_eq!(error, Error::NotFound);
}

#[test]
fn no_candidate_exists() {
    let snapshot = Snapshot { files: vec![] };
    let candidates = vec!["a.json".to_string(), "b.json".to_string(), "c.json".to_string()];
    let error = read_jsonc(&candidates, &snapshot, &configuration_shape()).unwrap_err();
    assert_eq!(error, Error::NotFound);
}

#[test]
fn group_readable_rejected() {
    let file = "server.json";
    let snapshot = one_file(file, 0o640, "{\"host\": \"h\", \"port\": 1}");
    let candidates = vec![file.to_string()];
    let error = read_jsonc(&candidates, &snapshot, &configuration_shape()).unwrap_err();
    assert_eq!(error, Error::Insecured(file.to_string(), 0o640));
}

#[test]
fn world_readable_rejected() {
    let file = "server.json";
    // a full stat mode: regular-file type bits above the access bits
    let snapshot = one_file(file, 0o100644, "{\"host\": \"h\", \"port\": 1}");
    let candidates = vec![file.to_string()];
    let error = read_jsonc(&candidates, &snapshot, &configuration_shape()).unwrap_err();
    assert_eq!(error, Error::Insecured(file.to_string(), 0o100644));
    assert_eq!(error.describe(), "Insecured. permission=644; file=server.json");
}

#[test]
fn read_only_owner_accepted() {
    let file = "server.json";
    let snapshot = one_file(file, 0o400, "{\"host\": \"h\", \"port\": 1}");
    let candidates = vec![file.to_string()];
    let (config, read_file) =
        read_jsonc(&candidates, &snapshot, &configuration_shape()).unwrap();
    assert_eq!(config.get_u64(&"port".to_string()), Some(1));
    assert_eq!(read_file.as_str(), file);
}

#[test]
fn priority_order() {
    let content_1 = "{\"host\": \"first\", \"port\": 1}";
    let content_2 = "{\"host\": \"second\", \"port\": 2}";
    let snapshot = Snapshot {
        files: vec![
            (
                "secured-valid.json".to_string(),
                FileState::File { mode: 0o600, content: content_1.to_string() },
            ),
            (
                "secured-valid-2.json".to_string(),
                FileState::File { mode: 0o600, content: content_2.to_string() },
            ),
        ],
    };
    let candidates = vec![
        "missing.json".to_string(),
        "secured-valid.json".to_string(),
        "secured-valid-2.json".to_string(),
    ];
    let (config, read_file) =
        read_jsonc(&candidates, &snapshot, &configuration_shape()).unwrap();
    assert_eq!(read_file.as_str(), "secured-valid.json");
    assert_eq!(config.get_text(&"host".to_string()).unwrap().as_str(), "first");
    assert_eq!(config.get_u64(&"port".to_string()), Some(1));
}

#[test]
fn resolve_twice_same_outcome() {
    let file = "config.json";
    let content = "{\n  \"host\": \"127.0.0.1\",\n  \"port\": 8000\n}";
    let snapshot = one_file(file, 0o600, content);
    let candidates = vec!["gone.json".to_string(), file.to_string()];
    let shape = configuration_shape();
    let (config_1, file_1) = read_jsonc(&candidates, &snapshot, &shape).unwrap();
    let (config_2, file_2) = read_jsonc(&candidates, &snapshot, &shape).unwrap();
    assert_eq!(config_1.entries, config_2.entries);
    assert_eq!(file_1, file_2);
}

#[test]
fn resolve_twice_same_error() {
    let file = "config.json";
    let snapshot = one_file(file, 0o600, "{\"host\": [1,");
    let candidates = vec![file.to_string()];
    let shape = configuration_shape();
    let error_1 = read_jsonc(&candidates, &snapshot, &shape).unwrap_err();
    let error_2 = read_jsonc(&candidates, &snapshot, &shape).unwrap_err();
    assert_eq!(error_1, error_2);
}

#[test]
fn unreadable_candidate_stops_resolution() {
    let snapshot = Snapshot {
        files: vec![
            (
                "locked.json".to_string(),
                FileState::Unreadable("permission denied".to_string()),
            ),
            (
                "open.json".to_string(),
                FileState::File { mode: 0o600, content: "{\"host\": \"h\", \"port\": 1}".to_string() },
            ),
        ],
    };
    let candidates = vec!["locked.json".to_string(), "open.json".to_string()];
    let error = read_jsonc(&candidates, &snapshot, &configuration_shape()).unwrap_err();
    assert_eq!(
        error,
        Error::Io("locked.json".to_string(), "permission denied".to_string())
    );
    assert_eq!(error.describe(), "I/O: permission denied; file=locked.json");
}

#[test]
fn concrete_decode_scenario() {
    let file = "scenario.json";
    let content = "{\"host\": \"127.0.0.1\", \"port\": 8000}";
    let snapshot = one_file(file, 0o600, content);
    let candidates = vec![file.to_string()];
    let (config, _) = read_jsonc(&candidates, &snapshot, &configuration_shape()).unwrap();
    assert_eq!(config.entries.len(), 2);
    assert_eq!(
        config.entries[0],
        ("host".to_string(), JsonValue::Text("127.0.0.1".to_string()))
    );
    assert_eq!(config.entries[1], ("port".to_string(), JsonValue::UInt(8000)));
}
