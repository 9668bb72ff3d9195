use curtaurl_admin::args::ArgError;
use curtaurl_admin::args::Invocation;
use curtaurl_admin::args::dispatch;
use curtaurl_admin::args::usage_text;
use curtaurl_admin::decimal::i64_to_string;
use curtaurl_admin::decimal::parse_i64;
use curtaurl_admin::decimal::u64_to_string;
use curtaurl_admin::payload::create_payload;
use curtaurl_admin::report::ApiFailure;
use curtaurl_admin::report::ApiKeyRecord;
use curtaurl_admin::report::CreateKeyResponse;
use curtaurl_admin::report::KeyListResponse;
use curtaurl_admin::report::KeyRevokeResponse;
use curtaurl_admin::report::create_report;
use curtaurl_admin::report::keys_path;
use curtaurl_admin::report::list_report;
use curtaurl_admin::report::missing_credential_message;
use curtaurl_admin::report::revoke_path;
use curtaurl_admin::report::revoke_report;
use curtaurl_admin::table::compute_widths;
use curtaurl_admin::table::format_row;
use curtaurl_admin::table::format_sep;
use curtaurl_admin::table::render_table;
use curtaurl_admin::timestamp::format_opt_ts;
use curtaurl_admin::timestamp::format_ts;

fn strings(items: &[&str]) -> Vec<String> {
    items.iter().map(|s| s.to_string()).collect()
}

#[test]
fn decimal_rendering_exact() {
    assert_eq!(u64_to_string(0), "0");
    assert_eq!(u64_to_string(7), "7");
    assert_eq!(u64_to_string(10), "10");
    assert_eq!(u64_to_string(18446744073709551615), "18446744073709551615");
    assert_eq!(i64_to_string(0), "0");
    assert_eq!(i64_to_string(-5), "-5");
    assert_eq!(i64_to_string(9223372036854775807), "9223372036854775807");
    assert_eq!(i64_to_string(i64::MIN), "-9223372036854775808");
}

#[test]
fn decimal_parsing() {
    assert_eq!(parse_i64("42"), Some(42));
    assert_eq!(parse_i64("+42"), Some(42));
    assert_eq!(parse_i64("-7"), Some(-7));
    assert_eq!(parse_i64("007"), Some(7));
    assert_eq!(parse_i64("0"), Some(0));
    assert_eq!(parse_i64("-0"), Some(0));
    assert_eq!(parse_i64("9223372036854775807"), Some(i64::MAX));
    assert_eq!(parse_i64("9223372036854775808"), None);
    assert_eq!(parse_i64("-9223372036854775808"), Some(i64::MIN));
    assert_eq!(parse_i64("-9223372036854775809"), None);
    assert_eq!(parse_i64("99999999999999999999999"), None);
    assert_eq!(parse_i64(""), None);
    assert_eq!(parse_i64("-"), None);
    assert_eq!(parse_i64("+"), None);
    assert_eq!(parse_i64("abc"), None);
    assert_eq!(parse_i64("12x"), None);
    assert_eq!(parse_i64(" 12"), None);
}

#[test]
fn table_lines_share_one_length() {
    let headers = strings(&["ID", "Name", "Notes"]);
    let rows = vec![
        strings(&["1", "alpha", ""]),
        strings(&["42", "b", "a longer note"]),
        strings(&["30000", "x", "y"]),
    ];
    let lines = render_table(&headers, &rows);
    assert_eq!(lines.len(), 2 + rows.len());
    let first = lines[0].chars().count();
    for line in &lines {
        assert_eq!(line.chars().count(), first);
    }
}

#[test]
fn table_rendering_exact() {
    let headers = strings(&["ID", "Name"]);
    let rows = vec![strings(&["1", "alpha"]), strings(&["42", "b"])];
    let widths = compute_widths(&headers, &rows);
    assert_eq!(widths, vec![2, 5]);
    assert_eq!(format_row(&headers, &widths), "| ID | Name  |");
    assert_eq!(format_sep(&widths), "| -- | ----- |");
    let lines = render_table(&headers, &rows);
    assert_eq!(
        lines,
        vec![
            "| ID | Name  |".to_string(),
            "| -- | ----- |".to_string(),
            "| 1  | alpha |".to_string(),
            "| 42 | b     |".to_string(),
        ]
    );
}

#[test]
fn cell_longer_than_width_is_kept_whole() {
    let cells = strings(&["toolong"]);
    let widths = vec![3usize];
    assert_eq!(format_row(&cells, &widths), "| toolong |");
}

#[test]
fn optional_timestamp_placeholder_and_agreement() {
    assert_eq!(format_opt_ts(None), "-");
    assert_eq!(format_opt_ts(Some(0)), format_ts(0));
    assert_eq!(format_opt_ts(Some(1431648000)), format_ts(1431648000));
}

#[test]
fn timestamp_in_range_is_rfc3339() {
    assert_eq!(format_ts(0), "1970-01-01T00:00:00+00:00");
    assert_eq!(format_ts(1431648000), "2015-05-15T00:00:00+00:00");
    assert_eq!(format_ts(-1), "1969-12-31T23:59:59+00:00");
}

#[test]
fn timestamp_out_of_range_falls_back_to_decimal() {
    assert_eq!(format_ts(i64::MAX), "9223372036854775807");
    assert_eq!(format_ts(i64::MIN), "-9223372036854775808");
}

#[test]
fn create_without_name_is_rejected() {
    let r = dispatch(&strings(&["create"]));
    match r {
        Err(ArgError::MissingName) => {}
        _ => panic!("expected the missing-name error"),
    }
    let msg = ArgError::MissingName.message();
    assert_eq!(msg, "--name is required for create.");
    assert!(msg.contains("--name"));
}

#[test]
fn create_with_flags_is_accepted() {
    let r = dispatch(&strings(&["create", "--name", "deploy", "--notes", "ci key"]));
    match r {
        Ok(Invocation::Create { name, notes }) => {
            assert_eq!(name, "deploy");
            assert_eq!(notes.as_deref(), Some("ci key"));
        }
        _ => panic!("expected a create invocation"),
    }
}

#[test]
fn later_flag_value_overwrites_earlier() {
    let r = dispatch(&strings(&["create", "--name", "a", "--name", "b"]));
    match r {
        Ok(Invocation::Create { name, notes }) => {
            assert_eq!(name, "b");
            assert_eq!(notes, None);
        }
        _ => panic!("expected a create invocation"),
    }
}

#[test]
fn name_flag_without_value_is_missing() {
    let r = dispatch(&strings(&["create", "--name"]));
    match r {
        Err(ArgError::MissingName) => {}
        _ => panic!("expected the missing-name error"),
    }
}

#[test]
fn revoke_with_non_numeric_id_is_rejected() {
    let r = dispatch(&strings(&["revoke", "--id", "abc"]));
    match r {
        Err(ArgError::InvalidId) => {}
        _ => panic!("expected the invalid-id error"),
    }
    let msg = ArgError::InvalidId.message();
    assert_eq!(msg, "--id must be a number.");
    assert!(msg.contains("--id"));
}

#[test]
fn revoke_without_id_is_rejected() {
    let r = dispatch(&strings(&["revoke"]));
    match r {
        Err(ArgError::MissingId) => {}
        _ => panic!("expected the missing-id error"),
    }
    assert_eq!(ArgError::MissingId.message(), "--id is required for revoke.");
}

#[test]
fn revoke_with_numeric_id_is_accepted() {
    let r = dispatch(&strings(&["revoke", "--id", "42"]));
    match r {
        Ok(Invocation::Revoke { id }) => assert_eq!(id, 42),
        _ => panic!("expected a revoke invocation"),
    }
}

#[test]
fn list_takes_no_flags() {
    let r = dispatch(&strings(&["list"]));
    match r {
        Ok(Invocation::List) => {}
        _ => panic!("expected a list invocation"),
    }
}

#[test]
fn help_short_circuits() {
    match dispatch(&strings(&["--help"])) {
        Ok(Invocation::Help) => {}
        _ => panic!("expected help"),
    }
    match dispatch(&strings(&["create", "--name", "x", "-h"])) {
        Ok(Invocation::Help) => {}
        _ => panic!("expected help"),
    }
    match dispatch(&strings(&["revoke", "--help"])) {
        Ok(Invocation::Help) => {}
        _ => panic!("expected help"),
    }
}

#[test]
fn empty_and_unknown_invocations() {
    match dispatch(&strings(&[])) {
        Err(ArgError::NoCommand) => {}
        _ => panic!("expected the no-command error"),
    }
    match dispatch(&strings(&["frobnicate"])) {
        Err(ArgError::UnknownCommand(c)) => {
            assert_eq!(c, "frobnicate");
            assert_eq!(
                ArgError::UnknownCommand(c).message(),
                "Unknown command: frobnicate"
            );
        }
        _ => panic!("expected the unknown-command error"),
    }
    match dispatch(&strings(&["create", "--bogus"])) {
        Err(ArgError::UnknownArgument(a)) => {
            assert_eq!(a, "--bogus");
            assert_eq!(
                ArgError::UnknownArgument(a).message(),
                "Unknown argument: --bogus"
            );
        }
        _ => panic!("expected the unknown-argument error"),
    }
}

#[test]
fn usage_text_names_the_commands() {
    let u = usage_text();
    assert!(u.contains("create --name <name> [--notes <notes>]"));
    assert!(u.contains("revoke --id <id>"));
    assert!(u.contains("CURTAURL_API_KEY (required)"));
    assert!(u.contains("CURTAURL_URL (default: http://localhost:4567)"));
}

#[test]
fn empty_listing_prints_fixed_message() {
    let body = KeyListResponse { success: true, error: false, keys: vec![] };
    let r = list_report(&body);
    assert_eq!(r, Ok(vec!["No managed API keys found.".to_string()]));
}

#[test]
fn listing_two_keys_renders_revoked_column() {
    let body = KeyListResponse {
        success: true,
        error: false,
        keys: vec![
            ApiKeyRecord {
                id: 1,
                name: "active".to_string(),
                created_at: 0,
                last_used_at: None,
                revoked_at: None,
                notes: None,
            },
            ApiKeyRecord {
                id: 2,
                name: "old".to_string(),
                created_at: 0,
                last_used_at: Some(100),
                revoked_at: Some(1431648000),
                notes: Some("retired".to_string()),
            },
        ],
    };
    let lines = list_report(&body).expect("a rendered table");
    assert_eq!(lines.len(), 4);
    let first_row = &lines[2];
    let second_row = &lines[3];
    let revoked_cell_1: &str = first_row.split('|').nth(5).unwrap().trim();
    let revoked_cell_2: &str = second_row.split('|').nth(5).unwrap().trim();
    assert_eq!(revoked_cell_1, "-");
    assert_eq!(revoked_cell_2, "2015-05-15T00:00:00+00:00");
    let width = lines[0].chars().count();
    for line in &lines {
        assert_eq!(line.chars().count(), width);
    }
}

#[test]
fn server_error_dispositions() {
    let body = KeyListResponse { success: false, error: true, keys: vec![] };
    assert_eq!(list_report(&body), Err("Server error while listing keys.".to_string()));
    let body = CreateKeyResponse {
        success: false,
        error: true,
        id: 0,
        name: String::new(),
        key: String::new(),
        created_at: 0,
    };
    assert_eq!(create_report(&body), Err("Server error while creating key.".to_string()));
    let body = KeyRevokeResponse { success: false, error: true, id: 0, revoked: false };
    assert_eq!(revoke_report(&body), Err("Server error while revoking key.".to_string()));
}

#[test]
fn neither_flag_set_prints_nothing() {
    let body = KeyListResponse { success: false, error: false, keys: vec![] };
    assert_eq!(list_report(&body), Ok(vec![]));
    let body = KeyRevokeResponse { success: false, error: false, id: 1, revoked: true };
    assert_eq!(revoke_report(&body), Ok(vec![]));
}

#[test]
fn create_success_lines() {
    let body = CreateKeyResponse {
        success: true,
        error: false,
        id: 7,
        name: "deploy".to_string(),
        key: "sk-123".to_string(),
        created_at: 0,
    };
    let lines = create_report(&body).expect("created");
    assert_eq!(
        lines,
        vec![
            "Created key 7 (deploy)".to_string(),
            "Key: sk-123".to_string(),
            "Created at: 1970-01-01T00:00:00+00:00".to_string(),
        ]
    );
}

#[test]
fn revoke_reports_already_revoked_as_success() {
    let body = KeyRevokeResponse { success: true, error: false, id: 42, revoked: false };
    let r = revoke_report(&body);
    assert_eq!(r, Ok(vec!["Key 42 was already revoked.".to_string()]));
}

#[test]
fn revoke_reports_fresh_revocation() {
    let body = KeyRevokeResponse { success: true, error: false, id: 9, revoked: true };
    let r = revoke_report(&body);
    assert_eq!(r, Ok(vec!["Revoked key 9.".to_string()]));
}

#[test]
fn status_failure_carries_code_and_reason() {
    let f = ApiFailure::Status { code: 422, reason: Some("quota exceeded".to_string()) };
    let msg = f.message();
    assert_eq!(msg, "API error 422: quota exceeded");
    assert!(msg.contains("422"));
    assert!(msg.contains("quota exceeded"));
    let f = ApiFailure::Status { code: 500, reason: None };
    assert_eq!(f.message(), "API error 500.");
}

#[test]
fn transport_and_payload_failures() {
    let f = ApiFailure::Transport("connection refused".to_string());
    assert_eq!(f.message(), "Transport error: connection refused");
    assert_eq!(ApiFailure::InvalidPayload.message(), "Invalid response payload.");
    assert_eq!(missing_credential_message(), "CURTAURL_API_KEY is required.");
}

#[test]
fn request_paths() {
    assert_eq!(keys_path(), "/api/keys");
    assert_eq!(revoke_path(42), "/api/keys/42/revoke");
    assert_eq!(revoke_path(-3), "/api/keys/-3/revoke");
}

#[test]
fn create_payload_is_exact_json() {
    assert_eq!(
        create_payload(&"deploy".to_string(), &None),
        "{\"name\":\"deploy\",\"notes\":null}"
    );
    assert_eq!(
        create_payload(&"deploy".to_string(), &Some("ci key".to_string())),
        "{\"name\":\"deploy\",\"notes\":\"ci key\"}"
    );
}

#[test]
fn create_payload_escapes_like_json() {
    let name = "a\"b\\c\nd\te\u{08}f\u{0c}g\rh\u{01}i".to_string();
    let body = create_payload(&name, &None);
    let expected = format!(
        "{{\"name\":{},\"notes\":null}}",
        serde_json::to_string(&name).unwrap()
    );
    assert_eq!(body, expected);
    let parsed: serde_json::Value = serde_json::from_str(&body).unwrap();
    assert_eq!(parsed["name"].as_str().unwrap(), name);
    assert!(parsed["notes"].is_null());
}

#[test]
fn create_payload_matches_wire_shape() {
    let body = create_payload(&"k".to_string(), &Some("n".to_string()));
    let parsed: serde_json::Value = serde_json::from_str(&body).unwrap();
    let mut fields = serde_json::Map::new();
    fields.insert("name".to_string(), serde_json::Value::String("k".to_string()));
    fields.insert("notes".to_string(), serde_json::Value::String("n".to_string()));
    assert_eq!(parsed, serde_json::Value::Object(fields));
}
