use sarif_fmt::deny::{convert, deny_level, process, DenyDiagnostic};
use sarif_fmt::sarif::ResultLevel;

#[test]
fn deny_level_mapping() {
    assert_eq!(deny_level(&"error".to_string()), Some(ResultLevel::Error));
    assert_eq!(deny_level(&"warning".to_string()), Some(ResultLevel::Warning));
    assert_eq!(deny_level(&"note".to_string()), Some(ResultLevel::Note));
    assert_eq!(deny_level(&"info".to_string()), None);
}

#[test]
fn converts_banned_package_line() {
    let doc = process(
        "{\"type\": \"banned\", \"message\": \"Package in deny list\", \"severity\": \"warning\", \"package\": {\"name\": \"tokio\", \"version\": \"1.0.0\"}, \"code\": \"deny-list\"}\n\nnot json at all\n",
    );
    assert_eq!(doc.version, "2.1.0");
    assert_eq!(doc.runs.len(), 1);
    let run = &doc.runs[0];
    assert_eq!(run.tool.driver.name, "cargo-deny");
    assert_eq!(
        run.tool.driver.information_uri.as_ref().unwrap(),
        "https://embarkstudios.github.io/cargo-deny/"
    );
    let rules = run.tool.driver.rules.as_ref().unwrap();
    assert_eq!(rules.len(), 1);
    assert_eq!(rules[0].id, "deny-list");
    assert_eq!(
        rules[0].short_description.as_ref().unwrap().text,
        "Package in deny list"
    );
    assert_eq!(
        rules[0].help_uri.as_ref().unwrap(),
        "https://embarkstudios.github.io/cargo-deny/"
    );
    let results = run.results.as_ref().unwrap();
    assert_eq!(results.len(), 1);
    let r = &results[0];
    assert_eq!(r.rule_id.as_ref().unwrap(), "deny-list");
    assert_eq!(r.rule_index, Some(0));
    assert_eq!(r.level.as_ref().unwrap(), "warning");
    assert_eq!(
        r.message.text.as_ref().unwrap(),
        "Package in deny list (package: tokio 1.0.0)"
    );
    let locs = r.locations.as_ref().unwrap();
    let phys = locs[0].physical_location.as_ref().unwrap();
    assert_eq!(
        phys.artifact_location.as_ref().unwrap().uri.as_ref().unwrap(),
        "Cargo.toml"
    );
    assert_eq!(phys.region.as_ref().unwrap().start_line, Some(1));
    assert_eq!(phys.region.as_ref().unwrap().start_column, Some(1));
}

#[test]
fn advisory_id_names_the_rule() {
    let doc = process(
        "{\"type\": \"advisory\", \"message\": \"Vulnerable crate\", \"advisory\": {\"id\": \"RUSTSEC-0001\", \"title\": \"A vulnerability\", \"url\": \"https://rustsec.org/advisories/RUSTSEC-0001\"}}",
    );
    let run = &doc.runs[0];
    let rules = run.tool.driver.rules.as_ref().unwrap();
    assert_eq!(rules.len(), 1);
    assert_eq!(rules[0].id, "RUSTSEC-0001");
    assert_eq!(rules[0].short_description.as_ref().unwrap().text, "A vulnerability");
    assert_eq!(
        rules[0].help_uri.as_ref().unwrap(),
        "https://rustsec.org/advisories/RUSTSEC-0001"
    );
    // severity absent: the level defaults to warning
    let results = run.results.as_ref().unwrap();
    assert_eq!(results[0].level.as_ref().unwrap(), "warning");
}

#[test]
fn advisory_without_url_points_at_the_database() {
    let doc = process(
        "{\"type\": \"advisory\", \"message\": \"m\", \"advisory\": {\"id\": \"RUSTSEC-0002\", \"title\": \"t\"}}",
    );
    let rules = doc.runs[0].tool.driver.rules.as_ref().unwrap();
    assert_eq!(rules[0].help_uri.as_ref().unwrap(), "https://rustsec.org/");
}

#[test]
fn duplicate_ids_share_one_rule() {
    let mk = |code: &str, msg: &str| DenyDiagnostic {
        diagnostic_type: "banned".to_string(),
        message: msg.to_string(),
        severity: Some("error".to_string()),
        package: None,
        advisory: None,
        code: Some(code.to_string()),
    };
    let doc = convert(&vec![mk("A", "first"), mk("B", "second"), mk("A", "third")]);
    let run = &doc.runs[0];
    let rules = run.tool.driver.rules.as_ref().unwrap();
    assert_eq!(rules.len(), 2);
    assert_eq!(rules[0].id, "A");
    assert_eq!(rules[1].id, "B");
    let results = run.results.as_ref().unwrap();
    assert_eq!(results[0].rule_index, Some(0));
    assert_eq!(results[1].rule_index, Some(1));
    assert_eq!(results[2].rule_index, Some(0));
    // the first diagnostic's message describes the shared rule
    assert_eq!(rules[0].short_description.as_ref().unwrap().text, "first");
}

#[test]
fn crlf_and_blank_lines_are_handled() {
    let doc = process(
        "{\"type\": \"banned\", \"message\": \"one\", \"code\": \"A\"}\r\n \t\r\n{\"type\": \"banned\", \"message\": \"two\", \"code\": \"B\"}\r\n",
    );
    let results = doc.runs[0].results.as_ref().unwrap();
    assert_eq!(results.len(), 2);
    assert_eq!(results[0].message.text.as_ref().unwrap(), "one");
    assert_eq!(results[1].message.text.as_ref().unwrap(), "two");
}

#[test]
fn type_names_the_rule_when_nothing_else_does() {
    let doc = process(r#"{"type": "license", "message": "bad license"}"#);
    let rules = doc.runs[0].tool.driver.rules.as_ref().unwrap();
    assert_eq!(rules[0].id, "license");
    let results = doc.runs[0].results.as_ref().unwrap();
    assert_eq!(results[0].message.text.as_ref().unwrap(), "bad license");
}
