use sarif_fmt::files::FileStore;
use sarif_fmt::render::render_plain_run;
use sarif_fmt::sarif::ResultLevel;
use sarif_fmt::shellcheck::{process, shellcheck_level, ShellcheckError};

const SHELL_LOG: &str = r#"[{"file": "shell.sh", "line": 5, "endLine": 5, "column": 1, "endColumn": 4, "level": "error", "code": 1073, "message": "Couldn't parse this for loop. Fix to allow more checks.", "fix": null}]"#;

#[test]
fn shellcheck_level_mapping() {
    assert_eq!(shellcheck_level(&"info".to_string()), Some(ResultLevel::Note));
    assert_eq!(shellcheck_level(&"style".to_string()), Some(ResultLevel::Note));
    assert_eq!(shellcheck_level(&"warning".to_string()), Some(ResultLevel::Warning));
    assert_eq!(shellcheck_level(&"error".to_string()), Some(ResultLevel::Error));
    assert_eq!(shellcheck_level(&"fatal".to_string()), None);
}

#[test]
fn converts_shell_diagnostic() {
    let doc = process(SHELL_LOG, "json").ok().unwrap();
    assert_eq!(doc.version, "2.1.0");
    let run = &doc.runs[0];
    assert_eq!(run.tool.driver.name, "shellcheck");
    let rules = run.tool.driver.rules.as_ref().unwrap();
    assert_eq!(rules.len(), 1);
    assert_eq!(rules[0].id, "1073");
    assert_eq!(rules[0].short_description.as_ref().unwrap().text, "SC1073");
    assert_eq!(
        rules[0].help_uri.as_ref().unwrap(),
        "https://www.shellcheck.net/wiki/SC1073"
    );
    assert_eq!(
        rules[0].full_description.as_ref().unwrap().text,
        "For more information: https://www.shellcheck.net/wiki/SC1073"
    );
    let results = run.results.as_ref().unwrap();
    assert_eq!(results.len(), 1);
    assert_eq!(results[0].rule_id.as_ref().unwrap(), "1073");
    assert_eq!(results[0].rule_index, Some(0));
    assert_eq!(results[0].level.as_ref().unwrap(), "error");
    let reg = results[0].locations.as_ref().unwrap()[0]
        .physical_location
        .as_ref()
        .unwrap()
        .region
        .as_ref()
        .unwrap();
    assert_eq!(reg.start_line, Some(5));
    assert_eq!(reg.end_column, Some(4));
}

#[test]
fn shell_plain_line() {
    let doc = process(SHELL_LOG, "json").ok().unwrap();
    let mut store = FileStore::new();
    store.insert(
        "shell.sh".to_string(),
        b"#!/bin/sh\n\n\n\nfor f in \"*.ogg\n".to_vec(),
    );
    let lines = render_plain_run(&doc.runs[0], &store);
    assert_eq!(
        lines,
        vec![
            "shell.sh:5:1: error: Couldn't parse this for loop. Fix to allow more checks."
                .to_string()
        ]
    );
}

#[test]
fn replacements_become_related_locations_and_fixes() {
    let log = r#"[{"file": "s.sh", "line": 2, "endLine": 2, "column": 10, "endColumn": 15,
        "level": "warning", "code": 2086, "message": "Double quote to prevent globbing.",
        "fix": {"replacements": [
            {"line": 2, "endLine": 2, "precedence": 7, "insertionPoint": "afterEnd",
             "column": 10, "replacement": "\"", "endColumn": 10},
            {"line": 2, "endLine": 2, "precedence": 7, "insertionPoint": "beforeStart",
             "column": 15, "replacement": "\"", "endColumn": 15}
        ]}}]"#;
    let doc = process(log, "json").ok().unwrap();
    let results = doc.runs[0].results.as_ref().unwrap();
    let related = results[0].related_locations.as_ref().unwrap();
    assert_eq!(related.len(), 2);
    let reg = related[0].physical_location.as_ref().unwrap().region.as_ref().unwrap();
    assert_eq!(reg.start_column, Some(10));
    let fixes = results[0].fixes.as_ref().unwrap();
    assert_eq!(fixes.len(), 2);
    assert_eq!(fixes[0].description.as_ref().unwrap().text, "\"");
}

#[test]
fn json1_format_reads_comments() {
    let log = r#"{"comments": [{"file": "s.sh", "line": 1, "endLine": 1, "column": 1,
        "endColumn": 2, "level": "style", "code": 2148, "message": "Add a shebang."}]}"#;
    let doc = process(log, "json1").ok().unwrap();
    let results = doc.runs[0].results.as_ref().unwrap();
    assert_eq!(results.len(), 1);
    assert_eq!(results[0].level.as_ref().unwrap(), "note");
    // the same input in the plain format is not an array
    assert!(matches!(
        process(log, "json"),
        Err(ShellcheckError::MissingField(_))
    ));
}

#[test]
fn shellcheck_rejects_bad_input() {
    assert!(matches!(process("no", "json"), Err(ShellcheckError::InvalidJson(_))));
    assert!(matches!(
        process(r#"[{"file": "s.sh"}]"#, "json"),
        Err(ShellcheckError::MissingField(_))
    ));
    assert!(matches!(
        process(
            r#"[{"file": "s.sh", "line": 1, "endLine": 1, "column": 1, "endColumn": 2,
                "level": "loud", "code": 1, "message": "m"}]"#,
            "json"
        ),
        Err(ShellcheckError::UnknownLevel)
    ));
}
