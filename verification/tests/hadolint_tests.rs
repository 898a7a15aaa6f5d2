use sarif_fmt::files::FileStore;
use sarif_fmt::hadolint::{convert, hadolint_level, process, HadolintError, HadolintResult};
use sarif_fmt::render::{render_plain_run, render_pretty, Severity};
use sarif_fmt::sarif::ResultLevel;

const DOCKERFILE_LOG: &str = r#"[
    {"file": "Dockerfile", "line": 1, "column": 1, "level": "warning",
     "code": "DL3006", "message": "Always tag the version of an image explicitly"}
]"#;

#[test]
fn level_mapping() {
    assert_eq!(hadolint_level(&"info".to_string()), Some(ResultLevel::Note));
    assert_eq!(hadolint_level(&"style".to_string()), Some(ResultLevel::Note));
    assert_eq!(hadolint_level(&"warning".to_string()), Some(ResultLevel::Warning));
    assert_eq!(hadolint_level(&"error".to_string()), Some(ResultLevel::Error));
    assert_eq!(hadolint_level(&"fatal".to_string()), None);
}

#[test]
fn converts_dockerfile_diagnostic() {
    let doc = process(DOCKERFILE_LOG).ok().unwrap();
    assert_eq!(doc.version, "2.1.0");
    assert_eq!(doc.runs.len(), 1);
    let run = &doc.runs[0];
    assert_eq!(run.tool.driver.name, "hadolint");
    let rules = run.tool.driver.rules.as_ref().unwrap();
    assert_eq!(rules.len(), 1);
    assert_eq!(rules[0].id, "DL3006");
    assert_eq!(rules[0].short_description.as_ref().unwrap().text, "DL3006");
    assert_eq!(
        rules[0].full_description.as_ref().unwrap().text,
        "For more information: https://github.com/hadolint/hadolint/wiki/DL3006"
    );
    let results = run.results.as_ref().unwrap();
    assert_eq!(results.len(), 1);
    assert_eq!(results[0].rule_id.as_ref().unwrap(), "DL3006");
    assert_eq!(results[0].rule_index, Some(0));
    assert_eq!(results[0].level.as_ref().unwrap(), "warning");
}

#[test]
fn dockerfile_plain_line_and_pretty_notes() {
    // line 1 column 1 of the single-line file `FROM debian`, level warning,
    // rule id DL3006
    let doc = process(DOCKERFILE_LOG).ok().unwrap();
    let mut store = FileStore::new();
    store.insert("Dockerfile".to_string(), b"FROM debian".to_vec());

    let lines = render_plain_run(&doc.runs[0], &store);
    assert_eq!(
        lines,
        vec![
            "Dockerfile:1:1: warning: Always tag the version of an image explicitly"
                .to_string()
        ]
    );

    let out = render_pretty(&doc, &store);
    assert_eq!(out.diagnostics.len(), 1);
    assert!(matches!(out.diagnostics[0].severity, Severity::Warning));
    assert!(out.diagnostics[0].notes.iter().any(|n| n == "DL3006"));
    assert!(out.diagnostics[0]
        .notes
        .iter()
        .any(|n| n.contains("https://github.com/hadolint/hadolint/wiki/DL3006")));
}

#[test]
fn duplicate_codes_share_one_rule() {
    let hs = vec![
        HadolintResult {
            file: "Dockerfile".to_string(),
            line: 1,
            column: 1,
            level: "info".to_string(),
            code: "DL3000".to_string(),
            message: "a".to_string(),
        },
        HadolintResult {
            file: "Dockerfile".to_string(),
            line: 2,
            column: 1,
            level: "error".to_string(),
            code: "DL4000".to_string(),
            message: "b".to_string(),
        },
        HadolintResult {
            file: "Dockerfile".to_string(),
            line: 3,
            column: 1,
            level: "warning".to_string(),
            code: "DL3000".to_string(),
            message: "c".to_string(),
        },
    ];
    let doc = convert(&hs).ok().unwrap();
    let run = &doc.runs[0];
    let rules = run.tool.driver.rules.as_ref().unwrap();
    assert_eq!(rules.len(), 2);
    assert_eq!(rules[0].id, "DL3000");
    assert_eq!(rules[1].id, "DL4000");
    let results = run.results.as_ref().unwrap();
    assert_eq!(results.len(), 3);
    assert_eq!(results[0].rule_index, Some(0));
    assert_eq!(results[1].rule_index, Some(1));
    assert_eq!(results[2].rule_index, Some(0));
    assert_eq!(results[0].level.as_ref().unwrap(), "note");
    assert_eq!(results[2].level.as_ref().unwrap(), "warning");
}

#[test]
fn rejects_bad_input() {
    assert!(matches!(process("not json"), Err(HadolintError::InvalidJson(_))));
    assert!(matches!(
        process(r#"[{"file": "f", "line": 1}]"#),
        Err(HadolintError::MissingField(_))
    ));
    assert!(matches!(
        process(
            r#"[{"file": "f", "line": 1, "column": 1, "level": "fatal",
                "code": "C", "message": "m"}]"#
        ),
        Err(HadolintError::UnknownLevel)
    ));
}
