use sarif_fmt::parse::{process, ParseError};

#[test]
fn parses_minimal_document() {
    let doc = process(r#"{ "version": "2.1.0", "runs": [] }"#).ok().unwrap();
    assert_eq!(doc.version, "2.1.0");
    assert_eq!(doc.runs.len(), 0);
}

#[test]
fn rejects_invalid_json() {
    let r = process("{ not json");
    assert!(matches!(r, Err(ParseError::InvalidJson(_))));
}

#[test]
fn rejects_missing_version_or_runs() {
    assert!(matches!(
        process(r#"{ "runs": [] }"#),
        Err(ParseError::MissingField("version"))
    ));
    assert!(matches!(
        process(r#"{ "version": "2.1.0" }"#),
        Err(ParseError::MissingField("runs"))
    ));
}

#[test]
fn rejects_run_without_tool_name() {
    let r = process(r#"{ "version": "2.1.0", "runs": [{ "tool": {"driver": {}} }] }"#);
    assert!(matches!(r, Err(ParseError::MissingField("tool driver name"))));
}

#[test]
fn rejects_result_without_message() {
    let r = process(
        r#"{ "version": "2.1.0", "runs": [{
            "tool": {"driver": {"name": "t"}},
            "results": [{ "level": "error" }]
        }] }"#,
    );
    assert!(matches!(r, Err(ParseError::MissingField("result message"))));
}

#[test]
fn parse_error_messages() {
    match process("[") {
        Err(e @ ParseError::InvalidJson(_)) => {
            assert!(e.message().starts_with("invalid JSON: "));
        }
        _ => panic!("expected a JSON error"),
    }
    match process(r#"{ "runs": [] }"#) {
        Err(e @ ParseError::MissingField(_)) => {
            assert_eq!(e.message(), "missing or mistyped field: version");
        }
        _ => panic!("expected a missing field"),
    }
}

#[test]
fn parses_result_fields() {
    let doc = process(
        r#"{
            "version": "2.1.0",
            "runs": [{
                "tool": {"driver": {"name": "clippy", "rules": [{
                    "id": "R1",
                    "name": "rule-one",
                    "helpUri": "https://example.invalid/r1",
                    "defaultConfiguration": {"level": "error"},
                    "messageStrings": {"m1": {"text": "template one"}}
                }]}},
                "results": [{
                    "ruleId": "R1",
                    "ruleIndex": 0,
                    "rule": {"id": "R1", "index": 0},
                    "level": "warning",
                    "kind": "fail",
                    "message": {"text": "msg", "id": "m1"},
                    "locations": [{
                        "physicalLocation": {
                            "artifactLocation": {"uri": "a.rs", "uriBaseId": "ROOT"},
                            "region": {
                                "byteOffset": 10, "byteLength": 4,
                                "startLine": 2, "startColumn": 3,
                                "endLine": 2, "endColumn": 7
                            }
                        }
                    }],
                    "provenance": {"invocationIndex": 0}
                }],
                "originalUriBaseIds": {"ROOT": {"uri": "/src/"}},
                "invocations": [{
                    "ruleConfigurationOverrides": [{
                        "descriptor": {"id": "R1"},
                        "configuration": {"level": "note"}
                    }]
                }]
            }]
        }"#,
    )
    .ok()
    .unwrap();
    assert_eq!(doc.runs.len(), 1);
    let run = &doc.runs[0];
    assert_eq!(run.tool.driver.name, "clippy");
    let rules = run.tool.driver.rules.as_ref().unwrap();
    assert_eq!(rules.len(), 1);
    assert_eq!(rules[0].id, "R1");
    assert_eq!(rules[0].name.as_ref().unwrap(), "rule-one");
    assert_eq!(
        rules[0].default_configuration.as_ref().unwrap().level.as_ref().unwrap(),
        "error"
    );
    let table = rules[0].message_strings.as_ref().unwrap();
    assert_eq!(table.len(), 1);
    assert_eq!(table[0].id, "m1");
    assert_eq!(table[0].text, "template one");

    let results = run.results.as_ref().unwrap();
    assert_eq!(results.len(), 1);
    let r = &results[0];
    assert_eq!(r.rule_id.as_ref().unwrap(), "R1");
    assert_eq!(r.rule_index, Some(0));
    assert_eq!(r.level.as_ref().unwrap(), "warning");
    assert_eq!(r.kind.as_ref().unwrap(), "fail");
    assert_eq!(r.message.text.as_ref().unwrap(), "msg");
    assert_eq!(r.message.id.as_ref().unwrap(), "m1");
    let locs = r.locations.as_ref().unwrap();
    assert_eq!(locs.len(), 1);
    let phys = locs[0].physical_location.as_ref().unwrap();
    let al = phys.artifact_location.as_ref().unwrap();
    assert_eq!(al.uri.as_ref().unwrap(), "a.rs");
    assert_eq!(al.uri_base_id.as_ref().unwrap(), "ROOT");
    let reg = phys.region.as_ref().unwrap();
    assert_eq!(reg.byte_offset, Some(10));
    assert_eq!(reg.byte_length, Some(4));
    assert_eq!(reg.start_line, Some(2));
    assert_eq!(reg.start_column, Some(3));
    assert_eq!(reg.end_line, Some(2));
    assert_eq!(reg.end_column, Some(7));
    assert_eq!(
        r.provenance.as_ref().unwrap().invocation_index,
        Some(0)
    );

    let bases = run.original_uri_base_ids.as_ref().unwrap();
    assert_eq!(bases.len(), 1);
    assert_eq!(bases[0].id, "ROOT");
    assert_eq!(bases[0].uri.as_ref().unwrap(), "/src/");

    let invs = run.invocations.as_ref().unwrap();
    assert_eq!(invs.len(), 1);
    let ovs = invs[0].rule_configuration_overrides.as_ref().unwrap();
    assert_eq!(ovs.len(), 1);
    assert_eq!(ovs[0].descriptor.id.as_ref().unwrap(), "R1");
    assert_eq!(ovs[0].configuration.level.as_ref().unwrap(), "note");
}

#[test]
fn mistyped_optional_fields_read_as_absent() {
    let doc = process(
        r#"{
            "version": "2.1.0",
            "runs": [{
                "tool": {"driver": {"name": "t"}},
                "results": [{
                    "level": 5,
                    "kind": false,
                    "message": {"text": "m"}
                }]
            }]
        }"#,
    )
    .ok()
    .unwrap();
    let r = &doc.runs[0].results.as_ref().unwrap()[0];
    assert!(r.level.is_none());
    assert!(r.kind.is_none());
}

#[test]
fn override_wins_in_parsed_document() {
    // the level-resolution precedence, exercised end to end on a parsed
    // document: the invocation override (note) wins over the rule default
    // (error)
    let doc = process(
        r#"{
            "version": "2.1.0",
            "runs": [{
                "tool": {"driver": {"name": "t", "rules": [{
                    "id": "R1",
                    "defaultConfiguration": {"level": "error"}
                }]}},
                "results": [{
                    "rule": {"index": 0},
                    "message": {"text": "m"},
                    "provenance": {"invocationIndex": 0}
                }],
                "invocations": [{
                    "ruleConfigurationOverrides": [{
                        "descriptor": {"id": "R1"},
                        "configuration": {"level": "note"}
                    }]
                }]
            }]
        }"#,
    )
    .ok()
    .unwrap();
    let run = &doc.runs[0];
    let rules = run.tool.driver.rules.as_ref().unwrap();
    let r = &run.results.as_ref().unwrap()[0];
    assert_eq!(
        sarif_fmt::resolve::resolve_level(rules, run, r),
        sarif_fmt::sarif::ResultLevel::Note
    );
}
