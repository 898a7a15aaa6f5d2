use sarif_fmt::files::FileStore;
use sarif_fmt::parse::process;
use sarif_fmt::render::{
    format_plain_line, render_plain_run, render_pretty, summary_lines, PlainDiag, Severity,
    sort_plain_items,
};
use sarif_fmt::sarif::ResultLevel;

#[test]
fn missing_artifact_still_renders_message_and_level() {
    // a document referencing a file that was never loaded: the message and
    // level are still shown, with no source excerpt attached
    let doc = process(
        r#"{
            "version": "2.1.0",
            "runs": [{
                "tool": {"driver": {"name": "t"}},
                "results": [{
                    "level": "warning",
                    "message": {"text": "m1"},
                    "locations": [{
                        "physicalLocation": {
                            "artifactLocation": {"uri": "no-such-file.c"},
                            "region": {"startLine": 1, "startColumn": 1}
                        }
                    }]
                }]
            }]
        }"#,
    )
    .ok()
    .unwrap();
    let store = FileStore::new();
    let out = render_pretty(&doc, &store);
    assert_eq!(out.diagnostics.len(), 1);
    assert_eq!(out.diagnostics[0].message, "m1");
    assert!(matches!(out.diagnostics[0].severity, Severity::Warning));
    assert_eq!(out.diagnostics[0].labels.len(), 0);
    assert_eq!(out.warnings_count, 1);
}

#[test]
fn multi_note_chain_renders_in_order() {
    // a result with two related locations, each carrying its own message:
    // the primary excerpt plus two secondary labeled excerpts in order
    let doc = process(
        r#"{
            "version": "2.1.0",
            "runs": [{
                "tool": {"driver": {"name": "t"}},
                "results": [{
                    "level": "error",
                    "message": {"text": "primary message"},
                    "locations": [{
                        "physicalLocation": {
                            "artifactLocation": {"uri": "main.c"},
                            "region": {"startLine": 1, "startColumn": 1, "endColumn": 3}
                        }
                    }],
                    "relatedLocations": [
                        {
                            "physicalLocation": {
                                "artifactLocation": {"uri": "main.c"},
                                "region": {"startLine": 2, "startColumn": 1, "endColumn": 2}
                            },
                            "message": {"text": "first note"}
                        },
                        {
                            "physicalLocation": {
                                "artifactLocation": {"uri": "main.c"},
                                "region": {"startLine": 3, "startColumn": 1, "endColumn": 2}
                            },
                            "message": {"text": "second note"}
                        }
                    ]
                }]
            }]
        }"#,
    )
    .ok()
    .unwrap();
    let mut store = FileStore::new();
    store.insert("main.c".to_string(), b"abc\ndef\nghi\n".to_vec());
    let out = render_pretty(&doc, &store);
    assert_eq!(out.diagnostics.len(), 1);
    let d = &out.diagnostics[0];
    assert!(matches!(d.severity, Severity::Error));
    assert_eq!(d.labels.len(), 3);
    assert!(!d.labels[0].secondary);
    assert_eq!((d.labels[0].start, d.labels[0].end), (0, 2));
    assert!(d.labels[1].secondary);
    assert_eq!(d.labels[1].message, "first note");
    assert_eq!((d.labels[1].start, d.labels[1].end), (4, 5));
    assert!(d.labels[2].secondary);
    assert_eq!(d.labels[2].message, "second note");
    assert_eq!((d.labels[2].start, d.labels[2].end), (8, 9));
    assert_eq!(out.errors_count, 1);
}

#[test]
fn summary_counts_two_warnings_one_error() {
    let doc = process(
        r#"{
            "version": "2.1.0",
            "runs": [{
                "tool": {"driver": {"name": "t"}},
                "results": [
                    {"level": "warning", "message": {"text": "w1"}},
                    {"level": "error", "message": {"text": "e1"}},
                    {"level": "warning", "message": {"text": "w2"}}
                ]
            }]
        }"#,
    )
    .ok()
    .unwrap();
    let store = FileStore::new();
    let out = render_pretty(&doc, &store);
    assert_eq!(out.warnings_count, 2);
    assert_eq!(out.errors_count, 1);
    assert_eq!(
        out.summary,
        vec![
            "warning: 2 warnings emitted".to_string(),
            "error: 1 errors emitted".to_string()
        ]
    );
}

#[test]
fn summary_lines_only_nonzero() {
    assert_eq!(summary_lines(0, 0), Vec::<String>::new());
    assert_eq!(summary_lines(3, 0), vec!["warning: 3 warnings emitted".to_string()]);
    assert_eq!(summary_lines(0, 12), vec!["error: 12 errors emitted".to_string()]);
}

#[test]
fn unresolved_message_omits_whole_result() {
    let doc = process(
        r#"{
            "version": "2.1.0",
            "runs": [{
                "tool": {"driver": {"name": "t"}},
                "results": [
                    {"message": {"id": "nowhere"}},
                    {"level": "note", "message": {"text": "kept"}}
                ]
            }]
        }"#,
    )
    .ok()
    .unwrap();
    let store = FileStore::new();
    let out = render_pretty(&doc, &store);
    assert_eq!(out.diagnostics.len(), 1);
    assert_eq!(out.diagnostics[0].message, "kept");
    assert_eq!(out.notes_count, 1);
}

#[test]
fn rule_notes_appear_in_pretty_output() {
    let doc = process(
        r#"{
            "version": "2.1.0",
            "runs": [{
                "tool": {"driver": {"name": "t", "rules": [{
                    "id": "R1",
                    "shortDescription": {"text": "short text"},
                    "fullDescription": {"text": "full text"}
                }]}},
                "results": [{"ruleIndex": 0, "message": {"text": "m"}}]
            }]
        }"#,
    )
    .ok()
    .unwrap();
    let store = FileStore::new();
    let out = render_pretty(&doc, &store);
    assert_eq!(out.diagnostics.len(), 1);
    assert_eq!(
        out.diagnostics[0].notes,
        vec!["short text".to_string(), "full text".to_string()]
    );
}

#[test]
fn out_of_bounds_range_omits_the_label() {
    // a byte offset past the end of the loaded text cannot be framed; the
    // label is omitted like an unresolved one, the diagnostic kept
    let doc = process(
        r#"{
            "version": "2.1.0",
            "runs": [{
                "tool": {"driver": {"name": "t"}},
                "results": [{
                    "level": "error",
                    "message": {"text": "m"},
                    "locations": [{
                        "physicalLocation": {
                            "artifactLocation": {"uri": "s.c"},
                            "region": {"byteOffset": 999, "byteLength": 4}
                        }
                    }]
                }]
            }]
        }"#,
    )
    .ok()
    .unwrap();
    let mut store = FileStore::new();
    store.insert("s.c".to_string(), b"tiny\n".to_vec());
    let out = render_pretty(&doc, &store);
    assert_eq!(out.diagnostics.len(), 1);
    assert_eq!(out.diagnostics[0].labels.len(), 0);
    assert_eq!(out.errors_count, 1);
}

#[test]
fn counts_accumulate_across_runs() {
    let doc = process(
        r#"{
            "version": "2.1.0",
            "runs": [
                {"tool": {"driver": {"name": "a"}},
                 "results": [{"level": "warning", "message": {"text": "w1"}}]},
                {"tool": {"driver": {"name": "b"}},
                 "results": [{"level": "warning", "message": {"text": "w2"}},
                             {"level": "note", "message": {"text": "n1"}}]}
            ]
        }"#,
    )
    .ok()
    .unwrap();
    let store = FileStore::new();
    let out = render_pretty(&doc, &store);
    assert_eq!(out.diagnostics.len(), 3);
    assert_eq!(out.warnings_count, 2);
    assert_eq!(out.notes_count, 1);
    assert_eq!(out.errors_count, 0);
    assert_eq!(out.summary, vec!["warning: 2 warnings emitted".to_string()]);
}

#[test]
fn summary_formats_larger_counts() {
    assert_eq!(
        summary_lines(105, 30),
        vec![
            "warning: 105 warnings emitted".to_string(),
            "error: 30 errors emitted".to_string()
        ]
    );
}

#[test]
fn none_level_renders_as_warning() {
    // a result whose kind is not `fail` resolves to level none, which has
    // no framed severity of its own and counts as a warning
    let doc = process(
        r#"{
            "version": "2.1.0",
            "runs": [{
                "tool": {"driver": {"name": "t"}},
                "results": [{"kind": "pass", "level": "error", "message": {"text": "m"}}]
            }]
        }"#,
    )
    .ok()
    .unwrap();
    let store = FileStore::new();
    let out = render_pretty(&doc, &store);
    assert!(matches!(out.diagnostics[0].severity, Severity::Warning));
    assert_eq!(out.warnings_count, 1);
}

#[test]
fn plain_line_format() {
    let d = PlainDiag {
        path: "src/main.rs".to_string(),
        line: 3,
        col: 6,
        level: ResultLevel::Warning,
        message: "if vec.len() <= 0".to_string(),
    };
    assert_eq!(format_plain_line(&d), "src/main.rs:3:6: warning: if vec.len() <= 0");
}

#[test]
fn plain_sort_orders_by_path() {
    let mk = |p: &str| PlainDiag {
        path: p.to_string(),
        line: 1,
        col: 1,
        level: ResultLevel::Note,
        message: "m".to_string(),
    };
    let sorted = sort_plain_items(vec![mk("b.c"), mk("a.c"), mk("ab.c")]);
    let paths: Vec<String> = sorted.iter().map(|d| d.path.clone()).collect();
    assert_eq!(paths, vec!["a.c".to_string(), "ab.c".to_string(), "b.c".to_string()]);
}

#[test]
fn plain_run_renders_sorted_lines() {
    let doc = process(
        r#"{
            "version": "2.1.0",
            "runs": [{
                "tool": {"driver": {"name": "t"}},
                "results": [
                    {"level": "error", "message": {"text": "second"}, "locations": [{
                        "physicalLocation": {
                            "artifactLocation": {"uri": "z.c"},
                            "region": {"startLine": 1, "startColumn": 1}
                        }
                    }]},
                    {"level": "warning", "message": {"text": "first"}, "locations": [{
                        "physicalLocation": {
                            "artifactLocation": {"uri": "a.c"},
                            "region": {"startLine": 1, "startColumn": 2}
                        }
                    }]}
                ]
            }]
        }"#,
    )
    .ok()
    .unwrap();
    let mut store = FileStore::new();
    store.insert("z.c".to_string(), b"xy\n".to_vec());
    store.insert("a.c".to_string(), b"pq\n".to_vec());
    let lines = render_plain_run(&doc.runs[0], &store);
    assert_eq!(
        lines,
        vec![
            "a.c:1:2: warning: first".to_string(),
            "z.c:1:1: error: second".to_string()
        ]
    );
}
