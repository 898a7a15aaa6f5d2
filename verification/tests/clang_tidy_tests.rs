use sarif_fmt::clang_tidy::{parse_clang_tidy_line, process, ClangTidyError};

#[test]
fn parses_warning_line() {
    let r = parse_clang_tidy_line(
        "cpp.cpp:12:25: warning: Some warning message [cert-err34-c]",
    )
    .unwrap();
    assert_eq!(r.file.as_ref().unwrap(), "cpp.cpp");
    assert_eq!(r.line, Some(12));
    assert_eq!(r.column, Some(25));
    assert_eq!(r.level, "warning");
    assert_eq!(r.message, "Some warning message [cert-err34-c]");
    assert_eq!(r.rules, "");
}

#[test]
fn parses_note_and_error_lines() {
    let n = parse_clang_tidy_line("a/b.c:3:1: note: expanded from here").unwrap();
    assert_eq!(n.level, "note");
    assert_eq!(n.message, "expanded from here");
    let e = parse_clang_tidy_line("x.h:1:1: error: something broke").unwrap();
    assert_eq!(e.level, "error");
    assert_eq!(e.file.as_ref().unwrap(), "x.h");
}

#[test]
fn parses_drive_prefixed_path() {
    let r = parse_clang_tidy_line("C:\\dir\\f.c:1:2: error: m").unwrap();
    assert_eq!(r.file.as_ref().unwrap(), "C:\\dir\\f.c");
    assert_eq!(r.line, Some(1));
    assert_eq!(r.column, Some(2));
}

#[test]
fn rejects_other_lines() {
    assert!(parse_clang_tidy_line("2 warnings generated.").is_none());
    assert!(parse_clang_tidy_line("cpp.cpp:12: warning: missing column").is_none());
    assert!(parse_clang_tidy_line("cpp.cpp:a:b: warning: bad positions").is_none());
    assert!(parse_clang_tidy_line("cpp.cpp:1:2: fatal: not a level").is_none());
    assert!(parse_clang_tidy_line("").is_none());
}

#[test]
fn leading_zeros_parse_by_value() {
    let r = parse_clang_tidy_line("f.c:007:010: warning: padded positions").unwrap();
    assert_eq!(r.line, Some(7));
    assert_eq!(r.column, Some(10));
}

#[test]
fn huge_positions_read_as_absent() {
    let r = parse_clang_tidy_line("f.c:99999999999999999999:1: error: m").unwrap();
    assert_eq!(r.line, None);
    assert_eq!(r.column, Some(1));
}

#[test]
fn process_folds_notes_into_related_locations() {
    let lines = vec![
        "ignore this line".to_string(),
        "cpp.cpp:8:10: warning: bad thing [check-a]".to_string(),
        "cpp.cpp:12:25: note: because of this".to_string(),
        "cpp.cpp:12:10: note: and this".to_string(),
        "cpp.cpp:20:1: error: worse thing".to_string(),
    ];
    let doc = process(&lines).ok().unwrap();
    assert_eq!(doc.version, "2.1.0");
    assert_eq!(doc.runs.len(), 1);
    let run = &doc.runs[0];
    assert_eq!(run.tool.driver.name, "clang-tidy");
    let results = run.results.as_ref().unwrap();
    assert_eq!(results.len(), 2);
    assert_eq!(
        results[0].message.text.as_ref().unwrap(),
        "bad thing [check-a] "
    );
    assert_eq!(results[0].level.as_ref().unwrap(), "warning");
    let related = results[0].related_locations.as_ref().unwrap();
    assert_eq!(related.len(), 2);
    assert_eq!(
        related[0].message.as_ref().unwrap().text.as_ref().unwrap(),
        "because of this"
    );
    assert_eq!(
        related[1].message.as_ref().unwrap().text.as_ref().unwrap(),
        "and this"
    );
    assert_eq!(results[1].level.as_ref().unwrap(), "error");
    assert!(results[1].related_locations.is_none());
}

#[test]
fn process_rejects_info_level_and_overflowed_positions() {
    // `info` is a clang-tidy level but not a result level of the format
    let info_lines = vec!["f.c:1:1: info: informative".to_string()];
    assert!(matches!(process(&info_lines), Err(ClangTidyError::UnknownLevel)));

    let overflow = vec!["f.c:99999999999999999999:1: error: m".to_string()];
    assert!(matches!(
        process(&overflow),
        Err(ClangTidyError::Uninitialized(_))
    ));
}
