use sarif_fmt::locate::{candidate_paths, try_find_file, FindFileError};
use sarif_fmt::sarif::{
    ArtifactLocation, PhysicalLocation, Run, Tool, ToolComponent, UriBase,
};

fn bare_run(bases: Option<Vec<UriBase>>) -> Run {
    Run {
        tool: Tool {
            driver: ToolComponent {
                name: "tool".to_string(),
                information_uri: None,
                rules: None,
                global_message_strings: None,
            },
        },
        results: None,
        original_uri_base_ids: bases,
        invocations: None,
    }
}

fn phys(uri: Option<&str>, base_id: Option<&str>) -> PhysicalLocation {
    PhysicalLocation {
        artifact_location: Some(ArtifactLocation {
            uri: uri.map(|u| u.to_string()),
            uri_base_id: base_id.map(|b| b.to_string()),
        }),
        region: None,
    }
}

#[test]
fn candidates_absolute() {
    let run = bare_run(None);
    let p = phys(Some("/a/b.c"), None);
    assert_eq!(candidate_paths(&p, &run), Ok(vec!["/a/b.c".to_string()]));
}

#[test]
fn candidates_relative_with_base() {
    let run = bare_run(Some(vec![UriBase {
        id: "SRCROOT".to_string(),
        uri: Some("/root/".to_string()),
    }]));
    let p = phys(Some("a/b.c"), Some("SRCROOT"));
    assert_eq!(
        candidate_paths(&p, &run),
        Ok(vec!["/root/a/b.c".to_string(), "a/b.c".to_string()])
    );
}

#[test]
fn candidates_base_without_separator() {
    let run = bare_run(Some(vec![UriBase {
        id: "SRCROOT".to_string(),
        uri: Some("/root".to_string()),
    }]));
    let p = phys(Some("a/b.c"), Some("SRCROOT"));
    assert_eq!(
        candidate_paths(&p, &run),
        Ok(vec!["/root/a/b.c".to_string(), "a/b.c".to_string()])
    );
}

#[test]
fn candidates_unknown_base_id() {
    let run = bare_run(Some(vec![UriBase {
        id: "OTHER".to_string(),
        uri: Some("/root/".to_string()),
    }]));
    let p = phys(Some("a/b.c"), Some("SRCROOT"));
    assert_eq!(
        candidate_paths(&p, &run),
        Ok(vec!["a/b.c".to_string(), "a/b.c".to_string()])
    );
}

#[test]
fn candidates_relative_without_base() {
    let run = bare_run(None);
    let p = phys(Some("a/b.c"), None);
    assert_eq!(candidate_paths(&p, &run), Ok(vec!["a/b.c".to_string()]));
}

#[test]
fn candidates_errors() {
    let run = bare_run(None);
    let no_al = PhysicalLocation { artifact_location: None, region: None };
    assert_eq!(candidate_paths(&no_al, &run), Err(FindFileError::NoArtifactLocation));
    let no_uri = PhysicalLocation {
        artifact_location: Some(ArtifactLocation { uri: None, uri_base_id: None }),
        region: None,
    };
    assert_eq!(candidate_paths(&no_uri, &run), Err(FindFileError::NoUri));
}

#[test]
fn find_file_takes_first_existing() {
    let run = bare_run(Some(vec![UriBase {
        id: "B".to_string(),
        uri: Some("/base/".to_string()),
    }]));
    let p = phys(Some("x.c"), Some("B"));
    // both exist: the joined path wins
    assert_eq!(
        try_find_file(&p, &run, &vec![true, true]),
        Ok("/base/x.c".to_string())
    );
    // only the bare relative path exists
    assert_eq!(try_find_file(&p, &run, &vec![false, true]), Ok("x.c".to_string()));
    // nothing exists
    assert_eq!(try_find_file(&p, &run, &vec![false, false]), Err(FindFileError::NotFound));
}

#[test]
fn find_file_propagates_locator_errors() {
    let run = bare_run(None);
    let no_al = PhysicalLocation { artifact_location: None, region: None };
    assert_eq!(
        try_find_file(&no_al, &run, &vec![]),
        Err(FindFileError::NoArtifactLocation)
    );
}
