use sarif_fmt::files::{location_of, FileStore};
use sarif_fmt::region::{get_byte_range, try_get_byte_offset};
use sarif_fmt::sarif::Region;

fn empty_region() -> Region {
    Region {
        byte_offset: None,
        byte_length: None,
        start_line: None,
        start_column: None,
        end_line: None,
        end_column: None,
    }
}

fn store_with(name: &str, text: &str) -> (FileStore, usize) {
    let mut store = FileStore::new();
    let id = store.insert(name.to_string(), text.as_bytes().to_vec());
    (store, id)
}

#[test]
fn store_caches_by_uri_string() {
    let mut store = FileStore::new();
    let a = store.insert("a.txt".to_string(), b"one".to_vec());
    let b = store.insert("b.txt".to_string(), b"two".to_vec());
    let a2 = store.insert("a.txt".to_string(), b"ignored".to_vec());
    assert_eq!(a, 0);
    assert_eq!(b, 1);
    assert_eq!(a2, a);
    assert_eq!(store.lookup(&"a.txt".to_string()), Some(0));
    assert_eq!(store.lookup(&"b.txt".to_string()), Some(1));
    assert_eq!(store.lookup(&"c.txt".to_string()), None);
    // the first text wins: the cache is never invalidated
    assert_eq!(store.entries[0].text, b"one".to_vec());
}

#[test]
fn byte_offset_of_line_and_column() {
    let (store, id) = store_with("f", "ab\ncde\nf");
    assert_eq!(try_get_byte_offset(id, &store, 1, 1), Some(0));
    assert_eq!(try_get_byte_offset(id, &store, 1, 2), Some(1));
    // the newline itself has the column one past the last visible one
    assert_eq!(try_get_byte_offset(id, &store, 1, 3), Some(2));
    assert_eq!(try_get_byte_offset(id, &store, 2, 1), Some(3));
    assert_eq!(try_get_byte_offset(id, &store, 2, 3), Some(5));
    assert_eq!(try_get_byte_offset(id, &store, 3, 1), Some(7));
    // out of range
    assert_eq!(try_get_byte_offset(id, &store, 3, 2), None);
    assert_eq!(try_get_byte_offset(id, &store, 4, 1), None);
    assert_eq!(try_get_byte_offset(id, &store, 0, 1), None);
    assert_eq!(try_get_byte_offset(id, &store, 1, 0), None);
}

#[test]
fn byte_offset_counts_characters_not_bytes() {
    // "é" is two bytes; column 2 must sit after both of them
    let (store, id) = store_with("f", "é!");
    assert_eq!(try_get_byte_offset(id, &store, 1, 1), Some(0));
    assert_eq!(try_get_byte_offset(id, &store, 1, 2), Some(2));
}

#[test]
fn region_byte_offset_precedence() {
    // byte_offset wins over start_line/start_column
    let (store, id) = store_with("f", "ab\ncde\n");
    let mut region = empty_region();
    region.byte_offset = Some(4);
    region.byte_length = Some(2);
    region.start_line = Some(1);
    region.start_column = Some(1);
    assert_eq!(get_byte_range(id, &store, &region), (Some(4), Some(6)));
}

#[test]
fn region_start_only_no_newline_collapses() {
    // a single-line source without a trailing newline: no end can be
    // resolved, the range collapses to the start
    let (store, id) = store_with("Dockerfile", "FROM debian");
    let mut region = empty_region();
    region.start_line = Some(1);
    region.start_column = Some(1);
    assert_eq!(get_byte_range(id, &store, &region), (Some(0), Some(0)));

    let mut region6 = empty_region();
    region6.start_line = Some(1);
    region6.start_column = Some(6);
    assert_eq!(get_byte_range(id, &store, &region6), (Some(5), Some(5)));
}

#[test]
fn region_start_only_with_newline_selects_line() {
    // with a trailing newline the absent end selects to the end of the line
    let (store, id) = store_with("f", "FROM debian\n");
    let mut region = empty_region();
    region.start_line = Some(1);
    region.start_column = Some(1);
    assert_eq!(get_byte_range(id, &store, &region), (Some(0), Some(11)));
}

#[test]
fn region_explicit_end() {
    let (store, id) = store_with("f", "abcdef\n");
    let mut region = empty_region();
    region.start_line = Some(1);
    region.start_column = Some(2);
    region.end_line = Some(1);
    region.end_column = Some(5);
    assert_eq!(get_byte_range(id, &store, &region), (Some(1), Some(4)));
}

#[test]
fn region_end_column_defaults_to_start_line_end() {
    let (store, id) = store_with("f", "ab\ncdef\ngh\n");
    let mut region = empty_region();
    region.start_line = Some(2);
    region.start_column = Some(2);
    assert_eq!(get_byte_range(id, &store, &region), (Some(4), Some(7)));
}

#[test]
fn region_missing_start_gives_nothing() {
    let (store, id) = store_with("f", "abc\n");
    let region = empty_region();
    assert_eq!(get_byte_range(id, &store, &region), (None, None));

    let mut far = empty_region();
    far.start_line = Some(9);
    far.start_column = Some(1);
    assert_eq!(get_byte_range(id, &store, &far), (None, None));
}

#[test]
fn region_column_defaults_to_one() {
    let (store, id) = store_with("f", "abc\ndef\n");
    let mut region = empty_region();
    region.start_line = Some(2);
    region.byte_length = Some(1);
    assert_eq!(get_byte_range(id, &store, &region), (Some(4), Some(5)));
}

#[test]
fn location_of_byte() {
    let (store, _) = store_with("f", "ab\ncde\nf");
    let entry = &store.entries[0];
    assert_eq!(location_of(entry, 0), (1, 1));
    assert_eq!(location_of(entry, 1), (1, 2));
    assert_eq!(location_of(entry, 3), (2, 1));
    assert_eq!(location_of(entry, 5), (2, 3));
    assert_eq!(location_of(entry, 7), (3, 1));
}
