//! The loaded-file cache and the line/column index over loaded text.
//!
//! A [`FileStore`] maps a URI string to the bytes of the artifact it names
//! and to an opaque file id (the entry's position). The cache key is the
//! literal URI string as it appears in the document: two different URI
//! strings are distinct entries even when they name the same file on disk.
//! Entries are created once and never invalidated.
//!
//! Each entry carries a line index: the byte positions at which its lines
//! start (position 0, and the position after every newline byte). Columns
//! are 1-based and counted in UTF-8 characters: the column of a byte
//! position is one more than the number of characters completed between the
//! line start and that position.

use vstd::prelude::*;
use crate::text::string_eq;

verus! {

/// The newline byte that terminates a line.
pub open spec fn spec_is_newline(b: u8) -> bool {
    b == 10
}

/// Whether `b` is the leading byte of a UTF-8 encoded character.
pub open spec fn spec_is_char_start(b: u8) -> bool {
    b < 0x80 || b >= 0xC0
}

/// Whether a character ends just before position `p`: either `p` is the end
/// of the text or the byte at `p` starts a new character.
pub open spec fn spec_char_ends_at(text: Seq<u8>, p: int) -> bool {
    p == text.len() || spec_is_char_start(text[p])
}

/// The number of characters completed inside `text[from..to)`.
pub open spec fn spec_chars_in(text: Seq<u8>, from: int, to: int) -> int
    decreases to - from,
{
    if from >= to {
        0
    } else {
        spec_chars_in(text, from, to - 1) + if spec_char_ends_at(text, to) {
            1int
        } else {
            0int
        }
    }
}

/// The 1-based column of byte position `p` on the line `[ls, le)`: one more
/// than the number of characters completed between the line start and `p`,
/// with `p` clamped to the line and to the text.
pub open spec fn spec_column_of(text: Seq<u8>, ls: int, le: int, p: int) -> int {
    let end = if p <= le {
        p
    } else {
        le
    };
    let end2 = if end <= text.len() {
        end
    } else {
        text.len() as int
    };
    1 + spec_chars_in(text, ls, end2)
}

/// The shape of a line index over a text of the given length: it begins at
/// position 0, stays inside the text, and is strictly increasing.
pub open spec fn spec_starts_shape(starts: Seq<usize>, text_len: int) -> bool {
    &&& 1 <= starts.len() <= text_len + 1
    &&& starts[0] == 0
    &&& forall|k: int| 0 <= k < starts.len() ==> #[trigger] starts[k] <= text_len
    &&& forall|k: int, l: int|
        0 <= k < l < starts.len() ==> #[trigger] starts[k] < #[trigger] starts[l]
}

/// The line index lists exactly the positions following a newline byte:
/// every listed position (but the first) follows a newline, and no newline
/// hides between a line start and the next listed position.
#[verifier::opaque]
pub open spec fn spec_starts_newlines(starts: Seq<usize>, text: Seq<u8>) -> bool {
    &&& forall|k: int|
        1 <= k < starts.len() ==> 0 < #[trigger] starts[k] && spec_is_newline(
            text[starts[k] - 1],
        )
    &&& forall|k: int, p: int|
        0 <= k < starts.len() - 1 && #[trigger] starts[k] <= p < starts[k + 1] - 1
            ==> !spec_is_newline(#[trigger] text[p])
    &&& forall|p: int|
        starts[starts.len() - 1] <= p < text.len() ==> !spec_is_newline(#[trigger] text[p])
}

/// A line index is well formed for a text when it lists exactly the start of
/// the text and every position following a newline byte, in order.
pub open spec fn spec_wf_line_starts(starts: Seq<usize>, text: Seq<u8>) -> bool {
    &&& spec_starts_shape(starts, text.len() as int)
    &&& spec_starts_newlines(starts, text)
}

/// One cache entry: the URI string it is keyed by, the artifact's bytes, and
/// the line index computed from them.
pub struct FileEntry {
    pub name: String,
    pub text: Vec<u8>,
    pub line_starts: Vec<usize>,
}

impl FileEntry {
    /// A well-formed entry carries the line index of its own text; the text
    /// leaves room for a 1-based column count.
    pub open spec fn wf(self) -> bool {
        &&& spec_wf_line_starts(self.line_starts@, self.text@)
        &&& self.text@.len() < usize::MAX
    }

    /// The number of lines of the entry, one more than its newline count.
    pub open spec fn spec_num_lines(self) -> int {
        self.line_starts@.len() as int
    }

    /// The byte position at which line `k` starts; one past the last line,
    /// it is the end of the text.
    pub open spec fn spec_line_start(self, k: int) -> int {
        if k < self.line_starts@.len() {
            self.line_starts@[k] as int
        } else {
            self.text@.len() as int
        }
    }

    /// Builds the entry for a named text: scans the bytes once and records
    /// where each line starts.
    pub fn load(name: String, text: Vec<u8>) -> (e: FileEntry)
        requires
            text@.len() < usize::MAX,
        ensures
            e.wf(),
            e.name == name,
            e.text == text,
    {
        let mut starts: Vec<usize> = Vec::new();
        starts.push(0);
        let mut i: usize = 0;
        while i < text.len()
            invariant
                i <= text.len() < usize::MAX,
                1 <= starts.len() <= i + 1,
                starts@[0] == 0,
                forall|k: int| 0 <= k < starts.len() ==> #[trigger] starts@[k] <= i,
                forall|k: int, l: int|
                    0 <= k < l < starts.len() ==> #[trigger] starts@[k] < #[trigger] starts@[l],
                forall|k: int|
                    1 <= k < starts.len() ==> 0 < #[trigger] starts@[k] && spec_is_newline(
                        text@[starts@[k] - 1],
                    ),
                forall|k: int, p: int|
                    0 <= k < starts.len() - 1 && #[trigger] starts@[k] <= p < starts@[k + 1] - 1
                        ==> !spec_is_newline(#[trigger] text@[p]),
                forall|p: int|
                    starts@[starts@.len() - 1] <= p < i ==> !spec_is_newline(#[trigger] text@[p]),
            decreases text.len() - i,
        {
            if text[i] == 10 {
                starts.push(i + 1);
            }
            i = i + 1;
        }
        proof {
            reveal(spec_starts_newlines);
            assert(spec_starts_newlines(starts@, text@));
        }
        FileEntry { name, text, line_starts: starts }
    }
}

/// The cache of loaded artifacts, keyed by the literal URI strings of the
/// document; an entry's position is its opaque file id.
pub struct FileStore {
    pub entries: Vec<FileEntry>,
}

/// The position of the first entry keyed by `name`, scanning from `from`.
pub open spec fn spec_store_find_from(entries: Seq<FileEntry>, name: Seq<char>, from: int) -> Option<
    int,
>
    decreases entries.len() - from,
{
    if from < 0 || from >= entries.len() {
        None
    } else if entries[from].name@ == name {
        Some(from)
    } else {
        spec_store_find_from(entries, name, from + 1)
    }
}

impl FileStore {
    /// Every entry of a well-formed store carries its own line index.
    pub open spec fn wf(self) -> bool {
        forall|k: int| 0 <= k < self.entries@.len() ==> (#[trigger] self.entries@[k]).wf()
    }

    /// The position of the first entry keyed by `name`.
    pub open spec fn spec_lookup(self, name: Seq<char>) -> Option<int> {
        spec_store_find_from(self.entries@, name, 0)
    }

    /// An empty cache.
    pub fn new() -> (s: FileStore)
        ensures
            s.wf(),
            s.entries@.len() == 0,
    {
        FileStore { entries: Vec::new() }
    }

    /// The file id under which `uri` is cached, if it has been loaded.
    pub fn lookup(&self, uri: &String) -> (r: Option<usize>)
        ensures
            match r {
                Some(j) => j < self.entries@.len() && self.spec_lookup(uri@) == Some(j as int),
                None => self.spec_lookup(uri@) is None,
            },
    {
        let mut j: usize = 0;
        while j < self.entries.len()
            invariant
                j <= self.entries@.len(),
                spec_store_find_from(self.entries@, uri@, 0) == spec_store_find_from(
                    self.entries@,
                    uri@,
                    j as int,
                ),
            decreases self.entries@.len() - j,
        {
            if string_eq(&self.entries[j].name, uri) {
                return Some(j);
            }
            j = j + 1;
        }
        None
    }

    /// Caches a text under `uri` and returns its file id. A URI already in
    /// the cache keeps its first entry: the text given here is dropped and
    /// the existing id returned.
    pub fn insert(&mut self, uri: String, text: Vec<u8>) -> (id: usize)
        requires
            old(self).wf(),
            text@.len() < usize::MAX,
        ensures
            final(self).wf(),
            id < final(self).entries@.len(),
            final(self).entries@[id as int].name@ == uri@,
            match old(self).spec_lookup(uri@) {
                Some(j) => id == j && final(self).entries@ == old(self).entries@,
                None => {
                    &&& final(self).entries@.len() == old(self).entries@.len() + 1
                    &&& id == old(self).entries@.len()
                    &&& final(self).entries@[id as int].text@ == text@
                    &&& final(self).entries@[id as int].wf()
                    &&& forall|k: int|
                        0 <= k < old(self).entries@.len() ==> final(self).entries@[k] == old(
                            self,
                        ).entries@[k]
                },
            },
    {
        match self.lookup(&uri) {
            Some(j) => {
                proof {
                    lemma_store_find_found(self.entries@, uri@);
                }
                j
            },
            None => {
                let e = FileEntry::load(uri, text);
                let id = self.entries.len();
                self.entries.push(e);
                id
            },
        }
    }
}

/// A successful cache lookup points at an entry keyed by the name.
proof fn lemma_store_find_found(entries: Seq<FileEntry>, name: Seq<char>)
    ensures
        match spec_store_find_from(entries, name, 0) {
            Some(j) => 0 <= j < entries.len() && entries[j].name@ == name,
            None => true,
        },
    decreases entries.len(),
{
    lemma_store_find_found_from(entries, name, 0);
}

/// A successful cache scan from any position points at an entry keyed by
/// the name.
proof fn lemma_store_find_found_from(entries: Seq<FileEntry>, name: Seq<char>, from: int)
    ensures
        match spec_store_find_from(entries, name, from) {
            Some(j) => 0 <= j < entries.len() && entries[j].name@ == name,
            None => true,
        },
    decreases entries.len() - from,
{
    if 0 <= from < entries.len() {
        if entries[from].name@ != name {
            lemma_store_find_found_from(entries, name, from + 1);
        }
    }
}

/// The 0-based index of the line containing byte position `p`, scanning
/// line starts from line `k`: the last line whose start is at or before `p`.
pub open spec fn spec_line_of_from(starts: Seq<usize>, p: int, k: int) -> int
    decreases starts.len() - k,
{
    if k + 1 >= starts.len() || p < starts[k + 1] {
        k
    } else {
        spec_line_of_from(starts, p, k + 1)
    }
}

/// The 0-based index of the line containing byte position `p`; positions
/// past the end of the text fall on the last line.
pub open spec fn spec_line_of(starts: Seq<usize>, p: int) -> int {
    spec_line_of_from(starts, p, 0)
}

/// Finds the 0-based index of the line containing byte position `p`.
pub fn line_of_byte(entry: &FileEntry, p: usize) -> (k: usize)
    requires
        entry.wf(),
    ensures
        k as int == spec_line_of(entry.line_starts@, p as int),
        k < entry.line_starts@.len(),
{
    let starts = &entry.line_starts;
    let mut k: usize = 0;
    while k + 1 < starts.len() && starts[k + 1] <= p
        invariant
            entry.wf(),
            starts == entry.line_starts,
            k < starts@.len(),
            spec_line_of(starts@, p as int) == spec_line_of_from(starts@, p as int, k as int),
        decreases starts@.len() - k,
    {
        k = k + 1;
    }
    k
}

/// Counts the characters completed inside `text[from..to)`.
pub fn chars_in(text: &Vec<u8>, from: usize, to: usize) -> (n: usize)
    requires
        from <= to <= text@.len(),
    ensures
        n as int == spec_chars_in(text@, from as int, to as int),
        n <= to - from,
{
    let mut n: usize = 0;
    let mut p: usize = from;
    while p < to
        invariant
            from <= p <= to <= text@.len(),
            n as int == spec_chars_in(text@, from as int, p as int),
            n <= p - from,
        decreases to - p,
    {
        let ends = if p + 1 == text.len() {
            true
        } else {
            let b = text[p + 1];
            b < 0x80 || b >= 0xC0
        };
        if ends {
            n = n + 1;
        }
        p = p + 1;
        assert(spec_chars_in(text@, from as int, p as int) == spec_chars_in(
            text@,
            from as int,
            p - 1,
        ) + if spec_char_ends_at(text@, p as int) {
            1int
        } else {
            0int
        });
    }
    n
}

/// Computes the 1-based column of byte position `p` on line `k` of the
/// entry, clamping `p` to the line.
pub fn column_number(entry: &FileEntry, k: usize, p: usize) -> (c: usize)
    requires
        entry.wf(),
        k < entry.line_starts@.len(),
    ensures
        c as int == spec_column_of(
            entry.text@,
            entry.spec_line_start(k as int),
            entry.spec_line_start(k as int + 1),
            p as int,
        ),
        c >= 1,
{
    let ls = entry.line_starts[k];
    let le = if k + 1 < entry.line_starts.len() {
        entry.line_starts[k + 1]
    } else {
        entry.text.len()
    };
    let end = if p <= le {
        p
    } else {
        le
    };
    let end2 = if end <= entry.text.len() {
        end
    } else {
        entry.text.len()
    };
    let n = if end2 <= ls {
        0
    } else {
        chars_in(&entry.text, ls, end2)
    };
    n + 1
}

/// The 1-based line and column of byte position `p` in the entry, as shown
/// to a reader: the line containing `p` and the column of `p` on it.
pub open spec fn spec_location_of(entry: FileEntry, p: int) -> (int, int) {
    let k = spec_line_of(entry.line_starts@, p);
    (
        k + 1,
        spec_column_of(
            entry.text@,
            entry.spec_line_start(k),
            entry.spec_line_start(k + 1),
            p,
        ),
    )
}

/// Computes the 1-based line and column numbers of byte position `p`.
pub fn location_of(entry: &FileEntry, p: usize) -> (lc: (usize, usize))
    requires
        entry.wf(),
    ensures
        (lc.0 as int, lc.1 as int) == spec_location_of(*entry, p as int),
        lc.0 >= 1,
        lc.1 >= 1,
{
    let k = line_of_byte(entry, p);
    proof {
        lemma_line_of_bounds(entry.line_starts@, p as int);
    }
    let c = column_number(entry, k, p);
    (k + 1, c)
}

/// A line index never runs past the table.
proof fn lemma_line_of_bounds(starts: Seq<usize>, p: int)
    requires
        starts.len() >= 1,
    ensures
        0 <= spec_line_of(starts, p) < starts.len(),
{
    lemma_line_of_bounds_from(starts, p, 0);
}

/// A line scan started in bounds stays in bounds.
proof fn lemma_line_of_bounds_from(starts: Seq<usize>, p: int, k: int)
    requires
        0 <= k < starts.len(),
    ensures
        k <= spec_line_of_from(starts, p, k) < starts.len(),
    decreases starts.len() - k,
{
    if !(k + 1 >= starts.len() || p < starts[k + 1]) {
        lemma_line_of_bounds_from(starts, p, k + 1);
    }
}

} // verus!
