//! The position mapper: converts a region descriptor into a concrete
//! `[start, end)` byte range over loaded text.
//!
//! A region may carry byte offsets, 1-based line/column pairs, or a mixture;
//! any field may be absent. A present `byte_offset` always wins over
//! line/column data. A missing end bound degrades rather than fails: the end
//! line defaults to the start line, the end column to one past the last
//! visible column of that line (select to end of line), and an end that
//! still cannot be resolved collapses to a zero-width range at the start. A
//! line that does not end in a newline has no position one past its last
//! column, so on such a line the default end collapses to the start.

use vstd::prelude::*;
use crate::files::{
    spec_chars_in, spec_column_of, spec_is_newline, FileEntry, FileStore, chars_in,
};
use crate::sarif::Region;

verus! {

/// Characters completed in a prefix of a span never outnumber those of the
/// whole span, and neither count is negative.
pub proof fn lemma_chars_in_mono(text: Seq<u8>, from: int, p: int, to: int)
    requires
        p <= to,
    ensures
        0 <= spec_chars_in(text, from, p) <= spec_chars_in(text, from, to),
    decreases to - p,
{
    if p < to {
        lemma_chars_in_mono(text, from, p, to - 1);
    } else {
        lemma_chars_in_nonneg(text, from, p);
    }
}

/// A character count is never negative.
pub proof fn lemma_chars_in_nonneg(text: Seq<u8>, from: int, to: int)
    ensures
        0 <= spec_chars_in(text, from, to),
    decreases to - from,
{
    if from < to {
        lemma_chars_in_nonneg(text, from, to - 1);
    }
}

/// The first byte position in `[p, le)` whose column on the line `[ls, le)`
/// is `col`.
pub open spec fn spec_byte_of_col_from(
    text: Seq<u8>,
    ls: int,
    le: int,
    p: int,
    col: int,
) -> Option<int>
    decreases le - p,
{
    if p < ls || p >= le {
        None
    } else if spec_column_of(text, ls, le, p) == col {
        Some(p)
    } else {
        spec_byte_of_col_from(text, ls, le, p + 1, col)
    }
}

/// A column scan that finds a byte returns the first byte of its line with
/// that column, inside the line.
pub proof fn lemma_byte_of_col_found(text: Seq<u8>, ls: int, le: int, p: int, col: int)
    requires
        ls <= p,
    ensures
        match spec_byte_of_col_from(text, ls, le, p, col) {
            Some(b) => p <= b < le && spec_column_of(text, ls, le, b) == col && (forall|q: int|
                p <= q < b ==> spec_column_of(text, ls, le, q) != col),
            None => forall|q: int| p <= q < le ==> spec_column_of(text, ls, le, q) != col,
        },
    decreases le - p,
{
    if !(p < ls || p >= le) {
        if spec_column_of(text, ls, le, p) != col {
            lemma_byte_of_col_found(text, ls, le, p + 1, col);
        }
    }
}

/// Where a result of a tool points: see [`try_get_byte_offset`].
pub open spec fn spec_try_get_byte_offset(entry: FileEntry, row: int, col: int) -> Option<int> {
    if 1 <= row <= entry.spec_num_lines() {
        let ls = entry.spec_line_start(row - 1);
        let le = entry.spec_line_start(row);
        spec_byte_of_col_from(entry.text@, ls, le, ls, col)
    } else {
        None
    }
}

/// Scans line `k` of the entry for the first byte whose column is `col`.
fn scan_line(entry: &FileEntry, k: usize, col: u128) -> (r: Option<usize>)
    requires
        entry.wf(),
        k < entry.line_starts@.len(),
    ensures
        ({
            let ls = entry.spec_line_start(k as int);
            let le = entry.spec_line_start(k as int + 1);
            match r {
                Some(b) => b < entry.text@.len() && spec_byte_of_col_from(
                    entry.text@,
                    ls,
                    le,
                    ls,
                    col as int,
                ) == Some(b as int),
                None => spec_byte_of_col_from(entry.text@, ls, le, ls, col as int) is None,
            }
        }),
{
    let ls = entry.line_starts[k];
    let le = if k + 1 < entry.line_starts.len() {
        entry.line_starts[k + 1]
    } else {
        entry.text.len()
    };
    let ghost gls = ls as int;
    let ghost gle = le as int;
    let mut p: usize = ls;
    let mut cnt: usize = 0;
    while p < le
        invariant
            entry.wf(),
            gls == entry.spec_line_start(k as int),
            gle == entry.spec_line_start(k as int + 1),
            ls == gls,
            le == gle,
            ls <= p <= le,
            le <= entry.text@.len(),
            cnt as int == spec_chars_in(entry.text@, ls as int, p as int),
            cnt <= p - ls,
            spec_byte_of_col_from(entry.text@, gls, gle, gls, col as int)
                == spec_byte_of_col_from(entry.text@, gls, gle, p as int, col as int),
        decreases le - p,
    {
        if col == (cnt as u128) + 1 {
            return Some(p);
        }
        let ends = if p + 1 == entry.text.len() {
            true
        } else {
            let b = entry.text[p + 1];
            b < 0x80 || b >= 0xC0
        };
        if ends {
            cnt = cnt + 1;
        }
        p = p + 1;
        assert(spec_chars_in(entry.text@, ls as int, p as int) == spec_chars_in(
            entry.text@,
            ls as int,
            p - 1,
        ) + if crate::files::spec_char_ends_at(entry.text@, p as int) {
            1int
        } else {
            0int
        });
    }
    None
}

/// Finds the byte position of the 1-based (`row`, `column`) pair inside the
/// loaded text of a file.
///
/// The target line's byte range is scanned for the first position whose
/// column number equals the requested column; when the row is not a line of
/// the text or no position on it has that column, there is no offset.
pub fn try_get_byte_offset(file_id: usize, files: &FileStore, row: i64, column: i64) -> (r: Option<
    usize,
>)
    requires
        files.wf(),
        file_id < files.entries@.len(),
    ensures
        ({
            let entry = files.entries@[file_id as int];
            match r {
                Some(b) => b < entry.text@.len() && spec_try_get_byte_offset(
                    entry,
                    row as int,
                    column as int,
                ) == Some(b as int),
                None => spec_try_get_byte_offset(entry, row as int, column as int) is None,
            }
        }),
{
    let entry = &files.entries[file_id];
    let nl = entry.line_starts.len();
    if !(1 <= row && (row as u128) <= (nl as u128)) {
        return None;
    }
    let k = (row as usize) - 1;
    if column < 1 {
        proof {
            let ls = entry.spec_line_start(k as int);
            let le = entry.spec_line_start(k as int + 1);
            assert forall|q: int| ls <= q < le implies spec_column_of(
                entry.text@,
                ls,
                le,
                q,
            ) != column as int by {
                lemma_chars_in_nonneg(entry.text@, ls, if q <= le { q } else { le });
            }
            lemma_byte_of_col_found(entry.text@, ls, le, ls, column as int);
        }
        return None;
    }
    scan_line(entry, k, column as u128)
}

/// The resolved start of a region: a present byte offset is used directly;
/// else a present start line is scanned for the start column (defaulting to
/// column 1); else the region has no start.
pub open spec fn spec_region_start(entry: FileEntry, region: Region) -> Option<int> {
    match region.byte_offset {
        Some(bo) => if 0 <= bo <= usize::MAX {
            Some(bo as int)
        } else {
            None
        },
        None => match region.start_line {
            Some(sl) => {
                let col = match region.start_column {
                    Some(c) => c as int,
                    None => 1,
                };
                spec_try_get_byte_offset(entry, sl as int, col)
            },
            None => None,
        },
    }
}

/// The default end column of a line: one past its last visible column, so
/// that an absent end column selects to the end of the line. A line that is
/// empty has none.
pub open spec fn spec_default_end_col(entry: FileEntry, eline: int) -> Option<int> {
    if 1 <= eline <= entry.spec_num_lines() {
        let ls = entry.spec_line_start(eline - 1);
        let le = entry.spec_line_start(eline);
        if ls < le {
            let le_vis = if spec_is_newline(entry.text@[le - 1]) {
                le - 1
            } else {
                le
            };
            Some(1 + spec_chars_in(entry.text@, ls, le_vis))
        } else {
            None
        }
    } else {
        None
    }
}

/// The resolved end of a region, given its resolved start. A present byte
/// length is added to the start; else the end line (defaulting to the start
/// line) is scanned for the end column (defaulting per
/// [`spec_default_end_col`]); whatever cannot be resolved collapses the end
/// to the start.
pub open spec fn spec_region_end(entry: FileEntry, region: Region, start: int) -> int {
    match region.byte_length {
        Some(bl) => if 0 <= bl && start + bl <= usize::MAX {
            start + bl
        } else {
            start
        },
        None => {
            let eline_opt = match region.end_line {
                Some(e) => Some(e as int),
                None => match region.start_line {
                    Some(sl) => Some(sl as int),
                    None => None,
                },
            };
            match eline_opt {
                Some(eline) => {
                    let ecol_opt = match region.end_column {
                        Some(c) => Some(c as int),
                        None => spec_default_end_col(entry, eline),
                    };
                    match ecol_opt {
                        Some(ecol) => match spec_try_get_byte_offset(entry, eline, ecol) {
                            Some(e) => e,
                            None => start,
                        },
                        None => start,
                    }
                },
                None => start,
            }
        },
    }
}

/// Converts a region descriptor into a concrete `[start, end)` byte range
/// over the loaded text of a file, or `(None, None)` when the region gives
/// too little information to place its start.
///
/// The start comes from the byte offset when present, else from the
/// start line/column pair; the end from the byte length when present, else
/// from the end line/column with the defaults of [`spec_region_end`]. An end
/// that cannot be resolved collapses to the start, keeping a zero-width
/// highlight rather than rejecting the result.
pub fn get_byte_range(file_id: usize, files: &FileStore, region: &Region) -> (r: (
    Option<usize>,
    Option<usize>,
))
    requires
        files.wf(),
        file_id < files.entries@.len(),
    ensures
        ({
            let entry = files.entries@[file_id as int];
            match (r.0, r.1) {
                (Some(s), Some(e)) => spec_region_start(entry, *region) == Some(s as int) && e
                    as int == spec_region_end(entry, *region, s as int),
                (None, None) => spec_region_start(entry, *region) is None,
                _ => false,
            }
        }),
{
    let start_opt: Option<usize> = match &region.byte_offset {
        Some(bo) => {
            if 0 <= *bo && (*bo as u128) <= (usize::MAX as u128) {
                Some(*bo as usize)
            } else {
                None
            }
        },
        None => match &region.start_line {
            Some(sl) => {
                let col: i64 = match &region.start_column {
                    Some(c) => *c,
                    None => 1,
                };
                try_get_byte_offset(file_id, files, *sl, col)
            },
            None => None,
        },
    };
    let s = match start_opt {
        Some(s) => s,
        None => {
            return (None, None);
        },
    };
    let e: usize = match &region.byte_length {
        Some(bl) => {
            if 0 <= *bl && (*bl as u128) <= (usize::MAX as u128) {
                let blu = *bl as usize;
                if s <= usize::MAX - blu {
                    s + blu
                } else {
                    s
                }
            } else {
                s
            }
        },
        None => {
            let eline: i64 = match &region.end_line {
                Some(e) => *e,
                None => match &region.start_line {
                    Some(sl) => *sl,
                    None => {
                        return (Some(s), Some(s));
                    },
                },
            };
            let e_opt: Option<usize> = match &region.end_column {
                Some(c) => try_get_byte_offset(file_id, files, eline, *c),
                None => {
                    let entry = &files.entries[file_id];
                    let nl = entry.line_starts.len();
                    if 1 <= eline && (eline as u128) <= (nl as u128) {
                        let k = (eline as usize) - 1;
                        let ls = entry.line_starts[k];
                        let le = if k + 1 < nl {
                            entry.line_starts[k + 1]
                        } else {
                            entry.text.len()
                        };
                        if ls < le {
                            let le_vis = if entry.text[le - 1] == 10 {
                                le - 1
                            } else {
                                le
                            };
                            let c = chars_in(&entry.text, ls, le_vis) + 1;
                            scan_line(entry, k, c as u128)
                        } else {
                            None
                        }
                    } else {
                        None
                    }
                },
            };
            match e_opt {
                Some(e) => e,
                None => s,
            }
        },
    };
    (Some(s), Some(e))
}

} // verus!
