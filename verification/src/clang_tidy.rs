//! A converter for clang-tidy output: turns the tool's diagnostic lines
//! into an interchange document of the model.
//!
//! A diagnostic line has the shape `file:line:column: level: message`: a
//! path (optionally with a Windows drive prefix), two 1-based decimal
//! positions, one of the four level keywords, and the message text. Lines
//! of any other shape carry no diagnostic and are skipped. `note` lines
//! attach to the preceding diagnostic as related locations.

use vstd::prelude::*;
use vstd::string::{StrSliceExecFns, StringExecFns};
use crate::sarif::{
    ArtifactLocation, Location, Message, PhysicalLocation, Region, ResultLevel, Run, Sarif,
    SarifResult, Tool, ToolComponent,
};
use crate::text::str_eq;

verus! {

/// One parsed diagnostic line. The positions are absent when their digits
/// do not fit a 64-bit signed integer.
pub struct ClangTidyResult {
    pub file: Option<String>,
    pub line: Option<i64>,
    pub column: Option<i64>,
    pub level: String,
    pub message: String,
    pub rules: String,
}

/// Why parsed lines could not be converted; fatal for the whole input.
pub enum ClangTidyError {
    /// A diagnostic lacks its file, line or column; carries the field name.
    Uninitialized(&'static str),
    /// A diagnostic's level is not a result level of the format.
    UnknownLevel,
}

/// A decimal digit.
pub open spec fn spec_is_digit(c: char) -> bool {
    48 <= c as u32 <= 57
}

/// Horizontal whitespace: a space or a tab.
pub open spec fn spec_is_ws(c: char) -> bool {
    c as u32 == 32 || c as u32 == 9
}

/// An ASCII letter.
pub open spec fn spec_is_alpha(c: char) -> bool {
    (65 <= c as u32 <= 90) || (97 <= c as u32 <= 122)
}

/// A character a path may consist of: letters, digits, underscore, slash,
/// dot, dash, space, backslash.
pub open spec fn spec_is_file_char(c: char) -> bool {
    ||| spec_is_digit(c)
    ||| spec_is_alpha(c)
    ||| c as u32 == 95
    ||| c as u32 == 47
    ||| c as u32 == 46
    ||| c as u32 == 45
    ||| c as u32 == 32
    ||| c as u32 == 92
}

/// The value of a run of decimal digits.
pub open spec fn spec_digits_value(s: Seq<char>) -> int
    decreases s.len(),
{
    if s.len() == 0 {
        0
    } else {
        spec_digits_value(s.drop_last()) * 10 + (s.last() as u32 - 48)
    }
}

/// A run of digits has a non-negative value.
proof fn lemma_digits_nonneg(s: Seq<char>)
    requires
        forall|i: int| 0 <= i < s.len() ==> spec_is_digit(#[trigger] s[i]),
    ensures
        spec_digits_value(s) >= 0,
    decreases s.len(),
{
    if s.len() > 0 {
        assert(forall|i: int| 0 <= i < s.drop_last().len() ==> spec_is_digit(
            #[trigger] s.drop_last()[i],
        ));
        lemma_digits_nonneg(s.drop_last());
        assert(spec_is_digit(s.last()));
        assert(spec_digits_value(s.drop_last()) * 10 >= 0) by (nonlinear_arith)
            requires
                spec_digits_value(s.drop_last()) >= 0,
        ;
    }
}

/// The position a digit run denotes: its value when it fits a 64-bit
/// signed integer, else nothing.
pub open spec fn spec_opt_num(ds: Seq<char>) -> Option<i64> {
    if spec_digits_value(ds) <= i64::MAX {
        Some(spec_digits_value(ds) as i64)
    } else {
        None
    }
}

/// A well-formed path prefix of length `fe`: a nonempty run of path
/// characters, or a drive letter and a colon followed by such a run.
pub open spec fn spec_file_shape(s: Seq<char>, fe: int) -> bool {
    ||| (1 <= fe <= s.len() && forall|i: int| 0 <= i < fe ==> spec_is_file_char(#[trigger] s[i]))
    ||| (3 <= fe <= s.len() && spec_is_alpha(s[0]) && s[1] == ':' && forall|i: int|
        2 <= i < fe ==> spec_is_file_char(#[trigger] s[i]))
}

/// One of the four level keywords of a diagnostic line.
pub open spec fn spec_level_word(s: Seq<char>) -> bool {
    s == "error"@ || s == "warning"@ || s == "info"@ || s == "note"@
}

/// The positions cutting a diagnostic line into its parts: the path ends
/// at `fe`, the two digit runs at `d1e` and `d2e`, the whitespace before
/// the level at `w1e`, the level keyword at `lve`, the whitespace before
/// the message at `w2e`; the message is the nonempty rest.
pub open spec fn spec_line_split(
    s: Seq<char>,
    fe: int,
    d1e: int,
    d2e: int,
    w1e: int,
    lve: int,
    w2e: int,
) -> bool {
    &&& spec_file_shape(s, fe)
    &&& fe < s.len() && s[fe] == ':'
    &&& fe + 1 < d1e <= s.len() && forall|i: int| fe + 1 <= i < d1e ==> spec_is_digit(#[trigger] s[i])
    &&& d1e < s.len() && s[d1e] == ':'
    &&& d1e + 1 < d2e <= s.len() && forall|i: int|
        d1e + 1 <= i < d2e ==> spec_is_digit(#[trigger] s[i])
    &&& d2e < s.len() && s[d2e] == ':'
    &&& d2e + 1 < w1e <= s.len() && forall|i: int| d2e + 1 <= i < w1e ==> spec_is_ws(#[trigger] s[i])
    &&& w1e < lve <= s.len() && spec_level_word(s.subrange(w1e, lve))
    &&& lve < s.len() && s[lve] == ':'
    &&& lve + 1 < w2e <= s.len() && forall|i: int| lve + 1 <= i < w2e ==> spec_is_ws(#[trigger] s[i])
    &&& w2e < s.len()
}

/// The end of the run of path characters starting at `p`.
pub open spec fn spec_file_run_end(s: Seq<char>, p: int) -> int
    decreases s.len() - p,
{
    if p < 0 || p >= s.len() {
        p
    } else if spec_is_file_char(s[p]) {
        spec_file_run_end(s, p + 1)
    } else {
        p
    }
}

/// The end of the run of digits starting at `p`.
pub open spec fn spec_digit_run_end(s: Seq<char>, p: int) -> int
    decreases s.len() - p,
{
    if p < 0 || p >= s.len() {
        p
    } else if spec_is_digit(s[p]) {
        spec_digit_run_end(s, p + 1)
    } else {
        p
    }
}

/// The end of the run of whitespace starting at `p`.
pub open spec fn spec_ws_run_end(s: Seq<char>, p: int) -> int
    decreases s.len() - p,
{
    if p < 0 || p >= s.len() {
        p
    } else if spec_is_ws(s[p]) {
        spec_ws_run_end(s, p + 1)
    } else {
        p
    }
}

/// The position of the first colon at or after `p`, or the end of the
/// line.
pub open spec fn spec_colon_pos(s: Seq<char>, p: int) -> int
    decreases s.len() - p,
{
    if p < 0 || p >= s.len() {
        p
    } else if s[p] == ':' {
        p
    } else {
        spec_colon_pos(s, p + 1)
    }
}

/// What parsing the rest of a line yields, the path ending at `fe`: the
/// path, the two positions, the level keyword and the message, each cut at
/// the scan positions the parser uses.
pub open spec fn spec_parse_after(s: Seq<char>, fe: int) -> Option<
    (Seq<char>, Option<i64>, Option<i64>, Seq<char>, Seq<char>),
> {
    let n = s.len() as int;
    if fe >= n || s[fe] != ':' {
        None
    } else {
        let d1s = fe + 1;
        let d1e = spec_digit_run_end(s, d1s);
        if d1e == d1s || d1e >= n || s[d1e] != ':' {
            None
        } else {
            let d2s = d1e + 1;
            let d2e = spec_digit_run_end(s, d2s);
            if d2e == d2s || d2e >= n || s[d2e] != ':' {
                None
            } else {
                let w1s = d2e + 1;
                let w1e = spec_ws_run_end(s, w1s);
                if w1e == w1s {
                    None
                } else {
                    let lve = spec_colon_pos(s, w1e);
                    if lve >= n || lve == w1e || !spec_level_word(s.subrange(w1e, lve)) {
                        None
                    } else {
                        let r0 = lve + 1;
                        let w2e = spec_ws_run_end(s, r0);
                        if w2e == r0 || (w2e == n && w2e - r0 < 2) {
                            None
                        } else {
                            let msg_start = if w2e == n {
                                n - 1
                            } else {
                                w2e
                            };
                            Some(
                                (
                                    s.subrange(0, fe),
                                    spec_opt_num(s.subrange(d1s, d1e)),
                                    spec_opt_num(s.subrange(d2s, d2e)),
                                    s.subrange(w1e, lve),
                                    s.subrange(msg_start, n),
                                ),
                            )
                        }
                    }
                }
            }
        }
    }
}

/// What the drive-prefixed reading of a line yields: the path read as a
/// drive letter, a colon and a run of path characters.
pub open spec fn spec_drive_result(s: Seq<char>) -> Option<
    (Seq<char>, Option<i64>, Option<i64>, Seq<char>, Seq<char>),
> {
    if s.len() >= 2 && spec_is_alpha(s[0]) && s[1] == ':' {
        let fe = spec_file_run_end(s, 2);
        if fe >= 3 {
            spec_parse_after(s, fe)
        } else {
            None
        }
    } else {
        None
    }
}

/// What parsing a line yields: the drive-prefixed reading of the path is
/// preferred, the plain reading tried after it.
pub open spec fn spec_parse_line(s: Seq<char>) -> Option<
    (Seq<char>, Option<i64>, Option<i64>, Seq<char>, Seq<char>),
> {
    match spec_drive_result(s) {
        Some(p) => Some(p),
        None => {
            let fe = spec_file_run_end(s, 0);
            if fe >= 1 {
                spec_parse_after(s, fe)
            } else {
                None
            }
        },
    }
}

/// A run of path characters bounded by a non-path character ends exactly
/// at the bound.
proof fn lemma_file_run_forced(s: Seq<char>, a: int, b: int)
    requires
        0 <= a <= b < s.len(),
        forall|i: int| a <= i < b ==> spec_is_file_char(#[trigger] s[i]),
        !spec_is_file_char(s[b]),
    ensures
        spec_file_run_end(s, a) == b,
    decreases b - a,
{
    if a < b {
        lemma_file_run_forced(s, a + 1, b);
    }
}

/// A run of digits bounded by a non-digit ends exactly at the bound.
proof fn lemma_digit_run_forced(s: Seq<char>, a: int, b: int)
    requires
        0 <= a <= b < s.len(),
        forall|i: int| a <= i < b ==> spec_is_digit(#[trigger] s[i]),
        !spec_is_digit(s[b]),
    ensures
        spec_digit_run_end(s, a) == b,
    decreases b - a,
{
    if a < b {
        lemma_digit_run_forced(s, a + 1, b);
    }
}

/// A run of whitespace bounded by a non-whitespace character ends exactly
/// at the bound.
proof fn lemma_ws_run_forced(s: Seq<char>, a: int, b: int)
    requires
        0 <= a <= b < s.len(),
        forall|i: int| a <= i < b ==> spec_is_ws(#[trigger] s[i]),
        !spec_is_ws(s[b]),
    ensures
        spec_ws_run_end(s, a) == b,
    decreases b - a,
{
    if a < b {
        lemma_ws_run_forced(s, a + 1, b);
    }
}

/// A whitespace scan neither moves backwards nor leaves the line.
proof fn lemma_ws_run_bounds(s: Seq<char>, p: int)
    requires
        0 <= p <= s.len(),
    ensures
        p <= spec_ws_run_end(s, p) <= s.len(),
    decreases s.len() - p,
{
    if p < s.len() && spec_is_ws(s[p]) {
        lemma_ws_run_bounds(s, p + 1);
    }
}

/// A whitespace scan runs at least to the end of any whitespace run.
proof fn lemma_ws_run_lower(s: Seq<char>, a: int, b: int)
    requires
        0 <= a <= b <= s.len(),
        forall|i: int| a <= i < b ==> spec_is_ws(#[trigger] s[i]),
    ensures
        spec_ws_run_end(s, a) >= b,
    decreases b - a,
{
    if a < b {
        lemma_ws_run_lower(s, a + 1, b);
    } else {
        lemma_ws_run_bounds(s, a);
    }
}

/// A colon scan over a colon-free stretch finds exactly the bounding
/// colon.
proof fn lemma_colon_pos_forced(s: Seq<char>, a: int, b: int)
    requires
        0 <= a <= b < s.len(),
        forall|i: int| a <= i < b ==> (#[trigger] s[i]) != ':',
        s[b] == ':',
    ensures
        spec_colon_pos(s, a) == b,
    decreases b - a,
{
    if a < b {
        lemma_colon_pos_forced(s, a + 1, b);
    }
}

/// A level keyword is nonempty, starts with a letter, and holds no colon.
proof fn lemma_keyword_chars(k: Seq<char>)
    requires
        spec_level_word(k),
    ensures
        k.len() > 0,
        !spec_is_ws(k[0]),
        forall|j: int| 0 <= j < k.len() ==> (#[trigger] k[j]) != ':',
{
    reveal_strlit("error");
    reveal_strlit("warning");
    reveal_strlit("info");
    reveal_strlit("note");
    assert("error"@ =~= seq!['e', 'r', 'r', 'o', 'r']);
    assert("warning"@ =~= seq!['w', 'a', 'r', 'n', 'i', 'n', 'g']);
    assert("info"@ =~= seq!['i', 'n', 'f', 'o']);
    assert("note"@ =~= seq!['n', 'o', 't', 'e']);
}

/// The rest of a line that decomposes at the given positions parses: each
/// scan of the parser is forced to the positions of the decomposition.
proof fn lemma_split_after_parses(
    s: Seq<char>,
    fe: int,
    d1e: int,
    d2e: int,
    w1e: int,
    lve: int,
    w2e: int,
)
    requires
        spec_line_split(s, fe, d1e, d2e, w1e, lve, w2e),
    ensures
        spec_parse_after(s, fe) is Some,
{
    lemma_digit_run_forced(s, fe + 1, d1e);
    lemma_digit_run_forced(s, d1e + 1, d2e);
    let k = s.subrange(w1e, lve);
    lemma_keyword_chars(k);
    assert(s[w1e] == k[0]);
    lemma_ws_run_forced(s, d2e + 1, w1e);
    assert forall|i: int| w1e <= i < lve implies (#[trigger] s[i]) != ':' by {
        assert(s[i] == k[i - w1e]);
    }
    lemma_colon_pos_forced(s, w1e, lve);
    lemma_ws_run_lower(s, lve + 1, w2e);
}

/// A line that decomposes per the grammar parses: the drive-prefixed or
/// plain reading of its path is forced to the decomposition's positions,
/// and the rest follows.
pub proof fn lemma_grammar_line_parses(
    s: Seq<char>,
    fe: int,
    d1e: int,
    d2e: int,
    w1e: int,
    lve: int,
    w2e: int,
)
    requires
        spec_line_split(s, fe, d1e, d2e, w1e, lve, w2e),
    ensures
        spec_parse_line(s) is Some,
{
    assert(!spec_is_file_char(s[fe]));
    if 3 <= fe <= s.len() && spec_is_alpha(s[0]) && s[1] == ':' && (forall|i: int|
        2 <= i < fe ==> spec_is_file_char(#[trigger] s[i])) {
        // the drive-prefixed reading uses exactly this path
        lemma_file_run_forced(s, 2, fe);
        lemma_split_after_parses(s, fe, d1e, d2e, w1e, lve, w2e);
    } else {
        // the path must be a plain run of path characters
        assert(1 <= fe && forall|i: int| 0 <= i < fe ==> spec_is_file_char(#[trigger] s[i]));
        match spec_drive_result(s) {
            Some(_) => {},
            None => {
                if s.len() >= 2 && spec_is_alpha(s[0]) && s[1] == ':' {
                    // a colon stops the plain path after one character
                    assert(fe == 1) by {
                        if fe >= 2 {
                            assert(spec_is_file_char(s[1]));
                        }
                    }
                    lemma_file_run_forced(s, 0, 1);
                } else {
                    lemma_file_run_forced(s, 0, fe);
                }
                lemma_split_after_parses(s, fe, d1e, d2e, w1e, lve, w2e);
            },
        }
    }
}

/// Whether a parsed line carries exactly the parts of a decomposition:
/// the path, the two positions (absent on overflow), the level keyword
/// and the message.
pub open spec fn spec_parts_read(
    res: ClangTidyResult,
    p: (Seq<char>, Option<i64>, Option<i64>, Seq<char>, Seq<char>),
) -> bool {
    &&& res.file is Some
    &&& res.file->0@ == p.0
    &&& res.line == p.1
    &&& res.column == p.2
    &&& res.level@ == p.3
    &&& res.message@ == p.4
    &&& res.rules@.len() == 0
}

/// Parses one diagnostic line of the shape
/// `file:line:column: level: message`.
///
/// The result is exactly what [`spec_parse_line`] yields on the line: a
/// line yields a diagnostic when and only when the parse does, and the
/// diagnostic carries its parts. Every line that decomposes per
/// [`spec_line_split`] parses ([`lemma_grammar_line_parses`]), and a
/// parsed line decomposes at some such positions; lines of any other
/// shape yield nothing.
pub fn parse_clang_tidy_line(s: &str) -> (r: Option<ClangTidyResult>)
    ensures
        match r {
            Some(res) => {
                &&& spec_parse_line(s@) is Some
                &&& spec_parts_read(res, spec_parse_line(s@)->0)
                &&& exists|fe: int, d1e: int, d2e: int, w1e: int, lve: int, w2e: int|
                    {
                        &&& #[trigger] spec_line_split(s@, fe, d1e, d2e, w1e, lve, w2e)
                        &&& res.file->0@ == s@.subrange(0, fe)
                        &&& res.line == spec_opt_num(s@.subrange(fe + 1, d1e))
                        &&& res.column == spec_opt_num(s@.subrange(d1e + 1, d2e))
                        &&& res.level@ == s@.subrange(w1e, lve)
                        &&& res.message@ == s@.subrange(w2e, s@.len() as int)
                    }
            },
            None => spec_parse_line(s@) is None && forall|
                fe: int,
                d1e: int,
                d2e: int,
                w1e: int,
                lve: int,
                w2e: int,
            |
                !#[trigger] spec_line_split(s@, fe, d1e, d2e, w1e, lve, w2e),
        },
{
    let n = s.unicode_len();
    // Prefer the drive-prefixed reading of the path, as the line grammar
    // does; fall back to the plain reading.
    if n >= 2 && is_alpha(s.get_char(0)) && s.get_char(1) == ':' {
        let mut fe: usize = 2;
        while fe < n && is_file_char(s.get_char(fe))
            invariant
                2 <= fe <= n,
                n == s@.len(),
                forall|i: int| 2 <= i < fe ==> spec_is_file_char(#[trigger] s@[i]),
                spec_is_alpha(s@[0]),
                s@[1] == ':',
                spec_file_run_end(s@, 2) == spec_file_run_end(s@, fe as int),
            decreases n - fe,
        {
            fe = fe + 1;
        }
        proof {
            assert(spec_file_run_end(s@, 2) == fe as int);
        }
        if fe >= 3 {
            match parse_after_file(s, fe) {
                Some(res) => {
                    return Some(res);
                },
                None => {},
            }
        }
    }
    proof {
        assert(spec_drive_result(s@) is None);
    }
    let mut fe: usize = 0;
    while fe < n && is_file_char(s.get_char(fe))
        invariant
            fe <= n,
            n == s@.len(),
            forall|i: int| 0 <= i < fe ==> spec_is_file_char(#[trigger] s@[i]),
            spec_file_run_end(s@, 0) == spec_file_run_end(s@, fe as int),
            spec_drive_result(s@) is None,
        decreases n - fe,
    {
        fe = fe + 1;
    }
    proof {
        assert(spec_file_run_end(s@, 0) == fe as int);
    }
    let r = if fe >= 1 {
        parse_after_file(s, fe)
    } else {
        None
    };
    proof {
        if r is None {
            assert forall|fe2: int, d1e: int, d2e: int, w1e: int, lve: int, w2e: int|
                !#[trigger] spec_line_split(s@, fe2, d1e, d2e, w1e, lve, w2e) by {
                if spec_line_split(s@, fe2, d1e, d2e, w1e, lve, w2e) {
                    lemma_grammar_line_parses(s@, fe2, d1e, d2e, w1e, lve, w2e);
                }
            }
        }
    }
    r
}

/// Whether the character is a decimal digit.
fn is_digit(c: char) -> (r: bool)
    ensures
        r == spec_is_digit(c),
{
    let u = c as u32;
    48 <= u && u <= 57
}

/// Whether the character is a space or a tab.
fn is_ws(c: char) -> (r: bool)
    ensures
        r == spec_is_ws(c),
{
    let u = c as u32;
    u == 32 || u == 9
}

/// Whether the character is an ASCII letter.
fn is_alpha(c: char) -> (r: bool)
    ensures
        r == spec_is_alpha(c),
{
    let u = c as u32;
    (65 <= u && u <= 90) || (97 <= u && u <= 122)
}

/// Whether the character may appear in a path.
fn is_file_char(c: char) -> (r: bool)
    ensures
        r == spec_is_file_char(c),
{
    let u = c as u32;
    is_digit(c) || is_alpha(c) || u == 95 || u == 47 || u == 46 || u == 45 || u == 32 || u == 92
}

/// The value of the digit run `s[from..to)`, when it fits.
fn digits_value(s: &str, from: usize, to: usize) -> (r: Option<i64>)
    requires
        from <= to <= s@.len(),
        forall|i: int| from <= i < to ==> spec_is_digit(#[trigger] s@[i]),
    ensures
        r == spec_opt_num(s@.subrange(from as int, to as int)),
{
    let mut val: Option<i64> = Some(0);
    let mut q: usize = from;
    proof {
        assert(s@.subrange(from as int, from as int) =~= Seq::<char>::empty());
    }
    while q < to
        invariant
            from <= q <= to <= s@.len(),
            forall|i: int| from <= i < to ==> spec_is_digit(#[trigger] s@[i]),
            val == spec_opt_num(s@.subrange(from as int, q as int)),
            match val {
                Some(v) => v >= 0,
                None => true,
            },
        decreases to - q,
    {
        let c = s.get_char(q);
        let d = (c as u32 - 48) as i64;
        proof {
            assert(spec_is_digit(s@[q as int]));
            assert(s@.subrange(from as int, q + 1) =~= s@.subrange(from as int, q as int).push(
                s@[q as int],
            ));
            assert(s@.subrange(from as int, q + 1).drop_last() =~= s@.subrange(
                from as int,
                q as int,
            ));
            assert(forall|i: int| 0 <= i < q - from ==> spec_is_digit(
                #[trigger] s@.subrange(from as int, q as int)[i],
            ));
            lemma_digits_nonneg(s@.subrange(from as int, q as int));
        }
        val = match val {
            Some(v) => {
                if v > (i64::MAX - d) / 10 {
                    proof {
                        assert(v * 10 + d > i64::MAX) by (nonlinear_arith)
                            requires
                                v >= (i64::MAX - d) / 10 + 1,
                                0 <= d <= 9,
                                0 <= v,
                        ;
                    }
                    None
                } else {
                    proof {
                        assert(v * 10 + d <= i64::MAX) by (nonlinear_arith)
                            requires
                                v <= (i64::MAX - d) / 10,
                                0 <= d <= 9,
                                0 <= v,
                        ;
                    }
                    Some(v * 10 + d)
                }
            },
            None => {
                proof {
                    let old_v = spec_digits_value(s@.subrange(from as int, q as int));
                    assert(old_v * 10 + d > i64::MAX) by (nonlinear_arith)
                        requires
                            old_v > i64::MAX,
                            d >= 0,
                    ;
                }
                None
            },
        };
        q = q + 1;
    }
    proof {
        assert(s@.subrange(from as int, to as int) == s@.subrange(from as int, q as int));
    }
    val
}

/// Parses the rest of a line after its path, `fe` marking the path's end.
fn parse_after_file(s: &str, fe: usize) -> (r: Option<ClangTidyResult>)
    requires
        spec_file_shape(s@, fe as int),
    ensures
        match r {
            Some(res) => {
                &&& spec_parse_after(s@, fe as int) is Some
                &&& spec_parts_read(res, spec_parse_after(s@, fe as int)->0)
                &&& exists|d1e: int, d2e: int, w1e: int, lve: int, w2e: int|
                    {
                        &&& #[trigger] spec_line_split(s@, fe as int, d1e, d2e, w1e, lve, w2e)
                        &&& res.file->0@ == s@.subrange(0, fe as int)
                        &&& res.line == spec_opt_num(s@.subrange(fe as int + 1, d1e))
                        &&& res.column == spec_opt_num(s@.subrange(d1e + 1, d2e))
                        &&& res.level@ == s@.subrange(w1e, lve)
                        &&& res.message@ == s@.subrange(w2e, s@.len() as int)
                    }
            },
            None => spec_parse_after(s@, fe as int) is None,
        },
{
    let n = s.unicode_len();
    if fe >= n || s.get_char(fe) != ':' {
        return None;
    }
    // first digit run
    let d1s = fe + 1;
    let mut d1e: usize = d1s;
    while d1e < n && is_digit(s.get_char(d1e))
        invariant
            d1s <= d1e <= n,
            n == s@.len(),
            d1s == fe + 1,
            fe < n,
            s@[fe as int] == ':',
            forall|i: int| d1s <= i < d1e ==> spec_is_digit(#[trigger] s@[i]),
            spec_digit_run_end(s@, d1s as int) == spec_digit_run_end(s@, d1e as int),
        decreases n - d1e,
    {
        d1e = d1e + 1;
    }
    proof {
        assert(spec_digit_run_end(s@, d1s as int) == d1e as int);
    }
    if d1e == d1s || d1e >= n || s.get_char(d1e) != ':' {
        return None;
    }
    // second digit run
    let d2s = d1e + 1;
    let mut d2e: usize = d2s;
    while d2e < n && is_digit(s.get_char(d2e))
        invariant
            d2s <= d2e <= n,
            n == s@.len(),
            d1s == fe + 1,
            d2s == d1e + 1,
            fe < n,
            s@[fe as int] == ':',
            d1s < d1e,
            d1e < n,
            s@[d1e as int] == ':',
            spec_digit_run_end(s@, d1s as int) == d1e as int,
            forall|i: int| d2s <= i < d2e ==> spec_is_digit(#[trigger] s@[i]),
            spec_digit_run_end(s@, d2s as int) == spec_digit_run_end(s@, d2e as int),
        decreases n - d2e,
    {
        d2e = d2e + 1;
    }
    proof {
        assert(spec_digit_run_end(s@, d2s as int) == d2e as int);
    }
    if d2e == d2s || d2e >= n || s.get_char(d2e) != ':' {
        return None;
    }
    // whitespace before the level
    let w1s = d2e + 1;
    let mut w1e: usize = w1s;
    while w1e < n && is_ws(s.get_char(w1e))
        invariant
            w1s <= w1e <= n,
            n == s@.len(),
            d1s == fe + 1,
            d2s == d1e + 1,
            w1s == d2e + 1,
            fe < n,
            s@[fe as int] == ':',
            d1s < d1e,
            d1e < n,
            s@[d1e as int] == ':',
            d2s < d2e,
            d2e < n,
            s@[d2e as int] == ':',
            spec_digit_run_end(s@, d1s as int) == d1e as int,
            spec_digit_run_end(s@, d2s as int) == d2e as int,
            forall|i: int| w1s <= i < w1e ==> spec_is_ws(#[trigger] s@[i]),
            spec_ws_run_end(s@, w1s as int) == spec_ws_run_end(s@, w1e as int),
        decreases n - w1e,
    {
        w1e = w1e + 1;
    }
    proof {
        assert(spec_ws_run_end(s@, w1s as int) == w1e as int);
    }
    if w1e == w1s {
        return None;
    }
    // the level keyword runs to the next colon
    let mut lve: usize = w1e;
    while lve < n && s.get_char(lve) != ':'
        invariant
            w1e <= lve <= n,
            n == s@.len(),
            d1s == fe + 1,
            d2s == d1e + 1,
            w1s == d2e + 1,
            fe < n,
            s@[fe as int] == ':',
            d1s < d1e,
            d1e < n,
            s@[d1e as int] == ':',
            d2s < d2e,
            d2e < n,
            s@[d2e as int] == ':',
            w1s < w1e,
            spec_digit_run_end(s@, d1s as int) == d1e as int,
            spec_digit_run_end(s@, d2s as int) == d2e as int,
            spec_ws_run_end(s@, w1s as int) == w1e as int,
            spec_colon_pos(s@, w1e as int) == spec_colon_pos(s@, lve as int),
        decreases n - lve,
    {
        lve = lve + 1;
    }
    proof {
        assert(spec_colon_pos(s@, w1e as int) == lve as int);
    }
    if lve >= n || lve == w1e {
        return None;
    }
    let level = s.substring_char(w1e, lve);
    if !(str_eq(level, "error") || str_eq(level, "warning") || str_eq(level, "info") || str_eq(
        level,
        "note",
    )) {
        return None;
    }
    // whitespace before the message; when only whitespace remains, its
    // last character is the message
    let r0 = lve + 1;
    let mut w2e: usize = r0;
    while w2e < n && is_ws(s.get_char(w2e))
        invariant
            r0 <= w2e <= n,
            n == s@.len(),
            d1s == fe + 1,
            d2s == d1e + 1,
            w1s == d2e + 1,
            r0 == lve + 1,
            fe < n,
            s@[fe as int] == ':',
            d1s < d1e,
            d1e < n,
            s@[d1e as int] == ':',
            d2s < d2e,
            d2e < n,
            s@[d2e as int] == ':',
            w1s < w1e,
            w1e < lve,
            lve < n,
            s@[lve as int] == ':',
            spec_digit_run_end(s@, d1s as int) == d1e as int,
            spec_digit_run_end(s@, d2s as int) == d2e as int,
            spec_ws_run_end(s@, w1s as int) == w1e as int,
            spec_colon_pos(s@, w1e as int) == lve as int,
            spec_level_word(s@.subrange(w1e as int, lve as int)),
            forall|i: int| r0 <= i < w2e ==> spec_is_ws(#[trigger] s@[i]),
            spec_ws_run_end(s@, r0 as int) == spec_ws_run_end(s@, w2e as int),
        decreases n - w2e,
    {
        w2e = w2e + 1;
    }
    proof {
        assert(spec_ws_run_end(s@, r0 as int) == w2e as int);
    }
    if w2e == r0 {
        return None;
    }
    let msg_start: usize = if w2e == n {
        if w2e - r0 >= 2 {
            n - 1
        } else {
            return None;
        }
    } else {
        w2e
    };
    let line = digits_value(s, d1s, d1e);
    let column = digits_value(s, d2s, d2e);
    let res = ClangTidyResult {
        file: Some(s.substring_char(0, fe).to_owned()),
        line,
        column,
        level: level.to_owned(),
        message: s.substring_char(msg_start, n).to_owned(),
        rules: String::new(),
    };
    proof {
        assert(spec_line_split(
            s@,
            fe as int,
            d1e as int,
            d2e as int,
            w1e as int,
            lve as int,
            msg_start as int,
        ));
    }
    Some(res)
}

/// Builds the location of a parsed line: its file, line and column, each
/// required; a `note` line carries its message on the location.
fn location_try_from(r: &ClangTidyResult) -> (loc: Result<Location, ClangTidyError>)
    ensures
        match loc {
            Ok(l) => {
                &&& r.file is Some && r.line is Some && r.column is Some
                &&& l.physical_location is Some
                &&& ({
                    let p = l.physical_location->0;
                    &&& p.artifact_location is Some
                    &&& p.artifact_location->0.uri is Some
                    &&& p.artifact_location->0.uri->0@ == r.file->0@
                    &&& p.artifact_location->0.uri_base_id is None
                    &&& p.region is Some
                    &&& p.region->0.start_line == r.line
                    &&& p.region->0.start_column == r.column
                    &&& p.region->0.byte_offset is None
                    &&& p.region->0.byte_length is None
                    &&& p.region->0.end_line is None
                    &&& p.region->0.end_column is None
                })
                &&& if r.level@ == "note"@ {
                    l.message is Some && l.message->0.text is Some && l.message->0.text->0@
                        == r.message@
                } else {
                    l.message is None
                }
            },
            Err(e) => {
                &&& (r.file is None || r.line is None || r.column is None)
                &&& e matches ClangTidyError::Uninitialized(f) && f@ == (if r.file is None {
                    "file"@
                } else if r.line is None {
                    "line"@
                } else {
                    "column"@
                })
            },
        },
{
    let uri = match &r.file {
        Some(f) => f.clone(),
        None => {
            return Err(ClangTidyError::Uninitialized("file"));
        },
    };
    let line = match &r.line {
        Some(l) => *l,
        None => {
            return Err(ClangTidyError::Uninitialized("line"));
        },
    };
    let column = match &r.column {
        Some(c) => *c,
        None => {
            return Err(ClangTidyError::Uninitialized("column"));
        },
    };
    let message: Option<Message> = if crate::text::string_eq_str(&r.level, "note") {
        Some(Message { text: Some(r.message.clone()), id: None })
    } else {
        None
    };
    Ok(
        Location {
            physical_location: Some(
                PhysicalLocation {
                    artifact_location: Some(
                        ArtifactLocation { uri: Some(uri), uri_base_id: None },
                    ),
                    region: Some(
                        Region {
                            byte_offset: None,
                            byte_length: None,
                            start_line: Some(line),
                            start_column: Some(column),
                            end_line: None,
                            end_column: None,
                        },
                    ),
                },
            ),
            message,
        },
    )
}

/// Whether a parsed line is a `note`.
pub open spec fn spec_is_note(r: ClangTidyResult) -> bool {
    r.level@ == "note"@
}

/// The end of the `note` run starting at `i`: the first position at or
/// after `i` that is not a `note`, or the end of the list.
pub open spec fn spec_note_run_end(rs: Seq<ClangTidyResult>, i: int) -> int
    decreases rs.len() - i,
{
    if i < 0 || i >= rs.len() {
        i
    } else if spec_is_note(rs[i]) {
        spec_note_run_end(rs, i + 1)
    } else {
        i
    }
}

/// A `note` run ends within the list, and everything inside it is a
/// `note`.
pub proof fn lemma_note_run_end(rs: Seq<ClangTidyResult>, i: int)
    requires
        0 <= i <= rs.len(),
    ensures
        i <= spec_note_run_end(rs, i) <= rs.len(),
        forall|k: int| i <= k < spec_note_run_end(rs, i) ==> spec_is_note(rs[k]),
    decreases rs.len() - i,
{
    if i < rs.len() && spec_is_note(rs[i]) {
        lemma_note_run_end(rs, i + 1);
    }
}

/// The positions of the parsed lines that lead a result: the first line,
/// and after each leader's `note` run the next line, to the end.
pub open spec fn spec_leaders_from(rs: Seq<ClangTidyResult>, i: int) -> Seq<int>
    decreases rs.len() - i,
    via spec_leaders_from_decreases
{
    if i < 0 || i >= rs.len() {
        Seq::empty()
    } else {
        seq![i] + spec_leaders_from(rs, spec_note_run_end(rs, i + 1))
    }
}

#[via_fn]
proof fn spec_leaders_from_decreases(rs: Seq<ClangTidyResult>, i: int) {
    if !(i < 0 || i >= rs.len()) {
        lemma_note_run_end(rs, i + 1);
    }
}

/// Whether a model location is the location of a parsed line, labeled by
/// the line's message when the line is a `note`.
pub open spec fn spec_ct_location(loc: Location, r: ClangTidyResult) -> bool {
    &&& r.file is Some && r.line is Some && r.column is Some
    &&& loc.physical_location is Some
    &&& ({
        let p = loc.physical_location->0;
        &&& p.artifact_location is Some
        &&& p.artifact_location->0.uri is Some
        &&& p.artifact_location->0.uri->0@ == r.file->0@
        &&& p.artifact_location->0.uri_base_id is None
        &&& p.region is Some
        &&& p.region->0.start_line == r.line
        &&& p.region->0.start_column == r.column
        &&& p.region->0.byte_offset is None
        &&& p.region->0.byte_length is None
        &&& p.region->0.end_line is None
        &&& p.region->0.end_column is None
    })
    &&& if spec_is_note(r) {
        loc.message is Some && loc.message->0.text is Some && loc.message->0.text->0@
            == r.message@
    } else {
        loc.message is None
    }
}

/// Whether a model result is the conversion of the leader at position `li`
/// and of the `note` run after it: the leader's message with its rule tag
/// appended, its level, its location, and one related location per `note`.
pub open spec fn spec_ct_result(out: SarifResult, rs: Seq<ClangTidyResult>, li: int) -> bool {
    &&& 0 <= li < rs.len()
    &&& out.rule_id is None && out.rule_index is None && out.rule is None
    &&& out.level is Some
    &&& match ResultLevel::spec_parse(rs[li].level@) {
        Some(lv) => out.level->0@ == lv.spec_str(),
        None => false,
    }
    &&& out.kind is None
    &&& out.message.text is Some && out.message.text->0@ == rs[li].message@ + " "@ + rs[li].rules@
    &&& out.message.id is None
    &&& out.locations is Some && out.locations->0@.len() == 1 && spec_ct_location(
        out.locations->0@[0],
        rs[li],
    )
    &&& ({
        let ne = spec_note_run_end(rs, li + 1);
        let n = ne - (li + 1);
        if n > 0 {
            &&& out.related_locations is Some
            &&& out.related_locations->0@.len() == n
            &&& forall|k: int|
                0 <= k < n ==> spec_ct_location(
                    #[trigger] out.related_locations->0@[k],
                    rs[li + 1 + k],
                )
        } else {
            out.related_locations is None
        }
    })
    &&& out.fixes is None
    &&& out.provenance is None
}

/// Whether a document is the conversion of a sequence of parsed lines:
/// one run named `clang-tidy` whose results are the groups that
/// [`spec_leaders_from`] cuts, in order.
pub open spec fn spec_converted(s: Sarif, rs: Seq<ClangTidyResult>) -> bool {
    let leaders = spec_leaders_from(rs, 0);
    &&& s.version@ == "2.1.0"@
    &&& s.runs@.len() == 1
    &&& ({
        let run = s.runs@[0];
        &&& run.tool.driver.name@ == "clang-tidy"@
        &&& run.tool.driver.information_uri is None
        &&& run.tool.driver.rules is None
        &&& run.tool.driver.global_message_strings is None
        &&& run.original_uri_base_ids is None
        &&& run.invocations is None
        &&& run.results is Some
        &&& run.results->0@.len() == leaders.len()
        &&& forall|k: int|
            0 <= k < leaders.len() ==> spec_ct_result(
                #[trigger] run.results->0@[k],
                rs,
                leaders[k],
            )
    })
}

/// Converts parsed diagnostic lines into an interchange document: one run
/// named `clang-tidy`; one result per line that leads a group, in order,
/// with the `note` lines that follow it attached as its related locations.
/// A line without file, line or column, or with a level the format lacks,
/// is fatal.
pub fn convert(rs: &Vec<ClangTidyResult>) -> (r: Result<Sarif, ClangTidyError>)
    ensures
        match r {
            Ok(s) => spec_converted(s, rs@),
            Err(e) => match e {
                ClangTidyError::Uninitialized(_) => exists|i: int|
                    0 <= i < rs@.len() && ((#[trigger] rs@[i]).file is None || rs@[i].line is None
                        || rs@[i].column is None),
                ClangTidyError::UnknownLevel => exists|i: int|
                    0 <= i < rs@.len() && ResultLevel::spec_parse(
                        (#[trigger] rs@[i]).level@,
                    ) is None,
            },
        },
{
    let ghost full = spec_leaders_from(rs@, 0);
    let ghost mut done: Seq<int> = Seq::empty();
    let mut results: Vec<SarifResult> = Vec::new();
    let mut i: usize = 0;
    proof {
        assert(done + spec_leaders_from(rs@, 0) =~= full);
    }
    while i < rs.len()
        invariant
            i <= rs.len(),
            full == spec_leaders_from(rs@, 0),
            done + spec_leaders_from(rs@, i as int) =~= full,
            results@.len() == done.len(),
            forall|k: int|
                0 <= k < done.len() ==> spec_ct_result(#[trigger] results@[k], rs@, done[k]),
        decreases rs.len() - i,
    {
        let leader = &rs[i];
        let location = match location_try_from(leader) {
            Ok(l) => l,
            Err(e) => {
                return Err(e);
            },
        };
        let message = leader.message.clone().concat(" ").concat(leader.rules.as_str());
        let level = match ResultLevel::parse_str(leader.level.as_str()) {
            Some(l) => l,
            None => {
                return Err(ClangTidyError::UnknownLevel);
            },
        };
        let mut related: Vec<Location> = Vec::new();
        let mut j: usize = i + 1;
        while j < rs.len() && crate::text::string_eq_str(&rs[j].level, "note")
            invariant
                i < j <= rs.len(),
                i < rs.len(),
                spec_note_run_end(rs@, i as int + 1) == spec_note_run_end(rs@, j as int),
                related@.len() == j - (i + 1),
                forall|k: int|
                    0 <= k < related@.len() ==> spec_ct_location(
                        #[trigger] related@[k],
                        rs@[i + 1 + k],
                    ),
            decreases rs.len() - j,
        {
            match location_try_from(&rs[j]) {
                Ok(l) => related.push(l),
                Err(e) => {
                    return Err(e);
                },
            }
            j = j + 1;
        }
        proof {
            assert(spec_note_run_end(rs@, j as int) == j as int);
            assert(spec_note_run_end(rs@, i as int + 1) == j as int);
        }
        let mut locations: Vec<Location> = Vec::new();
        locations.push(location);
        results.push(
            SarifResult {
                rule_id: None,
                rule_index: None,
                rule: None,
                level: Some(String::from_str(level.as_str())),
                kind: None,
                message: Message { text: Some(message), id: None },
                locations: Some(locations),
                related_locations: if related.len() > 0 {
                    Some(related)
                } else {
                    None
                },
                fixes: None,
                provenance: None,
            },
        );
        proof {
            let li = i as int;
            assert(spec_leaders_from(rs@, li) == seq![li] + spec_leaders_from(rs@, j as int));
            assert(done.push(li) + spec_leaders_from(rs@, j as int) =~= done + (seq![li]
                + spec_leaders_from(rs@, j as int)));
            done = done.push(li);
        }
        i = j;
    }
    proof {
        assert(done =~= full);
    }
    let driver = ToolComponent {
        name: String::from_str("clang-tidy"),
        information_uri: None,
        rules: None,
        global_message_strings: None,
    };
    let run = Run {
        tool: Tool { driver },
        results: Some(results),
        original_uri_base_ids: None,
        invocations: None,
    };
    let mut runs: Vec<Run> = Vec::new();
    runs.push(run);
    Ok(Sarif { version: String::from_str("2.1.0"), runs })
}

/// The parts of the lines that parse as diagnostics, scanning from `i`,
/// in order.
pub open spec fn spec_parsed_from(lines: Seq<String>, i: int) -> Seq<
    (Seq<char>, Option<i64>, Option<i64>, Seq<char>, Seq<char>),
>
    decreases lines.len() - i,
{
    if i < 0 || i >= lines.len() {
        Seq::empty()
    } else {
        let rest = spec_parsed_from(lines, i + 1);
        match spec_parse_line(lines[i]@) {
            Some(p) => seq![p] + rest,
            None => rest,
        }
    }
}

/// Whether parsed lines carry, pointwise, the parts that the lines parse
/// to.
pub open spec fn spec_lines_read(
    rs: Seq<ClangTidyResult>,
    lines: Seq<String>,
) -> bool {
    let parts = spec_parsed_from(lines, 0);
    &&& rs.len() == parts.len()
    &&& forall|k: int| 0 <= k < parts.len() ==> spec_parts_read(rs[k], #[trigger] parts[k])
}

/// Converts the diagnostic lines of a clang-tidy run into an interchange
/// document: the lines that parse as diagnostics (the others are skipped)
/// are grouped and converted as [`convert`] states.
pub fn process(lines: &Vec<String>) -> (r: Result<Sarif, ClangTidyError>)
    ensures
        match r {
            Ok(s) => exists|rs: Seq<ClangTidyResult>|
                #[trigger] spec_converted(s, rs) && spec_lines_read(rs, lines@),
            Err(e) => exists|rs: Seq<ClangTidyResult>|
                #[trigger] spec_lines_read(rs, lines@) && match e {
                    ClangTidyError::Uninitialized(_) => exists|i: int|
                        0 <= i < rs.len() && ((#[trigger] rs[i]).file is None || rs[i].line
                            is None || rs[i].column is None),
                    ClangTidyError::UnknownLevel => exists|i: int|
                        0 <= i < rs.len() && ResultLevel::spec_parse(
                            (#[trigger] rs[i]).level@,
                        ) is None,
                },
        },
{
    let ghost full = spec_parsed_from(lines@, 0);
    let ghost mut done: Seq<(Seq<char>, Option<i64>, Option<i64>, Seq<char>, Seq<char>)> =
        Seq::empty();
    let mut rs: Vec<ClangTidyResult> = Vec::new();
    let mut i: usize = 0;
    proof {
        assert(done + spec_parsed_from(lines@, 0) =~= full);
    }
    while i < lines.len()
        invariant
            i <= lines@.len(),
            full == spec_parsed_from(lines@, 0),
            done + spec_parsed_from(lines@, i as int) =~= full,
            rs@.len() == done.len(),
            forall|k: int| 0 <= k < done.len() ==> spec_parts_read(rs@[k], #[trigger] done[k]),
        decreases lines@.len() - i,
    {
        match parse_clang_tidy_line(lines[i].as_str()) {
            Some(res) => {
                let ghost p = spec_parse_line(lines@[i as int]@)->0;
                proof {
                    assert(spec_parsed_from(lines@, i as int) == seq![p] + spec_parsed_from(
                        lines@,
                        i as int + 1,
                    ));
                    assert(done.push(p) + spec_parsed_from(lines@, i as int + 1) =~= done + (
                    seq![p] + spec_parsed_from(lines@, i as int + 1)));
                    done = done.push(p);
                }
                rs.push(res);
            },
            None => {},
        }
        i = i + 1;
    }
    let r = convert(&rs);
    proof {
        match r {
            Ok(ref s) => {
                assert(spec_converted(*s, rs@) && spec_lines_read(rs@, lines@));
            },
            Err(_) => {
                assert(spec_lines_read(rs@, lines@));
            },
        }
    }
    r
}

} // verus!
