//! A converter for cargo-deny output: turns the tool's JSON-lines
//! diagnostics into an interchange document of the model.
//!
//! Each input line is one JSON object describing a diagnostic: its type,
//! message, optional severity, and optional package, advisory and code
//! records. Lines that are blank or not a diagnostic are skipped. The
//! converter builds one run, named `cargo-deny`, with one rule per distinct
//! rule id (the code, else the advisory id, else the type) and one result
//! per diagnostic, all pointing at the manifest's first line.

use vstd::prelude::*;
use vstd::string::{StrSliceExecFns, StringExecFns};
use crate::sarif::{
    ArtifactLocation, Location, Message, MultiformatMessageString, PhysicalLocation, Region,
    ReportingDescriptor, ResultLevel, Run, Sarif, SarifResult, Tool, ToolComponent,
};
use crate::text::{str_eq, string_eq};

verus! {

/// A package record of a diagnostic.
pub struct DenyPackage {
    pub name: String,
    pub version: String,
    pub source: Option<String>,
}

/// An advisory record of a diagnostic.
pub struct DenyAdvisory {
    pub id: String,
    pub title: String,
    pub description: Option<String>,
    pub url: Option<String>,
}

/// One diagnostic of the tool's JSON-lines output.
pub struct DenyDiagnostic {
    pub diagnostic_type: String,
    pub message: String,
    pub severity: Option<String>,
    pub package: Option<DenyPackage>,
    pub advisory: Option<DenyAdvisory>,
    pub code: Option<String>,
}

/// The severity of a diagnostic, mapped into the closed severity set.
pub open spec fn spec_deny_level(s: Seq<char>) -> Option<ResultLevel> {
    if s == "error"@ {
        Some(ResultLevel::Error)
    } else if s == "warning"@ {
        Some(ResultLevel::Warning)
    } else if s == "note"@ {
        Some(ResultLevel::Note)
    } else {
        None
    }
}

/// Maps a severity string into the closed severity set.
pub fn deny_level(s: &String) -> (r: Option<ResultLevel>)
    ensures
        r == spec_deny_level(s@),
{
    if str_eq(s.as_str(), "error") {
        Some(ResultLevel::Error)
    } else if str_eq(s.as_str(), "warning") {
        Some(ResultLevel::Warning)
    } else if str_eq(s.as_str(), "note") {
        Some(ResultLevel::Note)
    } else {
        None
    }
}

/// The effective level of a diagnostic: its severity when it parses, else
/// `warning`.
pub open spec fn spec_deny_effective_level(d: DenyDiagnostic) -> ResultLevel {
    match d.severity {
        Some(s) => match spec_deny_level(s@) {
            Some(lv) => lv,
            None => ResultLevel::Warning,
        },
        None => ResultLevel::Warning,
    }
}

/// The rule id of a diagnostic: its code, else its advisory's id, else its
/// type.
pub open spec fn spec_deny_rule_id(d: DenyDiagnostic) -> Seq<char> {
    match d.code {
        Some(c) => c@,
        None => match d.advisory {
            Some(a) => a.id@,
            None => d.diagnostic_type@,
        },
    }
}

/// Reads the rule id out of a diagnostic.
fn deny_rule_id(d: &DenyDiagnostic) -> (r: String)
    ensures
        r@ == spec_deny_rule_id(*d),
{
    match &d.code {
        Some(c) => c.clone(),
        None => match &d.advisory {
            Some(a) => a.id.clone(),
            None => d.diagnostic_type.clone(),
        },
    }
}

/// The distinct rule ids of the diagnostics, in order of first appearance,
/// scanning from `i` with the ids `acc` already collected.
pub open spec fn spec_deny_ids_from(ds: Seq<DenyDiagnostic>, i: int, acc: Seq<Seq<char>>) -> Seq<
    Seq<char>,
>
    decreases ds.len() - i,
{
    if i < 0 || i >= ds.len() {
        acc
    } else if acc.contains(spec_deny_rule_id(ds[i])) {
        spec_deny_ids_from(ds, i + 1, acc)
    } else {
        spec_deny_ids_from(ds, i + 1, acc.push(spec_deny_rule_id(ds[i])))
    }
}

/// The rule catalog only grows while scanning: what was collected stays,
/// in place.
proof fn lemma_deny_ids_prefix(ds: Seq<DenyDiagnostic>, i: int, acc: Seq<Seq<char>>)
    ensures
        acc.len() <= spec_deny_ids_from(ds, i, acc).len(),
        forall|k: int| 0 <= k < acc.len() ==> spec_deny_ids_from(ds, i, acc)[k] == acc[k],
    decreases ds.len() - i,
{
    if !(i < 0 || i >= ds.len()) {
        if acc.contains(spec_deny_rule_id(ds[i])) {
            lemma_deny_ids_prefix(ds, i + 1, acc);
        } else {
            let pushed = acc.push(spec_deny_rule_id(ds[i]));
            lemma_deny_ids_prefix(ds, i + 1, pushed);
            assert(spec_deny_ids_from(ds, i, acc) == spec_deny_ids_from(ds, i + 1, pushed));
            assert forall|k: int| 0 <= k < acc.len() implies spec_deny_ids_from(ds, i, acc)[k]
                == acc[k] by {
                assert(spec_deny_ids_from(ds, i + 1, pushed)[k] == pushed[k]);
                assert(pushed[k] == acc[k]);
            }
        }
    }
}

/// The position of the first occurrence of a rule id in the catalog,
/// scanning from `from`.
pub open spec fn spec_deny_id_index_from(ids: Seq<Seq<char>>, c: Seq<char>, from: int) -> Option<
    int,
>
    decreases ids.len() - from,
{
    if from < 0 || from >= ids.len() {
        None
    } else if ids[from] == c {
        Some(from)
    } else {
        spec_deny_id_index_from(ids, c, from + 1)
    }
}

/// A position holding the id, with none before it, is what the
/// first-occurrence scan finds.
proof fn lemma_deny_id_index_unique(ids: Seq<Seq<char>>, c: Seq<char>, ix: int, from: int)
    requires
        0 <= from <= ix < ids.len(),
        ids[ix] == c,
        forall|k: int| 0 <= k < ix ==> ids[k] != c,
    ensures
        spec_deny_id_index_from(ids, c, from) == Some(ix),
    decreases ix - from,
{
    if from < ix {
        lemma_deny_id_index_unique(ids, c, ix, from + 1);
    }
}

/// The help page of a diagnostic's rule: the advisory's URL when it gives
/// one, else the advisory database for advisories, else the tool's book.
pub open spec fn spec_deny_help_uri(d: DenyDiagnostic) -> Seq<char> {
    match d.advisory {
        Some(a) => match a.url {
            Some(u) => u@,
            None => spec_deny_default_help(d),
        },
        None => spec_deny_default_help(d),
    }
}

/// The help page used when the advisory names none.
pub open spec fn spec_deny_default_help(d: DenyDiagnostic) -> Seq<char> {
    if d.diagnostic_type@ == "advisory"@ {
        "https://rustsec.org/"@
    } else {
        "https://embarkstudios.github.io/cargo-deny/"@
    }
}

/// The description of a diagnostic's rule: the advisory's title when there
/// is one, else the diagnostic's own message.
pub open spec fn spec_deny_rule_description(d: DenyDiagnostic) -> Seq<char> {
    match d.advisory {
        Some(a) => a.title@,
        None => d.message@,
    }
}

/// The message of a result: the diagnostic's message, with the package
/// name and version appended when a package record is present.
pub open spec fn spec_deny_message(d: DenyDiagnostic) -> Seq<char> {
    match d.package {
        Some(p) => d.message@ + " (package: "@ + p.name@ + " "@ + p.version@ + ")"@,
        None => d.message@,
    }
}

/// Whether a rule of the built catalog describes the diagnostic that first
/// carried its id.
pub open spec fn spec_deny_rule(rule: ReportingDescriptor, d: DenyDiagnostic) -> bool {
    &&& rule.id@ == spec_deny_rule_id(d)
    &&& rule.name is Some && rule.name->0@ == spec_deny_rule_id(d)
    &&& rule.short_description is Some && rule.short_description->0.text@
        == spec_deny_rule_description(d)
    &&& rule.help_uri is Some && rule.help_uri->0@ == spec_deny_help_uri(d)
    &&& rule.full_description is None
    &&& rule.default_configuration is None
    &&& rule.message_strings is None
}

/// Whether a model location points at the first line of the manifest.
pub open spec fn spec_deny_location(loc: Location) -> bool {
    &&& loc.message is None
    &&& loc.physical_location is Some
    &&& ({
        let p = loc.physical_location->0;
        &&& p.artifact_location is Some
        &&& p.artifact_location->0.uri is Some
        &&& p.artifact_location->0.uri->0@ == "Cargo.toml"@
        &&& p.artifact_location->0.uri_base_id is None
        &&& p.region is Some
        &&& p.region->0.start_line == Some(1i64)
        &&& p.region->0.start_column == Some(1i64)
        &&& p.region->0.byte_offset is None
        &&& p.region->0.byte_length is None
        &&& p.region->0.end_line is None
        &&& p.region->0.end_column is None
    })
}

/// Whether a model result is the conversion of a diagnostic against the
/// catalog `ids`.
pub open spec fn spec_deny_result(out: SarifResult, d: DenyDiagnostic, ids: Seq<Seq<char>>) -> bool {
    &&& out.rule_id is Some && out.rule_id->0@ == spec_deny_rule_id(d)
    &&& out.rule_index is Some
    &&& match spec_deny_id_index_from(ids, spec_deny_rule_id(d), 0) {
        Some(ix) => ix <= i64::MAX as int ==> out.rule_index->0 as int == ix,
        None => false,
    }
    &&& out.rule is None
    &&& out.level is Some && out.level->0@ == spec_deny_effective_level(d).spec_str()
    &&& out.kind is None
    &&& out.message.text is Some && out.message.text->0@ == spec_deny_message(d)
    &&& out.message.id is None
    &&& out.locations is Some && out.locations->0@.len() == 1 && spec_deny_location(
        out.locations->0@[0],
    )
    &&& out.related_locations is None
    &&& out.provenance is None
}

/// Builds the manifest location every result points at.
fn deny_location() -> (loc: Location)
    ensures
        spec_deny_location(loc),
{
    Location {
        physical_location: Some(
            PhysicalLocation {
                artifact_location: Some(
                    ArtifactLocation {
                        uri: Some(String::from_str("Cargo.toml")),
                        uri_base_id: None,
                    },
                ),
                region: Some(
                    Region {
                        byte_offset: None,
                        byte_length: None,
                        start_line: Some(1),
                        start_column: Some(1),
                        end_line: None,
                        end_column: None,
                    },
                ),
            },
        ),
        message: None,
    }
}

/// Builds the rule describing the diagnostic that first carried an id.
fn deny_rule(d: &DenyDiagnostic) -> (rule: ReportingDescriptor)
    ensures
        spec_deny_rule(rule, *d),
{
    let rule_id = deny_rule_id(d);
    let description: String = match &d.advisory {
        Some(a) => a.title.clone(),
        None => d.message.clone(),
    };
    let default_help: String = if str_eq(d.diagnostic_type.as_str(), "advisory") {
        String::from_str("https://rustsec.org/")
    } else {
        String::from_str("https://embarkstudios.github.io/cargo-deny/")
    };
    let help_uri: String = match &d.advisory {
        Some(a) => match &a.url {
            Some(u) => u.clone(),
            None => default_help,
        },
        None => default_help,
    };
    ReportingDescriptor {
        id: rule_id.clone(),
        name: Some(rule_id),
        short_description: Some(MultiformatMessageString { text: description }),
        full_description: None,
        default_configuration: None,
        help_uri: Some(help_uri),
        message_strings: None,
    }
}

/// Builds the message of a result, appending the package record.
fn deny_message(d: &DenyDiagnostic) -> (r: String)
    ensures
        r@ == spec_deny_message(*d),
{
    match &d.package {
        Some(p) => d.message.clone().concat(" (package: ").concat(p.name.as_str()).concat(
            " ",
        ).concat(p.version.as_str()).concat(")"),
        None => d.message.clone(),
    }
}

/// The position of a rule id in the catalog built so far, by content.
fn deny_find_id(seen: &Vec<String>, id: &String) -> (r: Option<usize>)
    ensures
        match r {
            Some(j) => j < seen@.len() && (#[trigger] seen@[j as int])@ == id@ && forall|k: int|
                0 <= k < j ==> (#[trigger] seen@[k])@ != id@,
            None => forall|k: int| 0 <= k < seen@.len() ==> (#[trigger] seen@[k])@ != id@,
        },
{
    let mut j: usize = 0;
    while j < seen.len()
        invariant
            j <= seen@.len(),
            forall|k: int| 0 <= k < j ==> (#[trigger] seen@[k])@ != id@,
        decreases seen@.len() - j,
    {
        if string_eq(&seen[j], id) {
            return Some(j);
        }
        j = j + 1;
    }
    None
}

/// Converts parsed diagnostics into an interchange document: one run named
/// `cargo-deny`, one rule per distinct rule id in order of first
/// appearance, one result per diagnostic in order.
/// Whether a document is the conversion of a sequence of diagnostics:
/// one run named `cargo-deny`, one rule per distinct rule id in order of
/// first appearance, one result per diagnostic in order.
pub open spec fn spec_deny_converted(s: Sarif, ds: Seq<DenyDiagnostic>) -> bool {
    let ids = spec_deny_ids_from(ds, 0, Seq::empty());
    &&& s.version@ == "2.1.0"@
    &&& s.runs@.len() == 1
    &&& ({
        let run = s.runs@[0];
        &&& run.tool.driver.name@ == "cargo-deny"@
        &&& run.tool.driver.information_uri is Some
        &&& run.tool.driver.information_uri->0@
            == "https://embarkstudios.github.io/cargo-deny/"@
        &&& run.tool.driver.global_message_strings is None
        &&& run.original_uri_base_ids is None
        &&& run.invocations is None
        &&& run.tool.driver.rules is Some
        &&& run.tool.driver.rules->0@.len() == ids.len()
        &&& run.results is Some
        &&& run.results->0@.len() == ds.len()
        &&& forall|k: int|
            0 <= k < ds.len() ==> spec_deny_result(#[trigger] run.results->0@[k], ds[k], ids)
    })
}

pub fn convert(ds: &Vec<DenyDiagnostic>) -> (s: Sarif)
    ensures
        spec_deny_converted(s, ds@),
{
    let ghost full_ids = spec_deny_ids_from(ds@, 0, Seq::<Seq<char>>::empty());
    let ghost mut acc: Seq<Seq<char>> = Seq::empty();
    let mut seen: Vec<String> = Vec::new();
    let mut rules: Vec<ReportingDescriptor> = Vec::new();
    let mut results: Vec<SarifResult> = Vec::new();
    let mut i: usize = 0;
    while i < ds.len()
        invariant
            i <= ds@.len(),
            full_ids == spec_deny_ids_from(ds@, 0, Seq::<Seq<char>>::empty()),
            spec_deny_ids_from(ds@, i as int, acc) == full_ids,
            seen@.len() == acc.len(),
            forall|k: int| 0 <= k < acc.len() ==> (#[trigger] seen@[k])@ == acc[k],
            rules@.len() == acc.len(),
            acc.len() <= full_ids.len(),
            forall|k: int| 0 <= k < acc.len() ==> full_ids[k] == acc[k],
            results@.len() == i,
            forall|k: int|
                0 <= k < i ==> spec_deny_result(#[trigger] results@[k], ds@[k], full_ids),
        decreases ds@.len() - i,
    {
        let d = &ds[i];
        let rule_id = deny_rule_id(d);
        let ix: usize = match deny_find_id(&seen, &rule_id) {
            Some(ix) => {
                proof {
                    assert(acc[ix as int] == spec_deny_rule_id(ds@[i as int]));
                    assert forall|k: int| 0 <= k < ix implies acc[k] != spec_deny_rule_id(
                        ds@[i as int],
                    ) by {
                        assert(seen@[k]@ == acc[k]);
                    }
                    assert(forall|k: int| 0 <= k <= ix ==> full_ids[k] == acc[k]);
                    lemma_deny_id_index_unique(
                        full_ids,
                        spec_deny_rule_id(ds@[i as int]),
                        ix as int,
                        0,
                    );
                }
                ix
            },
            None => {
                let ix = seen.len();
                proof {
                    assert forall|k: int| 0 <= k < acc.len() implies acc[k] != spec_deny_rule_id(
                        ds@[i as int],
                    ) by {
                        assert(seen@[k]@ == acc[k]);
                    }
                    assert(!acc.contains(spec_deny_rule_id(ds@[i as int])));
                    let pushed = acc.push(spec_deny_rule_id(ds@[i as int]));
                    assert(spec_deny_ids_from(ds@, i as int, acc) == spec_deny_ids_from(
                        ds@,
                        i as int + 1,
                        pushed,
                    ));
                    lemma_deny_ids_prefix(ds@, i as int + 1, pushed);
                    assert(spec_deny_ids_from(ds@, i as int + 1, pushed)[acc.len() as int]
                        == pushed[acc.len() as int]);
                    assert(full_ids[acc.len() as int] == spec_deny_rule_id(ds@[i as int]));
                    assert forall|k: int| 0 <= k < acc.len() implies full_ids[k]
                        != spec_deny_rule_id(ds@[i as int]) by {
                        assert(full_ids[k] == acc[k]);
                    }
                    lemma_deny_id_index_unique(
                        full_ids,
                        spec_deny_rule_id(ds@[i as int]),
                        acc.len() as int,
                        0,
                    );
                }
                seen.push(rule_id.clone());
                rules.push(deny_rule(d));
                proof {
                    acc = acc.push(spec_deny_rule_id(ds@[i as int]));
                }
                ix
            },
        };
        let level: ResultLevel = match &d.severity {
            Some(s) => match deny_level(s) {
                Some(lv) => lv,
                None => ResultLevel::Warning,
            },
            None => ResultLevel::Warning,
        };
        #[verifier::truncate]
        let rule_index: i64 = ix as i64;
        let mut locations: Vec<Location> = Vec::new();
        locations.push(deny_location());
        results.push(
            SarifResult {
                rule_id: Some(rule_id),
                rule_index: Some(rule_index),
                rule: None,
                level: Some(String::from_str(level.as_str())),
                kind: None,
                message: Message { text: Some(deny_message(d)), id: None },
                locations: Some(locations),
                related_locations: None,
                fixes: None,
                provenance: None,
            },
        );
        i = i + 1;
    }
    let driver = ToolComponent {
        name: String::from_str("cargo-deny"),
        information_uri: Some(String::from_str("https://embarkstudios.github.io/cargo-deny/")),
        rules: Some(rules),
        global_message_strings: None,
    };
    let run = Run {
        tool: Tool { driver },
        results: Some(results),
        original_uri_base_ids: None,
        invocations: None,
    };
    let mut runs: Vec<Run> = Vec::new();
    runs.push(run);
    Sarif { version: String::from_str("2.1.0"), runs }
}

/// The position of the first newline at or after `p`, or the end of the
/// text.
pub open spec fn spec_nl_pos(s: Seq<char>, p: int) -> int
    decreases s.len() - p,
{
    if p < 0 || p >= s.len() {
        p
    } else if s[p] == '\n' {
        p
    } else {
        spec_nl_pos(s, p + 1)
    }
}

/// A newline scan neither moves backwards nor leaves the text.
proof fn lemma_nl_pos_bounds(s: Seq<char>, p: int)
    requires
        0 <= p <= s.len(),
    ensures
        p <= spec_nl_pos(s, p) <= s.len(),
    decreases s.len() - p,
{
    if p < s.len() && s[p] != '\n' {
        lemma_nl_pos_bounds(s, p + 1);
    }
}

/// A newline scan over a newline-free stretch finds exactly the bounding
/// newline.
proof fn lemma_nl_pos_forced(s: Seq<char>, a: int, b: int)
    requires
        0 <= a <= b < s.len(),
        forall|i: int| a <= i < b ==> (#[trigger] s[i]) != '\n',
        s[b] == '\n',
    ensures
        spec_nl_pos(s, a) == b,
    decreases b - a,
{
    if a < b {
        lemma_nl_pos_forced(s, a + 1, b);
    }
}

/// A newline scan over a newline-free tail runs to the end of the text.
proof fn lemma_nl_pos_end(s: Seq<char>, a: int)
    requires
        0 <= a <= s.len(),
        forall|i: int| a <= i < s.len() ==> (#[trigger] s[i]) != '\n',
    ensures
        spec_nl_pos(s, a) == s.len(),
    decreases s.len() - a,
{
    if a < s.len() {
        lemma_nl_pos_end(s, a + 1);
    }
}

/// One line of a text: the stretch from `start` to the newline at `nl`,
/// its trailing carriage return dropped.
pub open spec fn spec_line_at(s: Seq<char>, start: int, nl: int) -> Seq<char> {
    if nl > start && s[nl - 1] == '\r' {
        s.subrange(start, nl - 1)
    } else {
        s.subrange(start, nl)
    }
}

/// The lines of a text from position `start` on: one line per newline, and
/// a final line when text follows the last newline.
pub open spec fn spec_lines_from(s: Seq<char>, start: int) -> Seq<Seq<char>>
    decreases s.len() - start,
    via spec_lines_from_decreases
{
    if start < 0 || start >= s.len() {
        Seq::empty()
    } else {
        let nl = spec_nl_pos(s, start);
        if nl >= s.len() {
            seq![s.subrange(start, s.len() as int)]
        } else {
            seq![spec_line_at(s, start, nl)] + spec_lines_from(s, nl + 1)
        }
    }
}

#[via_fn]
proof fn spec_lines_from_decreases(s: Seq<char>, start: int) {
    if !(start < 0 || start >= s.len()) {
        lemma_nl_pos_bounds(s, start);
    }
}

/// Splits text into its lines, the separators left out; a line's trailing
/// carriage return is dropped.
fn split_lines(s: &str) -> (r: Vec<String>)
    ensures
        r@.len() == spec_lines_from(s@, 0).len(),
        forall|k: int|
            0 <= k < r@.len() ==> (#[trigger] r@[k])@ == spec_lines_from(s@, 0)[k],
{
    let n = s.unicode_len();
    let ghost full = spec_lines_from(s@, 0);
    let ghost mut done: Seq<Seq<char>> = Seq::empty();
    let mut lines: Vec<String> = Vec::new();
    let mut start: usize = 0;
    let mut i: usize = 0;
    proof {
        assert(done + spec_lines_from(s@, 0) =~= full);
    }
    while i < n
        invariant
            start <= i <= n,
            n == s@.len(),
            full == spec_lines_from(s@, 0),
            done + spec_lines_from(s@, start as int) =~= full,
            forall|j: int| start <= j < i ==> (#[trigger] s@[j]) != '\n',
            lines@.len() == done.len(),
            forall|k: int| 0 <= k < done.len() ==> (#[trigger] lines@[k])@ == done[k],
        decreases n - i,
    {
        if s.get_char(i) == '\n' {
            proof {
                lemma_nl_pos_forced(s@, start as int, i as int);
            }
            let end = if i > start && s.get_char(i - 1) == '\r' {
                i - 1
            } else {
                i
            };
            lines.push(s.substring_char(start, end).to_owned());
            proof {
                let ln = spec_line_at(s@, start as int, i as int);
                assert(spec_lines_from(s@, start as int) == seq![ln] + spec_lines_from(
                    s@,
                    i as int + 1,
                ));
                assert(done.push(ln) + spec_lines_from(s@, i as int + 1) =~= done + (seq![ln]
                    + spec_lines_from(s@, i as int + 1)));
                done = done.push(ln);
            }
            start = i + 1;
        }
        i = i + 1;
    }
    if start < n {
        proof {
            lemma_nl_pos_end(s@, start as int);
            assert(spec_lines_from(s@, start as int) =~= seq![s@.subrange(start as int, n as int)]);
            assert(done.push(s@.subrange(start as int, n as int)) =~= done + spec_lines_from(
                s@,
                start as int,
            ));
            done = done.push(s@.subrange(start as int, n as int));
        }
        lines.push(s.substring_char(start, n).to_owned());
    }
    lines
}

/// A character a blank line may consist of: a space, a tab or a carriage
/// return.
pub open spec fn spec_is_blank_char(c: char) -> bool {
    c as u32 == 32 || c as u32 == 9 || c as u32 == 13
}

/// Whether a line holds nothing worth reading.
pub open spec fn spec_is_blank(l: Seq<char>) -> bool {
    forall|i: int| 0 <= i < l.len() ==> spec_is_blank_char(#[trigger] l[i])
}

/// Tests whether a line holds nothing but spaces, tabs and carriage
/// returns.
fn is_blank(s: &String) -> (r: bool)
    ensures
        r == spec_is_blank(s@),
{
    let n = s.as_str().unicode_len();
    let mut i: usize = 0;
    while i < n
        invariant
            i <= n,
            n == s@.len(),
            forall|j: int| 0 <= j < i ==> spec_is_blank_char(#[trigger] s@[j]),
        decreases n - i,
    {
        let u = s.as_str().get_char(i) as u32;
        if !(u == 32 || u == 9 || u == 13) {
            return false;
        }
        i = i + 1;
    }
    true
}

/// A diagnostic can be read off a value exactly when its type and message
/// strings are present and its package and advisory members, unless absent
/// or null, carry their required fields.
pub open spec fn spec_deny_item_ok(v: serde_json::Value) -> bool {
    &&& crate::parse::spec_member_str(v, "type"@) is Some
    &&& crate::parse::spec_member_str(v, "message"@) is Some
    &&& match crate::parse::spec_json_field(v, "package"@) {
        Some(p) => crate::parse::spec_json_is_null(p) || (crate::parse::spec_member_str(
            p,
            "name"@,
        ) is Some && crate::parse::spec_member_str(p, "version"@) is Some),
        None => true,
    }
    &&& match crate::parse::spec_json_field(v, "advisory"@) {
        Some(a) => crate::parse::spec_json_is_null(a) || (crate::parse::spec_member_str(
            a,
            "id"@,
        ) is Some && crate::parse::spec_member_str(a, "title"@) is Some),
        None => true,
    }
}

/// Whether a diagnostic is the one read off a value.
pub open spec fn spec_deny_item_read(d: DenyDiagnostic, v: serde_json::Value) -> bool {
    &&& crate::parse::spec_member_str(v, "type"@) == Some(d.diagnostic_type@)
    &&& crate::parse::spec_member_str(v, "message"@) == Some(d.message@)
    &&& crate::parse::spec_opt_string_is(d.severity, crate::parse::spec_member_str(v, "severity"@))
    &&& crate::parse::spec_opt_string_is(d.code, crate::parse::spec_member_str(v, "code"@))
    &&& match crate::parse::spec_json_field(v, "package"@) {
        Some(p) => if crate::parse::spec_json_is_null(p) {
            d.package is None
        } else {
            &&& d.package is Some
            &&& crate::parse::spec_member_str(p, "name"@) == Some(d.package->0.name@)
            &&& crate::parse::spec_member_str(p, "version"@) == Some(d.package->0.version@)
            &&& crate::parse::spec_opt_string_is(
                d.package->0.source,
                crate::parse::spec_member_str(p, "source"@),
            )
        },
        None => d.package is None,
    }
    &&& match crate::parse::spec_json_field(v, "advisory"@) {
        Some(a) => if crate::parse::spec_json_is_null(a) {
            d.advisory is None
        } else {
            &&& d.advisory is Some
            &&& crate::parse::spec_member_str(a, "id"@) == Some(d.advisory->0.id@)
            &&& crate::parse::spec_member_str(a, "title"@) == Some(d.advisory->0.title@)
            &&& crate::parse::spec_opt_string_is(
                d.advisory->0.description,
                crate::parse::spec_member_str(a, "description"@),
            )
            &&& crate::parse::spec_opt_string_is(
                d.advisory->0.url,
                crate::parse::spec_member_str(a, "url"@),
            )
        },
        None => d.advisory is None,
    }
}

/// Reads one diagnostic out of a JSON value; a value of another shape is
/// no diagnostic.
fn parse_deny_line(v: &serde_json::Value) -> (r: Option<DenyDiagnostic>)
    ensures
        match r {
            Some(d) => spec_deny_item_ok(*v) && spec_deny_item_read(d, *v),
            None => !spec_deny_item_ok(*v),
        },
{
    let diagnostic_type = match crate::parse::field_string(v, "type") {
        Some(t) => t,
        None => {
            return None;
        },
    };
    let message = match crate::parse::field_string(v, "message") {
        Some(m) => m,
        None => {
            return None;
        },
    };
    let package: Option<DenyPackage> = match crate::parse::field(v, "package") {
        Some(p) if !crate::parse::is_null(p) => {
            let name = match crate::parse::field_string(p, "name") {
                Some(n) => n,
                None => {
                    return None;
                },
            };
            let version = match crate::parse::field_string(p, "version") {
                Some(n) => n,
                None => {
                    return None;
                },
            };
            Some(DenyPackage { name, version, source: crate::parse::field_string(p, "source") })
        },
        _ => None,
    };
    let advisory: Option<DenyAdvisory> = match crate::parse::field(v, "advisory") {
        Some(a) if !crate::parse::is_null(a) => {
            let id = match crate::parse::field_string(a, "id") {
                Some(n) => n,
                None => {
                    return None;
                },
            };
            let title = match crate::parse::field_string(a, "title") {
                Some(n) => n,
                None => {
                    return None;
                },
            };
            Some(
                DenyAdvisory {
                    id,
                    title,
                    description: crate::parse::field_string(a, "description"),
                    url: crate::parse::field_string(a, "url"),
                },
            )
        },
        _ => None,
    };
    Some(
        DenyDiagnostic {
            diagnostic_type,
            message,
            severity: crate::parse::field_string(v, "severity"),
            package,
            advisory,
            code: crate::parse::field_string(v, "code"),
        },
    )
}

/// The values of the lines that hold diagnostics, scanning from `i`: the
/// parsed value of each line that is not blank, is JSON, and can be read
/// as a diagnostic; the other lines are passed over.
pub open spec fn spec_deny_kept_from(lines: Seq<Seq<char>>, i: int) -> Seq<serde_json::Value>
    decreases lines.len() - i,
{
    if i < 0 || i >= lines.len() {
        Seq::empty()
    } else {
        let rest = spec_deny_kept_from(lines, i + 1);
        if !spec_is_blank(lines[i]) && crate::parse::spec_json_parse(lines[i]) is Some
            && spec_deny_item_ok(crate::parse::spec_json_parse(lines[i])->0) {
            seq![crate::parse::spec_json_parse(lines[i])->0] + rest
        } else {
            rest
        }
    }
}

/// Converts the tool's JSON-lines output into an interchange document.
///
/// The document is the conversion, per [`convert`], of the diagnostics
/// read off the input's lines in order; lines that are blank, not JSON,
/// or not a diagnostic are skipped.
pub fn process(data: &str) -> (s: Sarif)
    ensures
        s.version@ == "2.1.0"@,
        s.runs@.len() == 1,
        s.runs@[0].tool.driver.name@ == "cargo-deny"@,
        exists|ds: Seq<DenyDiagnostic>|
            {
                &&& #[trigger] spec_deny_converted(s, ds)
                &&& ds.len() == spec_deny_kept_from(spec_lines_from(data@, 0), 0).len()
                &&& forall|k: int|
                    0 <= k < ds.len() ==> spec_deny_item_read(
                        #[trigger] ds[k],
                        spec_deny_kept_from(spec_lines_from(data@, 0), 0)[k],
                    )
            },
{
    let lines = split_lines(data);
    let ghost lseq = spec_lines_from(data@, 0);
    let ghost full = spec_deny_kept_from(lseq, 0);
    let ghost mut done: Seq<serde_json::Value> = Seq::empty();
    let mut ds: Vec<DenyDiagnostic> = Vec::new();
    let mut i: usize = 0;
    proof {
        assert(done + spec_deny_kept_from(lseq, 0) =~= full);
    }
    while i < lines.len()
        invariant
            i <= lines@.len(),
            lseq == spec_lines_from(data@, 0),
            lines@.len() == lseq.len(),
            forall|k: int| 0 <= k < lseq.len() ==> (#[trigger] lines@[k])@ == lseq[k],
            full == spec_deny_kept_from(lseq, 0),
            done + spec_deny_kept_from(lseq, i as int) =~= full,
            ds@.len() == done.len(),
            forall|k: int|
                0 <= k < done.len() ==> spec_deny_item_read(#[trigger] ds@[k], done[k]),
        decreases lines@.len() - i,
    {
        if !is_blank(&lines[i]) {
            match crate::parse::parse_json_value(lines[i].as_str()) {
                Ok(v) => {
                    match parse_deny_line(&v) {
                        Some(d) => {
                            proof {
                                assert(spec_deny_kept_from(lseq, i as int) == seq![v]
                                    + spec_deny_kept_from(lseq, i as int + 1));
                                assert(done.push(v) + spec_deny_kept_from(lseq, i as int + 1)
                                    =~= done + (seq![v] + spec_deny_kept_from(
                                    lseq,
                                    i as int + 1,
                                )));
                                done = done.push(v);
                            }
                            ds.push(d);
                        },
                        None => {},
                    }
                },
                Err(_) => {},
            }
        }
        i = i + 1;
    }
    let s = convert(&ds);
    proof {
        assert(spec_deny_converted(s, ds@));
    }
    s
}

} // verus!
