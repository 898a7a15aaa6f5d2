//! A converter for shell-script linter output: turns the linter's JSON
//! diagnostics into an interchange document of the model.
//!
//! Each diagnostic carries a file, a full start/end region, a level, a
//! numeric code and a message, and may propose a fix made of replacements.
//! The converter builds one run, named `shellcheck`, with one rule per
//! distinct code (in order of first appearance) and one result per
//! diagnostic; a diagnostic's replacements become its related locations and
//! its proposed fixes.

use vstd::prelude::*;
use vstd::string::StringExecFns;
use crate::sarif::{
    ArtifactLocation, Fix, Location, Message, MultiformatMessageString, PhysicalLocation, Region,
    ReportingDescriptor, ResultLevel, Run, Sarif, SarifResult, Tool, ToolComponent,
};
use crate::text::{i64_to_string, spec_dec_i64, str_eq, string_eq};

verus! {

/// One replacement of a proposed fix.
pub struct ShellcheckReplacement {
    pub line: i64,
    pub end_line: i64,
    pub precedence: i64,
    pub insertion_point: String,
    pub column: i64,
    pub replacement: String,
    pub end_column: i64,
}

/// A proposed fix: its replacements.
pub struct ShellcheckFix {
    pub replacements: Vec<ShellcheckReplacement>,
}

/// One diagnostic of the linter's JSON output.
pub struct ShellcheckResult {
    pub file: String,
    pub line: i64,
    pub end_line: i64,
    pub column: i64,
    pub end_column: i64,
    pub level: String,
    pub code: i64,
    pub message: String,
    pub fix: Option<ShellcheckFix>,
}

/// Why the linter's output could not be converted; fatal for the whole
/// input.
pub enum ShellcheckError {
    /// The input is not valid JSON; carries the parser's description.
    InvalidJson(String),
    /// A required field of a diagnostic is absent or of the wrong type.
    MissingField(&'static str),
    /// A diagnostic's level is none of `info`, `warning`, `error`, `style`.
    UnknownLevel,
}

/// The level of a linter diagnostic, mapped into the closed severity set:
/// `info` and `style` are notes.
pub open spec fn spec_shellcheck_level(s: Seq<char>) -> Option<ResultLevel> {
    if s == "info"@ {
        Some(ResultLevel::Note)
    } else if s == "warning"@ {
        Some(ResultLevel::Warning)
    } else if s == "error"@ {
        Some(ResultLevel::Error)
    } else if s == "style"@ {
        Some(ResultLevel::Note)
    } else {
        None
    }
}

/// Maps a linter level string into the closed severity set.
pub fn shellcheck_level(s: &String) -> (r: Option<ResultLevel>)
    ensures
        r == spec_shellcheck_level(s@),
{
    if str_eq(s.as_str(), "info") {
        Some(ResultLevel::Note)
    } else if str_eq(s.as_str(), "warning") {
        Some(ResultLevel::Warning)
    } else if str_eq(s.as_str(), "error") {
        Some(ResultLevel::Error)
    } else if str_eq(s.as_str(), "style") {
        Some(ResultLevel::Note)
    } else {
        None
    }
}

/// The decimal string of a diagnostic's code, which names its rule.
pub open spec fn spec_code_str(h: ShellcheckResult) -> Seq<char> {
    spec_dec_i64(h.code as int)
}

/// The distinct rule codes of the diagnostics, in order of first
/// appearance, scanning from `i` with the codes `acc` already collected.
pub open spec fn spec_sc_codes_from(hs: Seq<ShellcheckResult>, i: int, acc: Seq<Seq<char>>) -> Seq<
    Seq<char>,
>
    decreases hs.len() - i,
{
    if i < 0 || i >= hs.len() {
        acc
    } else if acc.contains(spec_code_str(hs[i])) {
        spec_sc_codes_from(hs, i + 1, acc)
    } else {
        spec_sc_codes_from(hs, i + 1, acc.push(spec_code_str(hs[i])))
    }
}

/// The rule catalog only grows while scanning: what was collected stays,
/// in place.
proof fn lemma_sc_codes_prefix(hs: Seq<ShellcheckResult>, i: int, acc: Seq<Seq<char>>)
    ensures
        acc.len() <= spec_sc_codes_from(hs, i, acc).len(),
        forall|k: int| 0 <= k < acc.len() ==> spec_sc_codes_from(hs, i, acc)[k] == acc[k],
    decreases hs.len() - i,
{
    if !(i < 0 || i >= hs.len()) {
        if acc.contains(spec_code_str(hs[i])) {
            lemma_sc_codes_prefix(hs, i + 1, acc);
        } else {
            let pushed = acc.push(spec_code_str(hs[i]));
            lemma_sc_codes_prefix(hs, i + 1, pushed);
            assert(spec_sc_codes_from(hs, i, acc) == spec_sc_codes_from(hs, i + 1, pushed));
            assert forall|k: int| 0 <= k < acc.len() implies spec_sc_codes_from(hs, i, acc)[k]
                == acc[k] by {
                assert(spec_sc_codes_from(hs, i + 1, pushed)[k] == pushed[k]);
                assert(pushed[k] == acc[k]);
            }
        }
    }
}

/// The position of the first occurrence of a code in the catalog, scanning
/// from `from`.
pub open spec fn spec_sc_code_index_from(codes: Seq<Seq<char>>, c: Seq<char>, from: int) -> Option<
    int,
>
    decreases codes.len() - from,
{
    if from < 0 || from >= codes.len() {
        None
    } else if codes[from] == c {
        Some(from)
    } else {
        spec_sc_code_index_from(codes, c, from + 1)
    }
}

/// A position holding the code, with none before it, is what the
/// first-occurrence scan finds.
proof fn lemma_sc_code_index_unique(codes: Seq<Seq<char>>, c: Seq<char>, ix: int, from: int)
    requires
        0 <= from <= ix < codes.len(),
        codes[ix] == c,
        forall|k: int| 0 <= k < ix ==> codes[k] != c,
    ensures
        spec_sc_code_index_from(codes, c, from) == Some(ix),
    decreases ix - from,
{
    if from < ix {
        lemma_sc_code_index_unique(codes, c, ix, from + 1);
    }
}

/// Whether a rule of the built catalog describes a code: the code's
/// decimal string as id and name, `SC`-prefixed forms as descriptions and
/// the linter's wiki page for the code.
pub open spec fn spec_shellcheck_rule(rule: ReportingDescriptor, code: Seq<char>) -> bool {
    &&& rule.id@ == code
    &&& rule.name is Some && rule.name->0@ == code
    &&& rule.short_description is Some && rule.short_description->0.text@ == "SC"@ + code
    &&& rule.help_uri is Some && rule.help_uri->0@ == "https://www.shellcheck.net/wiki/SC"@ + code
    &&& rule.full_description is Some && rule.full_description->0.text@
        == "For more information: https://www.shellcheck.net/wiki/SC"@ + code
    &&& rule.default_configuration is None
    &&& rule.message_strings is None
}

/// Whether a model location points at a region of a file: URI, start and
/// end line/column pairs, and an optional label.
pub open spec fn spec_sc_location(
    loc: Location,
    file: Seq<char>,
    line: i64,
    column: i64,
    end_line: i64,
    end_column: i64,
) -> bool {
    &&& loc.message is None
    &&& loc.physical_location is Some
    &&& ({
        let p = loc.physical_location->0;
        &&& p.artifact_location is Some
        &&& p.artifact_location->0.uri is Some
        &&& p.artifact_location->0.uri->0@ == file
        &&& p.artifact_location->0.uri_base_id is None
        &&& p.region is Some
        &&& p.region->0.start_line == Some(line)
        &&& p.region->0.start_column == Some(column)
        &&& p.region->0.end_line == Some(end_line)
        &&& p.region->0.end_column == Some(end_column)
        &&& p.region->0.byte_offset is None
        &&& p.region->0.byte_length is None
    })
}

/// Whether a model result is the conversion of a linter diagnostic against
/// the catalog `codes`: its code as rule id and rule index, its mapped
/// level, its message, its region, and one related location and one fix
/// per replacement of its proposed fix.
pub open spec fn spec_shellcheck_result(
    out: SarifResult,
    h: ShellcheckResult,
    codes: Seq<Seq<char>>,
) -> bool {
    &&& out.rule_id is Some && out.rule_id->0@ == spec_code_str(h)
    &&& out.rule_index is Some
    &&& match spec_sc_code_index_from(codes, spec_code_str(h), 0) {
        Some(ix) => ix <= i64::MAX as int ==> out.rule_index->0 as int == ix,
        None => false,
    }
    &&& out.rule is None
    &&& out.level is Some
    &&& match spec_shellcheck_level(h.level@) {
        Some(lv) => out.level->0@ == lv.spec_str(),
        None => false,
    }
    &&& out.kind is None
    &&& out.message.text is Some && out.message.text->0@ == h.message@
    &&& out.message.id is None
    &&& out.locations is Some && out.locations->0@.len() == 1 && spec_sc_location(
        out.locations->0@[0],
        h.file@,
        h.line,
        h.column,
        h.end_line,
        h.end_column,
    )
    &&& ({
        let reps = match h.fix {
            Some(f) => f.replacements@,
            None => Seq::empty(),
        };
        &&& out.related_locations is Some
        &&& out.related_locations->0@.len() == reps.len()
        &&& forall|r: int|
            0 <= r < reps.len() ==> spec_sc_location(
                #[trigger] out.related_locations->0@[r],
                h.file@,
                reps[r].line,
                reps[r].column,
                reps[r].end_line,
                reps[r].end_column,
            )
        &&& out.fixes is Some
        &&& out.fixes->0@.len() == reps.len()
        &&& forall|r: int|
            0 <= r < reps.len() ==> {
                let f = #[trigger] out.fixes->0@[r];
                f.description is Some && f.description->0.text@ == reps[r].replacement@
            }
    })
    &&& out.provenance is None
}

/// Builds a location for a region of the diagnostic's file.
fn sc_location(file: &String, line: i64, column: i64, end_line: i64, end_column: i64) -> (loc:
    Location)
    ensures
        spec_sc_location(loc, file@, line, column, end_line, end_column),
{
    Location {
        physical_location: Some(
            PhysicalLocation {
                artifact_location: Some(
                    ArtifactLocation { uri: Some(file.clone()), uri_base_id: None },
                ),
                region: Some(
                    Region {
                        byte_offset: None,
                        byte_length: None,
                        start_line: Some(line),
                        start_column: Some(column),
                        end_line: Some(end_line),
                        end_column: Some(end_column),
                    },
                ),
            },
        ),
        message: None,
    }
}

/// Builds the rule describing one code.
fn sc_rule(code: &String) -> (rule: ReportingDescriptor)
    ensures
        spec_shellcheck_rule(rule, code@),
{
    ReportingDescriptor {
        id: code.clone(),
        name: Some(code.clone()),
        short_description: Some(
            MultiformatMessageString { text: String::from_str("SC").concat(code.as_str()) },
        ),
        full_description: Some(
            MultiformatMessageString {
                text: String::from_str("For more information: https://www.shellcheck.net/wiki/SC")
                    .concat(code.as_str()),
            },
        ),
        default_configuration: None,
        help_uri: Some(
            String::from_str("https://www.shellcheck.net/wiki/SC").concat(code.as_str()),
        ),
        message_strings: None,
    }
}

/// The position of a code in the catalog built so far, by content.
fn sc_find_code(seen: &Vec<String>, code: &String) -> (r: Option<usize>)
    ensures
        match r {
            Some(j) => j < seen@.len() && (#[trigger] seen@[j as int])@ == code@ && forall|k: int|
                0 <= k < j ==> (#[trigger] seen@[k])@ != code@,
            None => forall|k: int| 0 <= k < seen@.len() ==> (#[trigger] seen@[k])@ != code@,
        },
{
    let mut j: usize = 0;
    while j < seen.len()
        invariant
            j <= seen@.len(),
            forall|k: int| 0 <= k < j ==> (#[trigger] seen@[k])@ != code@,
        decreases seen@.len() - j,
    {
        if string_eq(&seen[j], code) {
            return Some(j);
        }
        j = j + 1;
    }
    None
}

/// Converts parsed linter diagnostics into an interchange document: one
/// run named `shellcheck`, one rule per distinct code in order of first
/// appearance, one result per diagnostic in order. Fails only on a level
/// outside the linter's four.
/// Whether a document is the conversion of a sequence of diagnostics:
/// one run named `shellcheck`, one rule per distinct code in order of
/// first appearance, one result per diagnostic in order.
pub open spec fn spec_shellcheck_converted(s: Sarif, hs: Seq<ShellcheckResult>) -> bool {
    let codes = spec_sc_codes_from(hs, 0, Seq::empty());
    &&& s.version@ == "2.1.0"@
    &&& s.runs@.len() == 1
    &&& ({
        let run = s.runs@[0];
        &&& run.tool.driver.name@ == "shellcheck"@
        &&& run.tool.driver.rules is Some
        &&& run.tool.driver.rules->0@.len() == codes.len()
        &&& forall|k: int|
            0 <= k < codes.len() ==> spec_shellcheck_rule(
                #[trigger] run.tool.driver.rules->0@[k],
                codes[k],
            )
        &&& run.results is Some
        &&& run.results->0@.len() == hs.len()
        &&& forall|k: int|
            0 <= k < hs.len() ==> spec_shellcheck_result(
                #[trigger] run.results->0@[k],
                hs[k],
                codes,
            )
    })
}

pub fn convert(hs: &Vec<ShellcheckResult>) -> (r: Result<Sarif, ShellcheckError>)
    ensures
        match r {
            Ok(s) => spec_shellcheck_converted(s, hs@),
            Err(e) => e is UnknownLevel && exists|k: int|
                0 <= k < hs@.len() && spec_shellcheck_level((#[trigger] hs@[k]).level@) is None,
        },
{
    let ghost full_codes = spec_sc_codes_from(hs@, 0, Seq::<Seq<char>>::empty());
    let ghost mut acc: Seq<Seq<char>> = Seq::empty();
    let mut seen: Vec<String> = Vec::new();
    let mut rules: Vec<ReportingDescriptor> = Vec::new();
    let mut results: Vec<SarifResult> = Vec::new();
    let mut i: usize = 0;
    while i < hs.len()
        invariant
            i <= hs@.len(),
            full_codes == spec_sc_codes_from(hs@, 0, Seq::<Seq<char>>::empty()),
            spec_sc_codes_from(hs@, i as int, acc) == full_codes,
            seen@.len() == acc.len(),
            forall|k: int| 0 <= k < acc.len() ==> (#[trigger] seen@[k])@ == acc[k],
            rules@.len() == acc.len(),
            forall|k: int|
                0 <= k < acc.len() ==> spec_shellcheck_rule(#[trigger] rules@[k], acc[k]),
            acc.len() <= full_codes.len(),
            forall|k: int| 0 <= k < acc.len() ==> full_codes[k] == acc[k],
            results@.len() == i,
            forall|k: int|
                0 <= k < i ==> spec_shellcheck_result(#[trigger] results@[k], hs@[k], full_codes),
        decreases hs@.len() - i,
    {
        let h = &hs[i];
        let code = i64_to_string(h.code);
        let ix: usize = match sc_find_code(&seen, &code) {
            Some(ix) => {
                proof {
                    assert(acc[ix as int] == spec_code_str(hs@[i as int]));
                    assert forall|k: int| 0 <= k < ix implies acc[k] != spec_code_str(
                        hs@[i as int],
                    ) by {
                        assert(seen@[k]@ == acc[k]);
                    }
                    assert(forall|k: int| 0 <= k <= ix ==> full_codes[k] == acc[k]);
                    lemma_sc_code_index_unique(
                        full_codes,
                        spec_code_str(hs@[i as int]),
                        ix as int,
                        0,
                    );
                }
                ix
            },
            None => {
                let ix = seen.len();
                proof {
                    assert forall|k: int| 0 <= k < acc.len() implies acc[k] != spec_code_str(
                        hs@[i as int],
                    ) by {
                        assert(seen@[k]@ == acc[k]);
                    }
                    assert(!acc.contains(spec_code_str(hs@[i as int])));
                    let pushed = acc.push(spec_code_str(hs@[i as int]));
                    assert(spec_sc_codes_from(hs@, i as int, acc) == spec_sc_codes_from(
                        hs@,
                        i as int + 1,
                        pushed,
                    ));
                    lemma_sc_codes_prefix(hs@, i as int + 1, pushed);
                    assert(spec_sc_codes_from(hs@, i as int + 1, pushed)[acc.len() as int]
                        == pushed[acc.len() as int]);
                    assert(full_codes[acc.len() as int] == spec_code_str(hs@[i as int]));
                    assert forall|k: int| 0 <= k < acc.len() implies full_codes[k]
                        != spec_code_str(hs@[i as int]) by {
                        assert(full_codes[k] == acc[k]);
                    }
                    lemma_sc_code_index_unique(
                        full_codes,
                        spec_code_str(hs@[i as int]),
                        acc.len() as int,
                        0,
                    );
                }
                seen.push(code.clone());
                rules.push(sc_rule(&code));
                proof {
                    acc = acc.push(spec_code_str(hs@[i as int]));
                }
                ix
            },
        };
        let level = match shellcheck_level(&h.level) {
            Some(lv) => lv,
            None => {
                return Err(ShellcheckError::UnknownLevel);
            },
        };
        #[verifier::truncate]
        let rule_index: i64 = ix as i64;
        let mut related: Vec<Location> = Vec::new();
        let mut fixes: Vec<Fix> = Vec::new();
        match &h.fix {
            Some(f) => {
                let mut r: usize = 0;
                while r < f.replacements.len()
                    invariant
                        r <= f.replacements@.len(),
                        related@.len() == r,
                        fixes@.len() == r,
                        *h == hs@[i as int],
                        i < hs@.len(),
                        h.fix is Some,
                        f.replacements@ == h.fix->0.replacements@,
                        forall|k: int|
                            0 <= k < r ==> spec_sc_location(
                                #[trigger] related@[k],
                                h.file@,
                                f.replacements@[k].line,
                                f.replacements@[k].column,
                                f.replacements@[k].end_line,
                                f.replacements@[k].end_column,
                            ),
                        forall|k: int|
                            0 <= k < r ==> {
                                let fx = #[trigger] fixes@[k];
                                fx.description is Some && fx.description->0.text@
                                    == f.replacements@[k].replacement@
                            },
                    decreases f.replacements@.len() - r,
                {
                    let rep = &f.replacements[r];
                    related.push(
                        sc_location(&h.file, rep.line, rep.column, rep.end_line, rep.end_column),
                    );
                    fixes.push(
                        Fix {
                            description: Some(
                                MultiformatMessageString { text: rep.replacement.clone() },
                            ),
                        },
                    );
                    r = r + 1;
                }
            },
            None => {},
        }
        let mut locations: Vec<Location> = Vec::new();
        locations.push(sc_location(&h.file, h.line, h.column, h.end_line, h.end_column));
        results.push(
            SarifResult {
                rule_id: Some(code),
                rule_index: Some(rule_index),
                rule: None,
                level: Some(String::from_str(level.as_str())),
                kind: None,
                message: Message { text: Some(h.message.clone()), id: None },
                locations: Some(locations),
                related_locations: Some(related),
                fixes: Some(fixes),
                provenance: None,
            },
        );
        i = i + 1;
    }
    let driver = ToolComponent {
        name: String::from_str("shellcheck"),
        information_uri: None,
        rules: Some(rules),
        global_message_strings: None,
    };
    let run = Run {
        tool: Tool { driver },
        results: Some(results),
        original_uri_base_ids: None,
        invocations: None,
    };
    let mut runs: Vec<Run> = Vec::new();
    runs.push(run);
    Ok(Sarif { version: String::from_str("2.1.0"), runs })
}

/// A replacement can be read off a value exactly when its seven fields
/// are present.
pub open spec fn spec_replacement_ok(v: serde_json::Value) -> bool {
    &&& crate::parse::spec_member_i64(v, "line"@) is Some
    &&& crate::parse::spec_member_i64(v, "endLine"@) is Some
    &&& crate::parse::spec_member_i64(v, "precedence"@) is Some
    &&& crate::parse::spec_member_str(v, "insertionPoint"@) is Some
    &&& crate::parse::spec_member_i64(v, "column"@) is Some
    &&& crate::parse::spec_member_str(v, "replacement"@) is Some
    &&& crate::parse::spec_member_i64(v, "endColumn"@) is Some
}

/// Whether a replacement is the one read off a value.
pub open spec fn spec_replacement_read(rep: ShellcheckReplacement, v: serde_json::Value) -> bool {
    &&& crate::parse::spec_member_i64(v, "line"@) == Some(rep.line)
    &&& crate::parse::spec_member_i64(v, "endLine"@) == Some(rep.end_line)
    &&& crate::parse::spec_member_i64(v, "precedence"@) == Some(rep.precedence)
    &&& crate::parse::spec_member_str(v, "insertionPoint"@) == Some(rep.insertion_point@)
    &&& crate::parse::spec_member_i64(v, "column"@) == Some(rep.column)
    &&& crate::parse::spec_member_str(v, "replacement"@) == Some(rep.replacement@)
    &&& crate::parse::spec_member_i64(v, "endColumn"@) == Some(rep.end_column)
}

/// Reads one replacement; every field of it is required.
fn parse_replacement(v: &serde_json::Value) -> (r: Result<ShellcheckReplacement, ShellcheckError>)
    ensures
        match r {
            Ok(rep) => spec_replacement_ok(*v) && spec_replacement_read(rep, *v),
            Err(e) => !spec_replacement_ok(*v) && e is MissingField,
        },
{
    let line = match crate::parse::field_i64(v, "line") {
        Some(n) => n,
        None => {
            return Err(ShellcheckError::MissingField("replacement line"));
        },
    };
    let end_line = match crate::parse::field_i64(v, "endLine") {
        Some(n) => n,
        None => {
            return Err(ShellcheckError::MissingField("replacement endLine"));
        },
    };
    let precedence = match crate::parse::field_i64(v, "precedence") {
        Some(n) => n,
        None => {
            return Err(ShellcheckError::MissingField("replacement precedence"));
        },
    };
    let insertion_point = match crate::parse::field_string(v, "insertionPoint") {
        Some(s) => s,
        None => {
            return Err(ShellcheckError::MissingField("replacement insertionPoint"));
        },
    };
    let column = match crate::parse::field_i64(v, "column") {
        Some(n) => n,
        None => {
            return Err(ShellcheckError::MissingField("replacement column"));
        },
    };
    let replacement = match crate::parse::field_string(v, "replacement") {
        Some(s) => s,
        None => {
            return Err(ShellcheckError::MissingField("replacement text"));
        },
    };
    let end_column = match crate::parse::field_i64(v, "endColumn") {
        Some(n) => n,
        None => {
            return Err(ShellcheckError::MissingField("replacement endColumn"));
        },
    };
    Ok(
        ShellcheckReplacement {
            line,
            end_line,
            precedence,
            insertion_point,
            column,
            replacement,
            end_column,
        },
    )
}

/// A proposed fix can be read off a value exactly when it holds a
/// replacements array whose elements can each be read as a replacement.
pub open spec fn spec_sc_fix_ok(fv: serde_json::Value) -> bool {
    &&& crate::parse::spec_json_field(fv, "replacements"@) is Some
    &&& crate::parse::spec_json_elements(
        crate::parse::spec_json_field(fv, "replacements"@)->0,
    ) is Some
    &&& forall|i: int|
        0 <= i < crate::parse::spec_json_elements(
            crate::parse::spec_json_field(fv, "replacements"@)->0,
        )->0.len() ==> spec_replacement_ok(
            #[trigger] crate::parse::spec_json_elements(
                crate::parse::spec_json_field(fv, "replacements"@)->0,
            )->0[i],
        )
}

/// A diagnostic can be read off a value exactly when its eight fields are
/// present and its fix member, unless absent or null, can be read.
pub open spec fn spec_sc_item_ok(v: serde_json::Value) -> bool {
    &&& crate::parse::spec_member_str(v, "file"@) is Some
    &&& crate::parse::spec_member_i64(v, "line"@) is Some
    &&& crate::parse::spec_member_i64(v, "endLine"@) is Some
    &&& crate::parse::spec_member_i64(v, "column"@) is Some
    &&& crate::parse::spec_member_i64(v, "endColumn"@) is Some
    &&& crate::parse::spec_member_str(v, "level"@) is Some
    &&& crate::parse::spec_member_i64(v, "code"@) is Some
    &&& crate::parse::spec_member_str(v, "message"@) is Some
    &&& match crate::parse::spec_json_field(v, "fix"@) {
        Some(fv) => crate::parse::spec_json_is_null(fv) || spec_sc_fix_ok(fv),
        None => true,
    }
}

/// Whether a diagnostic is the one read off a value, replacements
/// included.
pub open spec fn spec_sc_item_read(h: ShellcheckResult, v: serde_json::Value) -> bool {
    &&& crate::parse::spec_member_str(v, "file"@) == Some(h.file@)
    &&& crate::parse::spec_member_i64(v, "line"@) == Some(h.line)
    &&& crate::parse::spec_member_i64(v, "endLine"@) == Some(h.end_line)
    &&& crate::parse::spec_member_i64(v, "column"@) == Some(h.column)
    &&& crate::parse::spec_member_i64(v, "endColumn"@) == Some(h.end_column)
    &&& crate::parse::spec_member_str(v, "level"@) == Some(h.level@)
    &&& crate::parse::spec_member_i64(v, "code"@) == Some(h.code)
    &&& crate::parse::spec_member_str(v, "message"@) == Some(h.message@)
    &&& match crate::parse::spec_json_field(v, "fix"@) {
        Some(fv) => if crate::parse::spec_json_is_null(fv) {
            h.fix is None
        } else {
            &&& h.fix is Some
            &&& ({
                let es = crate::parse::spec_json_elements(
                    crate::parse::spec_json_field(fv, "replacements"@)->0,
                )->0;
                &&& h.fix->0.replacements@.len() == es.len()
                &&& forall|i: int|
                    0 <= i < es.len() ==> spec_replacement_read(
                        #[trigger] h.fix->0.replacements@[i],
                        es[i],
                    )
            })
        },
        None => h.fix is None,
    }
}

/// Reads one diagnostic; every field but the fix is required.
fn parse_shellcheck_result(v: &serde_json::Value) -> (r: Result<ShellcheckResult, ShellcheckError>)
    ensures
        match r {
            Ok(h) => spec_sc_item_ok(*v) && spec_sc_item_read(h, *v),
            Err(e) => !spec_sc_item_ok(*v) && e is MissingField,
        },
{
    let file = match crate::parse::field_string(v, "file") {
        Some(s) => s,
        None => {
            return Err(ShellcheckError::MissingField("file"));
        },
    };
    let line = match crate::parse::field_i64(v, "line") {
        Some(n) => n,
        None => {
            return Err(ShellcheckError::MissingField("line"));
        },
    };
    let end_line = match crate::parse::field_i64(v, "endLine") {
        Some(n) => n,
        None => {
            return Err(ShellcheckError::MissingField("endLine"));
        },
    };
    let column = match crate::parse::field_i64(v, "column") {
        Some(n) => n,
        None => {
            return Err(ShellcheckError::MissingField("column"));
        },
    };
    let end_column = match crate::parse::field_i64(v, "endColumn") {
        Some(n) => n,
        None => {
            return Err(ShellcheckError::MissingField("endColumn"));
        },
    };
    let level = match crate::parse::field_string(v, "level") {
        Some(s) => s,
        None => {
            return Err(ShellcheckError::MissingField("level"));
        },
    };
    let code = match crate::parse::field_i64(v, "code") {
        Some(n) => n,
        None => {
            return Err(ShellcheckError::MissingField("code"));
        },
    };
    let message = match crate::parse::field_string(v, "message") {
        Some(s) => s,
        None => {
            return Err(ShellcheckError::MissingField("message"));
        },
    };
    let fix: Option<ShellcheckFix> = match crate::parse::field(v, "fix") {
        Some(fv) if !crate::parse::is_null(fv) => {
            let arr = match crate::parse::field(fv, "replacements") {
                Some(rv) => match crate::parse::as_array(rv) {
                    Some(a) => a,
                    None => {
                        return Err(ShellcheckError::MissingField("fix replacements"));
                    },
                },
                None => {
                    return Err(ShellcheckError::MissingField("fix replacements"));
                },
            };
            let mut reps: Vec<ShellcheckReplacement> = Vec::new();
            let mut i: usize = 0;
            while i < arr.len()
                invariant
                    i <= arr@.len(),
                    crate::parse::spec_json_field(*v, "fix"@) is Some,
                    !crate::parse::spec_json_is_null(
                        crate::parse::spec_json_field(*v, "fix"@)->0,
                    ),
                    crate::parse::spec_json_field(
                        crate::parse::spec_json_field(*v, "fix"@)->0,
                        "replacements"@,
                    ) is Some,
                    crate::parse::spec_json_elements(
                        crate::parse::spec_json_field(
                            crate::parse::spec_json_field(*v, "fix"@)->0,
                            "replacements"@,
                        )->0,
                    ) == Some(arr@),
                    reps@.len() == i,
                    forall|k: int| 0 <= k < i ==> spec_replacement_ok(#[trigger] arr@[k]),
                    forall|k: int|
                        0 <= k < i ==> spec_replacement_read(#[trigger] reps@[k], arr@[k]),
                decreases arr@.len() - i,
            {
                match parse_replacement(&arr[i]) {
                    Ok(r) => reps.push(r),
                    Err(e) => {
                        proof {
                            assert(crate::parse::spec_json_elements(
                                crate::parse::spec_json_field(
                                    crate::parse::spec_json_field(*v, "fix"@)->0,
                                    "replacements"@,
                                )->0,
                            )->0[i as int] == arr@[i as int]);
                        }
                        return Err(e);
                    },
                }
                i = i + 1;
            }
            Some(ShellcheckFix { replacements: reps })
        },
        _ => None,
    };
    Ok(ShellcheckResult { file, line, end_line, column, end_column, level, code, message, fix })
}

/// The diagnostics array of the parsed root: the root itself, or, in the
/// `json1` format, the root's `comments` member.
pub open spec fn spec_sc_array(root: serde_json::Value, json1: bool) -> Option<
    Seq<serde_json::Value>,
> {
    if json1 {
        match crate::parse::spec_json_field(root, "comments"@) {
            Some(c) => crate::parse::spec_json_elements(c),
            None => None,
        }
    } else {
        crate::parse::spec_json_elements(root)
    }
}

/// The linter's output can be read exactly when the diagnostics array is
/// there and its elements can each be read as a diagnostic.
pub open spec fn spec_sc_input_ok(root: serde_json::Value, json1: bool) -> bool {
    &&& spec_sc_array(root, json1) is Some
    &&& forall|i: int|
        0 <= i < spec_sc_array(root, json1)->0.len() ==> spec_sc_item_ok(
            #[trigger] spec_sc_array(root, json1)->0[i],
        )
}

/// Reads the linter's output: a JSON array of diagnostics, or, in the
/// `json1` format, an object whose `comments` member holds that array.
fn parse_shellcheck(data: &str, format: &str) -> (r: Result<Vec<ShellcheckResult>, ShellcheckError>)
    ensures
        ({
            let json1 = format@ == "json1"@;
            match r {
                Ok(hs) => {
                    &&& crate::parse::spec_json_parse(data@) is Some
                    &&& spec_sc_input_ok(crate::parse::spec_json_parse(data@)->0, json1)
                    &&& ({
                        let es = spec_sc_array(crate::parse::spec_json_parse(data@)->0, json1)->0;
                        &&& hs@.len() == es.len()
                        &&& forall|k: int|
                            0 <= k < es.len() ==> spec_sc_item_read(#[trigger] hs@[k], es[k])
                    })
                },
                Err(e) => match e {
                    ShellcheckError::InvalidJson(_) => crate::parse::spec_json_parse(data@)
                        is None,
                    ShellcheckError::MissingField(_) => crate::parse::spec_json_parse(data@)
                        is Some && !spec_sc_input_ok(
                        crate::parse::spec_json_parse(data@)->0,
                        json1,
                    ),
                    ShellcheckError::UnknownLevel => false,
                },
            }
        }),
{
    let ghost json1 = format@ == "json1"@;
    let root = match crate::parse::parse_json_value(data) {
        Ok(v) => v,
        Err(m) => {
            return Err(ShellcheckError::InvalidJson(m));
        },
    };
    let arr = if str_eq(format, "json1") {
        match crate::parse::field(&root, "comments") {
            Some(c) => match crate::parse::as_array(c) {
                Some(a) => a,
                None => {
                    return Err(ShellcheckError::MissingField("comments"));
                },
            },
            None => {
                return Err(ShellcheckError::MissingField("comments"));
            },
        }
    } else {
        match crate::parse::as_array(&root) {
            Some(a) => a,
            None => {
                return Err(ShellcheckError::MissingField("diagnostics array"));
            },
        }
    };
    let mut hs: Vec<ShellcheckResult> = Vec::new();
    let mut i: usize = 0;
    while i < arr.len()
        invariant
            i <= arr@.len(),
            crate::parse::spec_json_parse(data@) == Some(root),
            spec_sc_array(root, json1) == Some(arr@),
            json1 == (format@ == "json1"@),
            hs@.len() == i,
            forall|k: int| 0 <= k < i ==> spec_sc_item_ok(#[trigger] arr@[k]),
            forall|k: int| 0 <= k < i ==> spec_sc_item_read(#[trigger] hs@[k], arr@[k]),
        decreases arr@.len() - i,
    {
        match parse_shellcheck_result(&arr[i]) {
            Ok(h) => hs.push(h),
            Err(e) => {
                proof {
                    assert(spec_sc_array(root, json1)->0[i as int] == arr@[i as int]);
                }
                return Err(e);
            },
        }
        i = i + 1;
    }
    Ok(hs)
}

/// Converts the linter's JSON output into an interchange document.
///
/// The result is a document exactly when the named JSON parse yields the
/// diagnostics array of the chosen format, every diagnostic can be read,
/// and every level is one of the linter's four; the document is then the
/// conversion, per [`convert`], of the diagnostics read off the array.
pub fn process(data: &str, format: &str) -> (r: Result<Sarif, ShellcheckError>)
    ensures
        ({
            let json1 = format@ == "json1"@;
            let root = crate::parse::spec_json_parse(data@);
            match r {
                Ok(s) => {
                    &&& root is Some
                    &&& spec_sc_input_ok(root->0, json1)
                    &&& exists|hs: Seq<ShellcheckResult>|
                        {
                            &&& #[trigger] spec_shellcheck_converted(s, hs)
                            &&& hs.len() == spec_sc_array(root->0, json1)->0.len()
                            &&& forall|k: int|
                                0 <= k < hs.len() ==> spec_sc_item_read(
                                    #[trigger] hs[k],
                                    spec_sc_array(root->0, json1)->0[k],
                                )
                        }
                },
                Err(e) => match e {
                    ShellcheckError::InvalidJson(_) => root is None,
                    ShellcheckError::MissingField(_) => root is Some && !spec_sc_input_ok(
                        root->0,
                        json1,
                    ),
                    ShellcheckError::UnknownLevel => root is Some && spec_sc_input_ok(
                        root->0,
                        json1,
                    ),
                },
            }
        }),
{
    let hs = match parse_shellcheck(data, format) {
        Ok(hs) => hs,
        Err(e) => {
            return Err(e);
        },
    };
    let r = convert(&hs);
    proof {
        match r {
            Ok(ref s) => {
                assert(spec_shellcheck_converted(*s, hs@));
            },
            Err(_) => {},
        }
    }
    r
}

} // verus!
