//! A converter for Dockerfile-linter output: turns the linter's JSON
//! diagnostics into an interchange document of the model.
//!
//! Each diagnostic carries a file, a 1-based line and column, a level, a
//! rule code and a message. The converter builds one run, named `hadolint`,
//! with one rule per distinct code (in order of first appearance) and one
//! result per diagnostic, referencing its rule by id and by index.

use vstd::prelude::*;
use vstd::string::StringExecFns;
use crate::sarif::{
    ArtifactLocation, Location, Message, MultiformatMessageString, PhysicalLocation, Region,
    ReportingDescriptor, ResultLevel, Run, Sarif, SarifResult, Tool, ToolComponent,
};
use crate::text::{str_eq, string_eq};

verus! {

/// One diagnostic of the linter's JSON output.
pub struct HadolintResult {
    pub file: String,
    pub line: i64,
    pub column: i64,
    pub level: String,
    pub code: String,
    pub message: String,
}

/// Why the linter's output could not be converted; fatal for the whole
/// input.
pub enum HadolintError {
    /// The input is not valid JSON; carries the parser's description.
    InvalidJson(String),
    /// A required field of a diagnostic is absent or of the wrong type.
    MissingField(&'static str),
    /// A diagnostic's level is none of `info`, `warning`, `error`, `style`.
    UnknownLevel,
}

/// The level of a linter diagnostic, mapped into the closed severity set:
/// `info` and `style` are notes.
pub open spec fn spec_hadolint_level(s: Seq<char>) -> Option<ResultLevel> {
    if s == "info"@ {
        Some(ResultLevel::Note)
    } else if s == "warning"@ {
        Some(ResultLevel::Warning)
    } else if s == "error"@ {
        Some(ResultLevel::Error)
    } else if s == "style"@ {
        Some(ResultLevel::Note)
    } else {
        None
    }
}

/// Maps a linter level string into the closed severity set.
pub fn hadolint_level(s: &String) -> (r: Option<ResultLevel>)
    ensures
        r == spec_hadolint_level(s@),
{
    if str_eq(s.as_str(), "info") {
        Some(ResultLevel::Note)
    } else if str_eq(s.as_str(), "warning") {
        Some(ResultLevel::Warning)
    } else if str_eq(s.as_str(), "error") {
        Some(ResultLevel::Error)
    } else if str_eq(s.as_str(), "style") {
        Some(ResultLevel::Note)
    } else {
        None
    }
}

/// The distinct rule codes of the diagnostics, in order of first
/// appearance, scanning from `i` with the codes `acc` already collected.
pub open spec fn spec_codes_from(hs: Seq<HadolintResult>, i: int, acc: Seq<Seq<char>>) -> Seq<
    Seq<char>,
>
    decreases hs.len() - i,
{
    if i < 0 || i >= hs.len() {
        acc
    } else if acc.contains(hs[i].code@) {
        spec_codes_from(hs, i + 1, acc)
    } else {
        spec_codes_from(hs, i + 1, acc.push(hs[i].code@))
    }
}

/// The rule catalog only grows while scanning: what was collected stays, in
/// place.
proof fn lemma_codes_prefix(hs: Seq<HadolintResult>, i: int, acc: Seq<Seq<char>>)
    ensures
        acc.len() <= spec_codes_from(hs, i, acc).len(),
        forall|k: int| 0 <= k < acc.len() ==> spec_codes_from(hs, i, acc)[k] == acc[k],
    decreases hs.len() - i,
{
    if !(i < 0 || i >= hs.len()) {
        if acc.contains(hs[i].code@) {
            lemma_codes_prefix(hs, i + 1, acc);
        } else {
            let pushed = acc.push(hs[i].code@);
            lemma_codes_prefix(hs, i + 1, pushed);
            assert(spec_codes_from(hs, i, acc) == spec_codes_from(hs, i + 1, pushed));
            assert forall|k: int| 0 <= k < acc.len() implies spec_codes_from(hs, i, acc)[k]
                == acc[k] by {
                assert(spec_codes_from(hs, i + 1, pushed)[k] == pushed[k]);
                assert(pushed[k] == acc[k]);
            }
        }
    }
}

/// The position of the first occurrence of a code in the catalog, scanning
/// from `from`.
pub open spec fn spec_code_index_from(codes: Seq<Seq<char>>, c: Seq<char>, from: int) -> Option<
    int,
>
    decreases codes.len() - from,
{
    if from < 0 || from >= codes.len() {
        None
    } else if codes[from] == c {
        Some(from)
    } else {
        spec_code_index_from(codes, c, from + 1)
    }
}

/// A position holding the code, with none before it, is what the
/// first-occurrence scan finds.
proof fn lemma_code_index_unique(codes: Seq<Seq<char>>, c: Seq<char>, ix: int)
    requires
        0 <= ix < codes.len(),
        codes[ix] == c,
        forall|k: int| 0 <= k < ix ==> codes[k] != c,
    ensures
        spec_code_index_from(codes, c, 0) == Some(ix),
{
    lemma_code_index_unique_from(codes, c, ix, 0);
}

/// The same, for a scan started anywhere at or before the position.
proof fn lemma_code_index_unique_from(codes: Seq<Seq<char>>, c: Seq<char>, ix: int, from: int)
    requires
        0 <= from <= ix < codes.len(),
        codes[ix] == c,
        forall|k: int| 0 <= k < ix ==> codes[k] != c,
    ensures
        spec_code_index_from(codes, c, from) == Some(ix),
    decreases ix - from,
{
    if from < ix {
        lemma_code_index_unique_from(codes, c, ix, from + 1);
    }
}

/// Whether a model location is the location of a linter diagnostic: its
/// file as the URI, its line and column as the region start, nothing else.
pub open spec fn spec_hadolint_location(h: HadolintResult, loc: Location) -> bool {
    &&& loc.message is None
    &&& loc.physical_location is Some
    &&& ({
        let p = loc.physical_location->0;
        &&& p.artifact_location is Some
        &&& p.artifact_location->0.uri is Some
        &&& p.artifact_location->0.uri->0@ == h.file@
        &&& p.artifact_location->0.uri_base_id is None
        &&& p.region is Some
        &&& ({
            let reg = p.region->0;
            &&& reg.start_line == Some(h.line)
            &&& reg.start_column == Some(h.column)
            &&& reg.byte_offset is None
            &&& reg.byte_length is None
            &&& reg.end_line is None
            &&& reg.end_column is None
        })
    })
}

/// Whether a rule of the built catalog describes a code: the code as its
/// id, name and short description, and the linter's wiki page for the code
/// as its full description.
pub open spec fn spec_hadolint_rule(rule: ReportingDescriptor, code: Seq<char>) -> bool {
    &&& rule.id@ == code
    &&& rule.name is Some && rule.name->0@ == code
    &&& rule.short_description is Some && rule.short_description->0.text@ == code
    &&& rule.full_description is Some && rule.full_description->0.text@
        == "For more information: https://github.com/hadolint/hadolint/wiki/"@ + code
    &&& rule.default_configuration is None
    &&& rule.help_uri is None
    &&& rule.message_strings is None
}

/// Whether a model result is the conversion of a linter diagnostic against
/// the catalog `codes`: its code as rule id and rule index, its mapped
/// level, its message, and its single location.
pub open spec fn spec_hadolint_result(out: SarifResult, h: HadolintResult, codes: Seq<Seq<char>>) -> bool {
    &&& out.rule_id is Some && out.rule_id->0@ == h.code@
    &&& out.rule_index is Some
    &&& match spec_code_index_from(codes, h.code@, 0) {
        Some(ix) => ix <= i64::MAX as int ==> out.rule_index->0 as int == ix,
        None => false,
    }
    &&& out.rule is None
    &&& out.level is Some
    &&& match spec_hadolint_level(h.level@) {
        Some(lv) => out.level->0@ == lv.spec_str(),
        None => false,
    }
    &&& out.kind is None
    &&& out.message.text is Some && out.message.text->0@ == h.message@
    &&& out.message.id is None
    &&& out.locations is Some && out.locations->0@.len() == 1 && spec_hadolint_location(
        h,
        out.locations->0@[0],
    )
    &&& out.related_locations is None
    &&& out.provenance is None
}

/// The position of a code in the catalog built so far, by content.
fn find_code(seen: &Vec<String>, code: &String) -> (r: Option<usize>)
    ensures
        match r {
            Some(j) => j < seen@.len() && (#[trigger] seen@[j as int])@ == code@ && forall|k: int|
                0 <= k < j ==> (#[trigger] seen@[k])@ != code@,
            None => forall|k: int| 0 <= k < seen@.len() ==> (#[trigger] seen@[k])@ != code@,
        },
{
    let mut j: usize = 0;
    while j < seen.len()
        invariant
            j <= seen@.len(),
            forall|k: int| 0 <= k < j ==> (#[trigger] seen@[k])@ != code@,
        decreases seen@.len() - j,
    {
        if string_eq(&seen[j], code) {
            return Some(j);
        }
        j = j + 1;
    }
    None
}

/// Builds the location of one diagnostic.
fn location_from(h: &HadolintResult) -> (loc: Location)
    ensures
        spec_hadolint_location(*h, loc),
{
    Location {
        physical_location: Some(
            PhysicalLocation {
                artifact_location: Some(
                    ArtifactLocation { uri: Some(h.file.clone()), uri_base_id: None },
                ),
                region: Some(
                    Region {
                        byte_offset: None,
                        byte_length: None,
                        start_line: Some(h.line),
                        start_column: Some(h.column),
                        end_line: None,
                        end_column: None,
                    },
                ),
            },
        ),
        message: None,
    }
}

/// Builds the rule describing one code.
fn rule_from(code: &String) -> (rule: ReportingDescriptor)
    ensures
        spec_hadolint_rule(rule, code@),
{
    ReportingDescriptor {
        id: code.clone(),
        name: Some(code.clone()),
        short_description: Some(MultiformatMessageString { text: code.clone() }),
        full_description: Some(
            MultiformatMessageString {
                text: String::from_str(
                    "For more information: https://github.com/hadolint/hadolint/wiki/",
                ).concat(code.as_str()),
            },
        ),
        default_configuration: None,
        help_uri: None,
        message_strings: None,
    }
}

/// Converts parsed linter diagnostics into an interchange document: one
/// run named `hadolint`, one rule per distinct code in order of first
/// appearance, one result per diagnostic in order. Fails only on a level
/// outside the linter's four.
/// Whether a document is the conversion of a sequence of diagnostics:
/// one run named `hadolint`, one rule per distinct code in order of first
/// appearance, one result per diagnostic in order.
pub open spec fn spec_hadolint_converted(s: Sarif, hs: Seq<HadolintResult>) -> bool {
    let codes = spec_codes_from(hs, 0, Seq::empty());
    &&& s.version@ == "2.1.0"@
    &&& s.runs@.len() == 1
    &&& ({
        let run = s.runs@[0];
        &&& run.tool.driver.name@ == "hadolint"@
        &&& run.tool.driver.global_message_strings is None
        &&& run.original_uri_base_ids is None
        &&& run.invocations is None
        &&& run.tool.driver.rules is Some
        &&& run.tool.driver.rules->0@.len() == codes.len()
        &&& forall|k: int|
            0 <= k < codes.len() ==> spec_hadolint_rule(
                #[trigger] run.tool.driver.rules->0@[k],
                codes[k],
            )
        &&& run.results is Some
        &&& run.results->0@.len() == hs.len()
        &&& forall|k: int|
            0 <= k < hs.len() ==> spec_hadolint_result(
                #[trigger] run.results->0@[k],
                hs[k],
                codes,
            )
    })
}

pub fn convert(hs: &Vec<HadolintResult>) -> (r: Result<Sarif, HadolintError>)
    ensures
        match r {
            Ok(s) => spec_hadolint_converted(s, hs@),
            Err(e) => e is UnknownLevel && exists|k: int|
                0 <= k < hs@.len() && spec_hadolint_level((#[trigger] hs@[k]).level@) is None,
        },
{
    let ghost full_codes = spec_codes_from(hs@, 0, Seq::<Seq<char>>::empty());
    let ghost mut acc: Seq<Seq<char>> = Seq::empty();
    let mut seen: Vec<String> = Vec::new();
    let mut rules: Vec<ReportingDescriptor> = Vec::new();
    let mut results: Vec<SarifResult> = Vec::new();
    let mut i: usize = 0;
    while i < hs.len()
        invariant
            i <= hs@.len(),
            full_codes == spec_codes_from(hs@, 0, Seq::<Seq<char>>::empty()),
            spec_codes_from(hs@, i as int, acc) == full_codes,
            seen@.len() == acc.len(),
            forall|k: int| 0 <= k < acc.len() ==> (#[trigger] seen@[k])@ == acc[k],
            rules@.len() == acc.len(),
            forall|k: int|
                0 <= k < acc.len() ==> spec_hadolint_rule(#[trigger] rules@[k], acc[k]),
            acc.len() <= full_codes.len(),
            forall|k: int| 0 <= k < acc.len() ==> full_codes[k] == acc[k],
            results@.len() == i,
            forall|k: int|
                0 <= k < i ==> spec_hadolint_result(#[trigger] results@[k], hs@[k], full_codes),
        decreases hs@.len() - i,
    {
        let h = &hs[i];
        let ix: usize = match find_code(&seen, &h.code) {
            Some(ix) => {
                proof {
                    assert(acc[ix as int] == h.code@);
                    assert forall|k: int| 0 <= k < ix implies acc[k] != h.code@ by {
                        assert(seen@[k]@ == acc[k]);
                    }
                    assert(forall|k: int| 0 <= k <= ix ==> full_codes[k] == acc[k]);
                    lemma_code_index_unique(full_codes, h.code@, ix as int);
                }
                ix
            },
            None => {
                let ix = seen.len();
                proof {
                    assert forall|k: int| 0 <= k < acc.len() implies acc[k] != h.code@ by {
                        assert(seen@[k]@ == acc[k]);
                    }
                    assert(!acc.contains(h.code@));
                    let pushed = acc.push(h.code@);
                    assert(spec_codes_from(hs@, i as int, acc) == spec_codes_from(
                        hs@,
                        i as int + 1,
                        pushed,
                    ));
                    lemma_codes_prefix(hs@, i as int + 1, pushed);
                    assert(spec_codes_from(hs@, i as int + 1, pushed)[acc.len() as int]
                        == pushed[acc.len() as int]);
                    assert(full_codes[acc.len() as int] == h.code@);
                    assert forall|k: int| 0 <= k < acc.len() implies full_codes[k] != h.code@ by {
                        assert(full_codes[k] == acc[k]);
                    }
                    lemma_code_index_unique(full_codes, h.code@, acc.len() as int);
                }
                seen.push(h.code.clone());
                rules.push(rule_from(&h.code));
                proof {
                    acc = acc.push(h.code@);
                }
                ix
            },
        };
        let level = match hadolint_level(&h.level) {
            Some(lv) => lv,
            None => {
                return Err(HadolintError::UnknownLevel);
            },
        };
        #[verifier::truncate]
        let rule_index: i64 = ix as i64;
        let mut locations: Vec<Location> = Vec::new();
        locations.push(location_from(h));
        results.push(
            SarifResult {
                rule_id: Some(h.code.clone()),
                rule_index: Some(rule_index),
                rule: None,
                level: Some(String::from_str(level.as_str())),
                kind: None,
                message: Message { text: Some(h.message.clone()), id: None },
                locations: Some(locations),
                related_locations: None,
                fixes: None,
                provenance: None,
            },
        );
        i = i + 1;
    }
    proof {
        assert(acc == full_codes);
    }
    let driver = ToolComponent {
        name: String::from_str("hadolint"),
        information_uri: None,
        rules: Some(rules),
        global_message_strings: None,
    };
    let run = Run {
        tool: Tool { driver },
        results: Some(results),
        original_uri_base_ids: None,
        invocations: None,
    };
    let mut runs: Vec<Run> = Vec::new();
    runs.push(run);
    Ok(Sarif { version: String::from_str("2.1.0"), runs })
}

/// A diagnostic can be read off a value exactly when its six fields are
/// present: four strings and two integers.
pub open spec fn spec_hadolint_item_ok(v: serde_json::Value) -> bool {
    &&& crate::parse::spec_member_str(v, "file"@) is Some
    &&& crate::parse::spec_member_i64(v, "line"@) is Some
    &&& crate::parse::spec_member_i64(v, "column"@) is Some
    &&& crate::parse::spec_member_str(v, "level"@) is Some
    &&& crate::parse::spec_member_str(v, "code"@) is Some
    &&& crate::parse::spec_member_str(v, "message"@) is Some
}

/// Whether a diagnostic is the one read off a value.
pub open spec fn spec_hadolint_read(h: HadolintResult, v: serde_json::Value) -> bool {
    &&& crate::parse::spec_member_str(v, "file"@) == Some(h.file@)
    &&& crate::parse::spec_member_i64(v, "line"@) == Some(h.line)
    &&& crate::parse::spec_member_i64(v, "column"@) == Some(h.column)
    &&& crate::parse::spec_member_str(v, "level"@) == Some(h.level@)
    &&& crate::parse::spec_member_str(v, "code"@) == Some(h.code@)
    &&& crate::parse::spec_member_str(v, "message"@) == Some(h.message@)
}

/// The linter's output can be read exactly when the parsed root is an
/// array whose elements can each be read as a diagnostic.
pub open spec fn spec_hadolint_input_ok(root: serde_json::Value) -> bool {
    &&& crate::parse::spec_json_elements(root) is Some
    &&& forall|i: int|
        0 <= i < crate::parse::spec_json_elements(root)->0.len() ==> spec_hadolint_item_ok(
            #[trigger] crate::parse::spec_json_elements(root)->0[i],
        )
}

/// Reads the linter's output, through the parsing wrappers, as a JSON
/// array of diagnostics, each with its six required fields.
fn parse_hadolint(data: &str) -> (r: Result<Vec<HadolintResult>, HadolintError>)
    ensures
        match r {
            Ok(hs) => {
                &&& crate::parse::spec_json_parse(data@) is Some
                &&& spec_hadolint_input_ok(crate::parse::spec_json_parse(data@)->0)
                &&& ({
                    let es = crate::parse::spec_json_elements(
                        crate::parse::spec_json_parse(data@)->0,
                    )->0;
                    &&& hs@.len() == es.len()
                    &&& forall|k: int|
                        0 <= k < es.len() ==> spec_hadolint_read(#[trigger] hs@[k], es[k])
                })
            },
            Err(e) => match e {
                HadolintError::InvalidJson(_) => crate::parse::spec_json_parse(data@) is None,
                HadolintError::MissingField(_) => crate::parse::spec_json_parse(data@) is Some
                    && !spec_hadolint_input_ok(crate::parse::spec_json_parse(data@)->0),
                HadolintError::UnknownLevel => false,
            },
        },
{
    let root = match crate::parse::parse_json_value(data) {
        Ok(v) => v,
        Err(m) => {
            return Err(HadolintError::InvalidJson(m));
        },
    };
    let arr = match crate::parse::as_array(&root) {
        Some(a) => a,
        None => {
            return Err(HadolintError::MissingField("diagnostics array"));
        },
    };
    let mut hs: Vec<HadolintResult> = Vec::new();
    let mut i: usize = 0;
    while i < arr.len()
        invariant
            i <= arr@.len(),
            crate::parse::spec_json_parse(data@) == Some(root),
            crate::parse::spec_json_elements(root) == Some(arr@),
            hs@.len() == i,
            forall|k: int| 0 <= k < i ==> spec_hadolint_item_ok(#[trigger] arr@[k]),
            forall|k: int| 0 <= k < i ==> spec_hadolint_read(#[trigger] hs@[k], arr@[k]),
        decreases arr@.len() - i,
    {
        match parse_hadolint_item(&arr[i]) {
            Ok(h) => hs.push(h),
            Err(e) => {
                proof {
                    assert(crate::parse::spec_json_elements(root)->0[i as int] == arr@[i as int]);
                }
                return Err(e);
            },
        }
        i = i + 1;
    }
    Ok(hs)
}

/// Reads one diagnostic off a value; each of its six fields is required.
fn parse_hadolint_item(v: &serde_json::Value) -> (r: Result<HadolintResult, HadolintError>)
    ensures
        match r {
            Ok(h) => spec_hadolint_item_ok(*v) && spec_hadolint_read(h, *v),
            Err(e) => !spec_hadolint_item_ok(*v) && e is MissingField,
        },
{
    let file = match crate::parse::field_string(v, "file") {
        Some(s) => s,
        None => {
            return Err(HadolintError::MissingField("file"));
        },
    };
    let line = match crate::parse::field_i64(v, "line") {
        Some(n) => n,
        None => {
            return Err(HadolintError::MissingField("line"));
        },
    };
    let column = match crate::parse::field_i64(v, "column") {
        Some(n) => n,
        None => {
            return Err(HadolintError::MissingField("column"));
        },
    };
    let level = match crate::parse::field_string(v, "level") {
        Some(s) => s,
        None => {
            return Err(HadolintError::MissingField("level"));
        },
    };
    let code = match crate::parse::field_string(v, "code") {
        Some(s) => s,
        None => {
            return Err(HadolintError::MissingField("code"));
        },
    };
    let message = match crate::parse::field_string(v, "message") {
        Some(s) => s,
        None => {
            return Err(HadolintError::MissingField("message"));
        },
    };
    Ok(HadolintResult { file, line, column, level, code, message })
}

/// Converts the linter's JSON output into an interchange document.
///
/// The result is a document exactly when the named JSON parse yields an
/// array of diagnostics with their six fields and every level is one of
/// the linter's four; the document is then the conversion, per
/// [`convert`], of the diagnostics read off the array.
pub fn process(data: &str) -> (r: Result<Sarif, HadolintError>)
    ensures
        ({
            let root = crate::parse::spec_json_parse(data@);
            match r {
                Ok(s) => {
                    &&& root is Some
                    &&& spec_hadolint_input_ok(root->0)
                    &&& exists|hs: Seq<HadolintResult>|
                        {
                            &&& #[trigger] spec_hadolint_converted(s, hs)
                            &&& hs.len() == crate::parse::spec_json_elements(root->0)->0.len()
                            &&& forall|k: int|
                                0 <= k < hs.len() ==> spec_hadolint_read(
                                    #[trigger] hs[k],
                                    crate::parse::spec_json_elements(root->0)->0[k],
                                )
                        }
                },
                Err(e) => match e {
                    HadolintError::InvalidJson(_) => root is None,
                    HadolintError::MissingField(_) => root is Some && !spec_hadolint_input_ok(
                        root->0,
                    ),
                    HadolintError::UnknownLevel => root is Some && spec_hadolint_input_ok(root->0)
                        && exists|k: int|
                        {
                            &&& 0 <= k < crate::parse::spec_json_elements(
                                crate::parse::spec_json_parse(data@)->0,
                            )->0.len()
                            &&& spec_hadolint_level(
                                crate::parse::spec_member_str(
                                    #[trigger] crate::parse::spec_json_elements(
                                        crate::parse::spec_json_parse(data@)->0,
                                    )->0[k],
                                    "level"@,
                                )->0,
                            ) is None
                        },
                },
            }
        }),
{
    let hs = match parse_hadolint(data) {
        Ok(hs) => hs,
        Err(e) => {
            return Err(e);
        },
    };
    let r = convert(&hs);
    proof {
        match r {
            Ok(ref s) => {
                assert(spec_hadolint_converted(*s, hs@));
            },
            Err(_) => {},
        }
    }
    r
}

} // verus!
