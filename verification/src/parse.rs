//! Parsing of the interchange document: UTF-8 JSON text to the model of
//! [`crate::sarif`].
//!
//! JSON reading itself is delegated to `serde_json` behind trusted
//! wrappers. Each wrapper's verdict is given a name — an uninterpreted
//! spec function standing for what the call returns, a function of the
//! value alone — and everything on top is verified against those names:
//! which fields exist, which are required, how open strings and tables are
//! represented. [`process`] returns a document exactly when the named
//! parse succeeds and the few required fields are present, and the
//! document it returns is the model read off the named tree.
//!
//! The parser is permissive, as the format is in the wild: a malformed
//! document (not JSON, or a required field missing or mistyped) is a fatal
//! error; an optional field of an unexpected type is treated as absent.

use vstd::prelude::*;
use crate::sarif::{
    ArtifactLocation, ConfigurationOverride, Fix, Invocation, Location, Message, MessageString,
    MultiformatMessageString, PhysicalLocation, Region, ReportingConfiguration,
    ReportingDescriptor, ReportingDescriptorReference, ResultProvenance, Run, Sarif, SarifResult,
    Tool, ToolComponent, UriBase,
};

verus! {

/// Why a document could not be parsed; fatal for the whole input.
pub enum ParseError {
    /// The input is not valid JSON; carries the parser's description.
    InvalidJson(String),
    /// A required field is absent or of the wrong type; carries its name.
    MissingField(&'static str),
}

impl ParseError {
    /// A human-readable description of the failure.
    pub fn message(&self) -> (r: String)
        ensures
            match *self {
                ParseError::InvalidJson(ref m) => r@ == "invalid JSON: "@ + m@,
                ParseError::MissingField(f) => r@ == "missing or mistyped field: "@ + f@,
            },
    {
        match self {
            ParseError::InvalidJson(m) => {
                vstd::string::StringExecFns::concat(
                    <String as vstd::string::StringExecFns>::from_str("invalid JSON: "),
                    m.as_str(),
                )
            },
            ParseError::MissingField(f) => {
                vstd::string::StringExecFns::concat(
                    <String as vstd::string::StringExecFns>::from_str(
                        "missing or mistyped field: ",
                    ),
                    f,
                )
            },
        }
    }
}

#[verifier::external_type_specification]
#[verifier::external_body]
pub struct ExValue(serde_json::Value);

/// What `serde_json::from_str::<Value>` yields on a text: the parsed JSON
/// value, or nothing when the text is not JSON the parser accepts. The
/// verdict depends on the text alone.
pub uninterp spec fn spec_json_parse(s: Seq<char>) -> Option<serde_json::Value>;

/// What `Value::get` yields: the member of a JSON object under a key, or
/// nothing when the value is no object or lacks the key. A function of the
/// value and the key alone.
pub uninterp spec fn spec_json_field(v: serde_json::Value, key: Seq<char>) -> Option<
    serde_json::Value,
>;

/// What `Value::is_null` yields: whether the value is the JSON null.
pub uninterp spec fn spec_json_is_null(v: serde_json::Value) -> bool;

/// What `Value::as_str` yields: the content of a JSON string value, or
/// nothing for any other value.
pub uninterp spec fn spec_json_str(v: serde_json::Value) -> Option<Seq<char>>;

/// What `Value::as_i64` yields: the content of a JSON number value when it
/// is an integer of 64 signed bits, or nothing otherwise.
pub uninterp spec fn spec_json_i64(v: serde_json::Value) -> Option<i64>;

/// What `Value::as_array` yields: the elements of a JSON array value, in
/// order, or nothing for any other value.
pub uninterp spec fn spec_json_elements(v: serde_json::Value) -> Option<Seq<serde_json::Value>>;

/// What `Value::as_object` yields, walked with `Map::iter`: the members of
/// a JSON object value, each key with its value, in the map's (sorted)
/// order, or nothing for any other value.
pub uninterp spec fn spec_json_members(v: serde_json::Value) -> Option<
    Seq<(Seq<char>, serde_json::Value)>,
>;

/// Relies on `serde_json::from_str::<Value>`: parses UTF-8 JSON text into
/// a tree of JSON values, or reports why the text is not valid JSON.
#[verifier::external_body]
pub(crate) fn parse_json_value(s: &str) -> (r: Result<serde_json::Value, String>)
    ensures
        match r {
            Ok(v) => spec_json_parse(s@) == Some(v),
            Err(_) => spec_json_parse(s@) is None,
        },
{
    match serde_json::from_str::<serde_json::Value>(s) {
        Ok(v) => Ok(v),
        Err(e) => Err(e.to_string()),
    }
}

/// Relies on `Value::get`: the member of a JSON object under the key, when
/// the value is an object that has it.
#[verifier::external_body]
pub(crate) fn field<'a>(v: &'a serde_json::Value, key: &str) -> (r: Option<&'a serde_json::Value>)
    ensures
        match r {
            Some(f) => spec_json_field(*v, key@) == Some(*f),
            None => spec_json_field(*v, key@) is None,
        },
{
    v.get(key)
}

/// Relies on `Value::is_null`: whether the value is the JSON null.
#[verifier::external_body]
pub(crate) fn is_null(v: &serde_json::Value) -> (r: bool)
    ensures
        r == spec_json_is_null(*v),
{
    v.is_null()
}

/// Relies on `Value::as_str`: the content of a JSON string value.
#[verifier::external_body]
fn value_as_string(v: &serde_json::Value) -> (r: Option<String>)
    ensures
        match r {
            Some(s) => spec_json_str(*v) == Some(s@),
            None => spec_json_str(*v) is None,
        },
{
    match v.as_str() {
        Some(s) => Some(s.to_string()),
        None => None,
    }
}

/// Relies on `Value::as_i64`: the content of a JSON number value, when it
/// is an integer that fits 64 signed bits.
#[verifier::external_body]
fn value_as_i64(v: &serde_json::Value) -> (r: Option<i64>)
    ensures
        r == spec_json_i64(*v),
{
    v.as_i64()
}

/// Relies on `Value::as_array`: the elements of a JSON array value.
#[verifier::external_body]
pub(crate) fn as_array<'a>(v: &'a serde_json::Value) -> (r: Option<&'a Vec<serde_json::Value>>)
    ensures
        match r {
            Some(a) => spec_json_elements(*v) == Some(a@),
            None => spec_json_elements(*v) is None,
        },
{
    v.as_array()
}

/// Relies on `Value::as_object` and `Map::iter`: the members of a JSON
/// object value, each key paired with its value, in the map's order.
#[verifier::external_body]
fn value_object_entries(v: &serde_json::Value) -> (r: Option<Vec<(String, serde_json::Value)>>)
    ensures
        match r {
            Some(es) => spec_json_members(*v) is Some && spec_json_members(*v)->0.len()
                == es@.len() && forall|i: int|
                0 <= i < es@.len() ==> spec_json_members(*v)->0[i]
                    == ((#[trigger] es@[i]).0@, es@[i].1),
            None => spec_json_members(*v) is None,
        },
{
    match v.as_object() {
        Some(m) => Some(m.iter().map(|(k, val)| (k.clone(), val.clone())).collect()),
        None => None,
    }
}

/// The string member of an object under a key, when present and a string.
pub open spec fn spec_member_str(v: serde_json::Value, key: Seq<char>) -> Option<Seq<char>> {
    match spec_json_field(v, key) {
        Some(f) => spec_json_str(f),
        None => None,
    }
}

/// The integer member of an object under a key, when present and an
/// integer.
pub open spec fn spec_member_i64(v: serde_json::Value, key: Seq<char>) -> Option<i64> {
    match spec_json_field(v, key) {
        Some(f) => spec_json_i64(f),
        None => None,
    }
}

/// Whether an optional owned string reads an optional named string.
pub open spec fn spec_opt_string_is(o: Option<String>, s: Option<Seq<char>>) -> bool {
    match (o, s) {
        (Some(x), Some(y)) => x@ == y,
        (None, None) => true,
        _ => false,
    }
}

/// Reads the string member of an object under a key.
pub(crate) fn field_string(v: &serde_json::Value, key: &str) -> (r: Option<String>)
    ensures
        spec_opt_string_is(r, spec_member_str(*v, key@)),
{
    match field(v, key) {
        Some(f) => value_as_string(f),
        None => None,
    }
}

/// Reads the integer member of an object under a key.
pub(crate) fn field_i64(v: &serde_json::Value, key: &str) -> (r: Option<i64>)
    ensures
        r == spec_member_i64(*v, key@),
{
    match field(v, key) {
        Some(f) => value_as_i64(f),
        None => None,
    }
}

/// Whether a message is the one read off a message object: its literal
/// text and its message id.
pub open spec fn spec_message_read(m: Message, v: serde_json::Value) -> bool {
    &&& spec_opt_string_is(m.text, spec_member_str(v, "text"@))
    &&& spec_opt_string_is(m.id, spec_member_str(v, "id"@))
}

/// Reads a message object: literal text and/or a message id.
fn parse_message(v: &serde_json::Value) -> (m: Message)
    ensures
        spec_message_read(m, *v),
{
    Message { text: field_string(v, "text"), id: field_string(v, "id") }
}

/// Whether an optional message string is the one read off a value's text
/// member: present exactly when the text is.
pub open spec fn spec_mfms_read(m: Option<MultiformatMessageString>, v: serde_json::Value) -> bool {
    match m {
        Some(x) => spec_member_str(v, "text"@) == Some(x.text@),
        None => spec_member_str(v, "text"@) is None,
    }
}

/// Whether an optional message string is the one read off an optional
/// member value; absent member, absent string.
pub open spec fn spec_opt_mfms_read(
    m: Option<MultiformatMessageString>,
    fv: Option<serde_json::Value>,
) -> bool {
    match fv {
        Some(dv) => spec_mfms_read(m, dv),
        None => m is None,
    }
}

/// Reads a multi-format message string; only its plain text is kept.
fn parse_mfms(v: &serde_json::Value) -> (m: Option<MultiformatMessageString>)
    ensures
        spec_mfms_read(m, *v),
{
    match field_string(v, "text") {
        Some(text) => Some(MultiformatMessageString { text }),
        None => None,
    }
}

/// The message-string table read off an object's members, scanning from
/// `i`: one `(name, text)` entry per member whose value carries text.
pub open spec fn spec_msgs_from(ms: Seq<(Seq<char>, serde_json::Value)>, i: int) -> Seq<
    (Seq<char>, Seq<char>),
>
    decreases ms.len() - i,
{
    if i < 0 || i >= ms.len() {
        Seq::empty()
    } else {
        let rest = spec_msgs_from(ms, i + 1);
        match spec_member_str(ms[i].1, "text"@) {
            Some(t) => seq![(ms[i].0, t)] + rest,
            None => rest,
        }
    }
}

/// Whether an optional table is the one read off a value: the members'
/// `(name, text)` entries when the value is an object, absent otherwise.
pub open spec fn spec_msgtable_read(
    t: Option<Vec<MessageString>>,
    v: serde_json::Value,
) -> bool {
    match spec_json_members(v) {
        Some(ms) => {
            let full = spec_msgs_from(ms, 0);
            &&& t is Some
            &&& t->0@.len() == full.len()
            &&& forall|i: int|
                0 <= i < full.len() ==> (#[trigger] t->0@[i]).id@ == full[i].0 && t->0@[i].text@
                    == full[i].1
        },
        None => t is None,
    }
}

/// Reads a message-string table: one entry per member whose value carries
/// text; members without text are dropped.
fn parse_message_strings(v: &serde_json::Value) -> (t: Option<Vec<MessageString>>)
    ensures
        spec_msgtable_read(t, *v),
{
    let entries = match value_object_entries(v) {
        Some(e) => e,
        None => {
            return None;
        },
    };
    let ghost ms = spec_json_members(*v)->0;
    let ghost full = spec_msgs_from(ms, 0);
    let ghost mut done: Seq<(Seq<char>, Seq<char>)> = Seq::empty();
    let mut table: Vec<MessageString> = Vec::new();
    let mut i: usize = 0;
    proof {
        assert(done + spec_msgs_from(ms, 0) =~= full);
    }
    while i < entries.len()
        invariant
            i <= entries@.len(),
            entries@.len() == ms.len(),
            forall|k: int|
                0 <= k < ms.len() ==> ms[k] == ((#[trigger] entries@[k]).0@, entries@[k].1),
            full == spec_msgs_from(ms, 0),
            done + spec_msgs_from(ms, i as int) =~= full,
            table@.len() == done.len(),
            forall|k: int|
                0 <= k < done.len() ==> (#[trigger] table@[k]).id@ == done[k].0 && table@[k].text@
                    == done[k].1,
        decreases entries@.len() - i,
    {
        let (ref id, ref val) = entries[i];
        match field_string(val, "text") {
            Some(text) => {
                let ghost tup = (ms[i as int].0, spec_member_str(ms[i as int].1, "text"@)->0);
                proof {
                    assert(spec_msgs_from(ms, i as int) == seq![tup] + spec_msgs_from(
                        ms,
                        i as int + 1,
                    ));
                    assert(done.push(tup) + spec_msgs_from(ms, i as int + 1) =~= done + (seq![tup]
                        + spec_msgs_from(ms, i as int + 1)));
                    done = done.push(tup);
                }
                table.push(MessageString { id: id.clone(), text });
            },
            None => {},
        }
        i = i + 1;
    }
    Some(table)
}

/// Whether a reporting configuration is the one read off a value: its
/// level string.
pub open spec fn spec_config_read(c: ReportingConfiguration, v: serde_json::Value) -> bool {
    spec_opt_string_is(c.level, spec_member_str(v, "level"@))
}

/// Reads a reporting configuration: only its level is of interest, kept as
/// the open string of the document.
fn parse_reporting_configuration(v: &serde_json::Value) -> (c: ReportingConfiguration)
    ensures
        spec_config_read(c, *v),
{
    ReportingConfiguration { level: field_string(v, "level") }
}

/// A reporting descriptor can be read off a value exactly when the value
/// carries a string id.
pub open spec fn spec_rd_ok(v: serde_json::Value) -> bool {
    spec_member_str(v, "id"@) is Some
}

/// Whether a reporting descriptor is the one read off a value.
pub open spec fn spec_rd_read(rd: ReportingDescriptor, v: serde_json::Value) -> bool {
    &&& spec_member_str(v, "id"@) == Some(rd.id@)
    &&& spec_opt_string_is(rd.name, spec_member_str(v, "name"@))
    &&& spec_opt_mfms_read(rd.short_description, spec_json_field(v, "shortDescription"@))
    &&& spec_opt_mfms_read(rd.full_description, spec_json_field(v, "fullDescription"@))
    &&& match (rd.default_configuration, spec_json_field(v, "defaultConfiguration"@)) {
        (Some(c), Some(cv)) => spec_config_read(c, cv),
        (None, None) => true,
        _ => false,
    }
    &&& spec_opt_string_is(rd.help_uri, spec_member_str(v, "helpUri"@))
    &&& match spec_json_field(v, "messageStrings"@) {
        Some(mv) => spec_msgtable_read(rd.message_strings, mv),
        None => rd.message_strings is None,
    }
}

/// Reads a reporting descriptor; its stable id is required.
fn parse_reporting_descriptor(v: &serde_json::Value) -> (r: Result<ReportingDescriptor, ParseError>)
    ensures
        match r {
            Ok(rd) => spec_rd_ok(*v) && spec_rd_read(rd, *v),
            Err(e) => {
                &&& !spec_rd_ok(*v)
                &&& e matches ParseError::MissingField(f) && f@ == "rule id"@
            },
        },
{
    let id = match field_string(v, "id") {
        Some(id) => id,
        None => {
            return Err(ParseError::MissingField("rule id"));
        },
    };
    let default_configuration = match field(v, "defaultConfiguration") {
        Some(c) => Some(parse_reporting_configuration(c)),
        None => None,
    };
    let short_description = match field(v, "shortDescription") {
        Some(d) => parse_mfms(d),
        None => None,
    };
    let full_description = match field(v, "fullDescription") {
        Some(d) => parse_mfms(d),
        None => None,
    };
    let message_strings = match field(v, "messageStrings") {
        Some(m) => parse_message_strings(m),
        None => None,
    };
    Ok(
        ReportingDescriptor {
            id,
            name: field_string(v, "name"),
            short_description,
            full_description,
            default_configuration,
            help_uri: field_string(v, "helpUri"),
            message_strings,
        },
    )
}

/// Whether a descriptor reference is the one read off a value: stable id
/// and/or index.
pub open spec fn spec_ref_read(r: ReportingDescriptorReference, v: serde_json::Value) -> bool {
    &&& spec_opt_string_is(r.id, spec_member_str(v, "id"@))
    &&& r.index == spec_member_i64(v, "index"@)
}

/// Reads a reference to a reporting descriptor: stable id and/or index.
fn parse_descriptor_reference(v: &serde_json::Value) -> (r: ReportingDescriptorReference)
    ensures
        spec_ref_read(r, *v),
{
    ReportingDescriptorReference { id: field_string(v, "id"), index: field_i64(v, "index") }
}

/// Whether a region is the one read off a value: its six optional integer
/// fields.
pub open spec fn spec_region_read(r: Region, v: serde_json::Value) -> bool {
    &&& r.byte_offset == spec_member_i64(v, "byteOffset"@)
    &&& r.byte_length == spec_member_i64(v, "byteLength"@)
    &&& r.start_line == spec_member_i64(v, "startLine"@)
    &&& r.start_column == spec_member_i64(v, "startColumn"@)
    &&& r.end_line == spec_member_i64(v, "endLine"@)
    &&& r.end_column == spec_member_i64(v, "endColumn"@)
}

/// Reads a region descriptor; every field is optional.
fn parse_region(v: &serde_json::Value) -> (r: Region)
    ensures
        spec_region_read(r, *v),
{
    Region {
        byte_offset: field_i64(v, "byteOffset"),
        byte_length: field_i64(v, "byteLength"),
        start_line: field_i64(v, "startLine"),
        start_column: field_i64(v, "startColumn"),
        end_line: field_i64(v, "endLine"),
        end_column: field_i64(v, "endColumn"),
    }
}

/// Whether an artifact location is the one read off a value: URI and
/// base-URI id.
pub open spec fn spec_al_read(a: ArtifactLocation, v: serde_json::Value) -> bool {
    &&& spec_opt_string_is(a.uri, spec_member_str(v, "uri"@))
    &&& spec_opt_string_is(a.uri_base_id, spec_member_str(v, "uriBaseId"@))
}

/// Reads an artifact location: a URI and an optional base-URI id.
fn parse_artifact_location(v: &serde_json::Value) -> (a: ArtifactLocation)
    ensures
        spec_al_read(a, *v),
{
    ArtifactLocation { uri: field_string(v, "uri"), uri_base_id: field_string(v, "uriBaseId") }
}

/// Whether a physical location is the one read off a value: its artifact
/// location and region members, each present exactly when the member is.
pub open spec fn spec_phys_read(p: PhysicalLocation, v: serde_json::Value) -> bool {
    &&& match (p.artifact_location, spec_json_field(v, "artifactLocation"@)) {
        (Some(a), Some(av)) => spec_al_read(a, av),
        (None, None) => true,
        _ => false,
    }
    &&& match (p.region, spec_json_field(v, "region"@)) {
        (Some(r), Some(rv)) => spec_region_read(r, rv),
        (None, None) => true,
        _ => false,
    }
}

/// Reads a physical location: artifact location and region.
fn parse_physical_location(v: &serde_json::Value) -> (p: PhysicalLocation)
    ensures
        spec_phys_read(p, *v),
{
    let artifact_location = match field(v, "artifactLocation") {
        Some(al) => Some(parse_artifact_location(al)),
        None => None,
    };
    let region = match field(v, "region") {
        Some(r) => Some(parse_region(r)),
        None => None,
    };
    PhysicalLocation { artifact_location, region }
}

/// Whether a location is the one read off a value: its physical location
/// and message members.
pub open spec fn spec_location_read(l: Location, v: serde_json::Value) -> bool {
    &&& match (l.physical_location, spec_json_field(v, "physicalLocation"@)) {
        (Some(p), Some(pv)) => spec_phys_read(p, pv),
        (None, None) => true,
        _ => false,
    }
    &&& match (l.message, spec_json_field(v, "message"@)) {
        (Some(m), Some(mv)) => spec_message_read(m, mv),
        (None, None) => true,
        _ => false,
    }
}

/// Reads one location: physical location and optional message.
fn parse_location(v: &serde_json::Value) -> (l: Location)
    ensures
        spec_location_read(l, *v),
{
    let physical_location = match field(v, "physicalLocation") {
        Some(p) => Some(parse_physical_location(p)),
        None => None,
    };
    let message = match field(v, "message") {
        Some(m) => Some(parse_message(m)),
        None => None,
    };
    Location { physical_location, message }
}

/// Whether an optional location list is the one read off a value: one
/// location per array element, absent when the value is no array.
pub open spec fn spec_locations_read(ls: Option<Vec<Location>>, v: serde_json::Value) -> bool {
    match spec_json_elements(v) {
        Some(es) => {
            &&& ls is Some
            &&& ls->0@.len() == es.len()
            &&& forall|i: int|
                0 <= i < es.len() ==> spec_location_read(#[trigger] ls->0@[i], es[i])
        },
        None => ls is None,
    }
}

/// Reads an array of locations; a member of an unexpected shape still reads
/// as a location with absent parts.
fn parse_locations(v: &serde_json::Value) -> (ls: Option<Vec<Location>>)
    ensures
        spec_locations_read(ls, *v),
{
    let arr = match as_array(v) {
        Some(a) => a,
        None => {
            return None;
        },
    };
    let mut locs: Vec<Location> = Vec::new();
    let mut i: usize = 0;
    while i < arr.len()
        invariant
            i <= arr@.len(),
            spec_json_elements(*v) == Some(arr@),
            locs@.len() == i,
            forall|k: int| 0 <= k < i ==> spec_location_read(#[trigger] locs@[k], arr@[k]),
        decreases arr@.len() - i,
    {
        locs.push(parse_location(&arr[i]));
        i = i + 1;
    }
    Some(locs)
}

/// Whether an optional fix list is the one read off a value: one fix (its
/// description's text, when any) per array element.
pub open spec fn spec_fixes_read(fs: Option<Vec<Fix>>, v: serde_json::Value) -> bool {
    match spec_json_elements(v) {
        Some(es) => {
            &&& fs is Some
            &&& fs->0@.len() == es.len()
            &&& forall|i: int|
                0 <= i < es.len() ==> spec_opt_mfms_read(
                    (#[trigger] fs->0@[i]).description,
                    spec_json_field(es[i], "description"@),
                )
        },
        None => fs is None,
    }
}

/// Reads an array of proposed fixes; only each fix's description is kept.
fn parse_fixes(v: &serde_json::Value) -> (fs: Option<Vec<Fix>>)
    ensures
        spec_fixes_read(fs, *v),
{
    let arr = match as_array(v) {
        Some(a) => a,
        None => {
            return None;
        },
    };
    let mut fixes: Vec<Fix> = Vec::new();
    let mut i: usize = 0;
    while i < arr.len()
        invariant
            i <= arr@.len(),
            spec_json_elements(*v) == Some(arr@),
            fixes@.len() == i,
            forall|k: int|
                0 <= k < i ==> spec_opt_mfms_read(
                    (#[trigger] fixes@[k]).description,
                    spec_json_field(arr@[k], "description"@),
                ),
        decreases arr@.len() - i,
    {
        let description = match field(&arr[i], "description") {
            Some(d) => parse_mfms(d),
            None => None,
        };
        fixes.push(Fix { description });
        i = i + 1;
    }
    Some(fixes)
}

/// Whether a provenance record is the one read off a value: its
/// invocation index.
pub open spec fn spec_provenance_read(p: ResultProvenance, v: serde_json::Value) -> bool {
    p.invocation_index == spec_member_i64(v, "invocationIndex"@)
}

/// Reads a result's provenance: only the invocation index is of interest.
fn parse_provenance(v: &serde_json::Value) -> (p: ResultProvenance)
    ensures
        spec_provenance_read(p, *v),
{
    ResultProvenance { invocation_index: field_i64(v, "invocationIndex") }
}

/// A result can be read off a value exactly when the value carries a
/// message member.
pub open spec fn spec_result_ok(v: serde_json::Value) -> bool {
    spec_json_field(v, "message"@) is Some
}

/// Whether a result is the one read off a value.
pub open spec fn spec_result_read(r: SarifResult, v: serde_json::Value) -> bool {
    &&& spec_opt_string_is(r.rule_id, spec_member_str(v, "ruleId"@))
    &&& r.rule_index == spec_member_i64(v, "ruleIndex"@)
    &&& match (r.rule, spec_json_field(v, "rule"@)) {
        (Some(rr), Some(rv)) => spec_ref_read(rr, rv),
        (None, None) => true,
        _ => false,
    }
    &&& spec_opt_string_is(r.level, spec_member_str(v, "level"@))
    &&& spec_opt_string_is(r.kind, spec_member_str(v, "kind"@))
    &&& match spec_json_field(v, "message"@) {
        Some(mv) => spec_message_read(r.message, mv),
        None => false,
    }
    &&& match spec_json_field(v, "locations"@) {
        Some(lv) => spec_locations_read(r.locations, lv),
        None => r.locations is None,
    }
    &&& match spec_json_field(v, "relatedLocations"@) {
        Some(lv) => spec_locations_read(r.related_locations, lv),
        None => r.related_locations is None,
    }
    &&& match spec_json_field(v, "fixes"@) {
        Some(fv) => spec_fixes_read(r.fixes, fv),
        None => r.fixes is None,
    }
    &&& match (r.provenance, spec_json_field(v, "provenance"@)) {
        (Some(p), Some(pv)) => spec_provenance_read(p, pv),
        (None, None) => true,
        _ => false,
    }
}

/// Reads one result; its message object is required.
fn parse_result(v: &serde_json::Value) -> (r: Result<SarifResult, ParseError>)
    ensures
        match r {
            Ok(x) => spec_result_ok(*v) && spec_result_read(x, *v),
            Err(e) => {
                &&& !spec_result_ok(*v)
                &&& e matches ParseError::MissingField(f) && f@ == "result message"@
            },
        },
{
    let message = match field(v, "message") {
        Some(m) => parse_message(m),
        None => {
            return Err(ParseError::MissingField("result message"));
        },
    };
    let rule = match field(v, "rule") {
        Some(r) => Some(parse_descriptor_reference(r)),
        None => None,
    };
    let locations = match field(v, "locations") {
        Some(l) => parse_locations(l),
        None => None,
    };
    let related_locations = match field(v, "relatedLocations") {
        Some(l) => parse_locations(l),
        None => None,
    };
    let provenance = match field(v, "provenance") {
        Some(p) => Some(parse_provenance(p)),
        None => None,
    };
    let fixes = match field(v, "fixes") {
        Some(fv) => parse_fixes(fv),
        None => None,
    };
    Ok(
        SarifResult {
            rule_id: field_string(v, "ruleId"),
            rule_index: field_i64(v, "ruleIndex"),
            rule,
            level: field_string(v, "level"),
            kind: field_string(v, "kind"),
            message,
            locations,
            related_locations,
            fixes,
            provenance,
        },
    )
}

/// Whether a configuration override is the one read off a value; an
/// absent member reads as an empty record.
pub open spec fn spec_override_read(o: ConfigurationOverride, v: serde_json::Value) -> bool {
    &&& match spec_json_field(v, "descriptor"@) {
        Some(dv) => spec_ref_read(o.descriptor, dv),
        None => o.descriptor.id is None && o.descriptor.index is None,
    }
    &&& match spec_json_field(v, "configuration"@) {
        Some(cv) => spec_config_read(o.configuration, cv),
        None => o.configuration.level is None,
    }
}

/// Reads a configuration override: target descriptor and configuration.
fn parse_configuration_override(v: &serde_json::Value) -> (o: ConfigurationOverride)
    ensures
        spec_override_read(o, *v),
{
    let descriptor = match field(v, "descriptor") {
        Some(d) => parse_descriptor_reference(d),
        None => ReportingDescriptorReference { id: None, index: None },
    };
    let configuration = match field(v, "configuration") {
        Some(c) => parse_reporting_configuration(c),
        None => ReportingConfiguration { level: None },
    };
    ConfigurationOverride { descriptor, configuration }
}

/// Whether an invocation is the one read off a value: its override list,
/// one override per element of that member's array.
pub open spec fn spec_invocation_read(iv: Invocation, v: serde_json::Value) -> bool {
    match spec_json_field(v, "ruleConfigurationOverrides"@) {
        Some(ov) => match spec_json_elements(ov) {
            Some(es) => {
                &&& iv.rule_configuration_overrides is Some
                &&& iv.rule_configuration_overrides->0@.len() == es.len()
                &&& forall|i: int|
                    0 <= i < es.len() ==> spec_override_read(
                        #[trigger] iv.rule_configuration_overrides->0@[i],
                        es[i],
                    )
            },
            None => iv.rule_configuration_overrides is None,
        },
        None => iv.rule_configuration_overrides is None,
    }
}

/// Reads one invocation: only its rule configuration overrides are of
/// interest.
fn parse_invocation(v: &serde_json::Value) -> (iv: Invocation)
    ensures
        spec_invocation_read(iv, *v),
{
    let overrides = match field(v, "ruleConfigurationOverrides") {
        Some(o) => match as_array(o) {
            Some(arr) => {
                let mut ovs: Vec<ConfigurationOverride> = Vec::new();
                let mut i: usize = 0;
                while i < arr.len()
                    invariant
                        i <= arr@.len(),
                        ovs@.len() == i,
                        forall|k: int|
                            0 <= k < i ==> spec_override_read(#[trigger] ovs@[k], arr@[k]),
                    decreases arr@.len() - i,
                {
                    ovs.push(parse_configuration_override(&arr[i]));
                    i = i + 1;
                }
                Some(ovs)
            },
            None => None,
        },
        None => None,
    };
    Invocation { rule_configuration_overrides: overrides }
}

/// Every element of a rule array can be read as a rule.
pub open spec fn spec_rules_ok(es: Seq<serde_json::Value>) -> bool {
    forall|i: int| 0 <= i < es.len() ==> spec_rd_ok(#[trigger] es[i])
}

/// A tool component can be read off a value exactly when the value carries
/// a string name and every rule of its rule array (if any) carries an id.
pub open spec fn spec_tc_ok(v: serde_json::Value) -> bool {
    &&& spec_member_str(v, "name"@) is Some
    &&& match spec_json_field(v, "rules"@) {
        Some(rv) => match spec_json_elements(rv) {
            Some(es) => spec_rules_ok(es),
            None => true,
        },
        None => true,
    }
}

/// Whether a tool component is the one read off a value.
pub open spec fn spec_tc_read(tc: ToolComponent, v: serde_json::Value) -> bool {
    &&& spec_member_str(v, "name"@) == Some(tc.name@)
    &&& spec_opt_string_is(tc.information_uri, spec_member_str(v, "informationUri"@))
    &&& match spec_json_field(v, "rules"@) {
        Some(rv) => match spec_json_elements(rv) {
            Some(es) => {
                &&& tc.rules is Some
                &&& tc.rules->0@.len() == es.len()
                &&& forall|i: int|
                    0 <= i < es.len() ==> spec_rd_read(#[trigger] tc.rules->0@[i], es[i])
            },
            None => tc.rules is None,
        },
        None => tc.rules is None,
    }
    &&& match spec_json_field(v, "globalMessageStrings"@) {
        Some(gv) => spec_msgtable_read(tc.global_message_strings, gv),
        None => tc.global_message_strings is None,
    }
}

/// Reads the driver component of a run's tool; its name is required, and
/// so is the id of every rule it declares.
fn parse_tool_component(v: &serde_json::Value) -> (r: Result<ToolComponent, ParseError>)
    ensures
        match r {
            Ok(tc) => spec_tc_ok(*v) && spec_tc_read(tc, *v),
            Err(e) => {
                &&& !spec_tc_ok(*v)
                &&& e matches ParseError::MissingField(f) && (f@ == "tool driver name"@ || f@
                    == "rule id"@)
            },
        },
{
    let name = match field_string(v, "name") {
        Some(n) => n,
        None => {
            return Err(ParseError::MissingField("tool driver name"));
        },
    };
    let rules = match field(v, "rules") {
        Some(rv) => match as_array(rv) {
            Some(arr) => {
                let mut rules: Vec<ReportingDescriptor> = Vec::new();
                let mut i: usize = 0;
                while i < arr.len()
                    invariant
                        i <= arr@.len(),
                        spec_json_field(*v, "rules"@) is Some,
                        spec_json_elements(spec_json_field(*v, "rules"@)->0) == Some(arr@),
                        rules@.len() == i,
                        forall|k: int| 0 <= k < i ==> spec_rd_ok(#[trigger] arr@[k]),
                        forall|k: int|
                            0 <= k < i ==> spec_rd_read(#[trigger] rules@[k], arr@[k]),
                    decreases arr@.len() - i,
                {
                    match parse_reporting_descriptor(&arr[i]) {
                        Ok(r) => rules.push(r),
                        Err(e) => {
                            return Err(e);
                        },
                    }
                    i = i + 1;
                }
                Some(rules)
            },
            None => None,
        },
        None => None,
    };
    let global_message_strings = match field(v, "globalMessageStrings") {
        Some(g) => parse_message_strings(g),
        None => None,
    };
    Ok(
        ToolComponent {
            name,
            information_uri: field_string(v, "informationUri"),
            rules,
            global_message_strings,
        },
    )
}

/// Whether an optional base-URI table is the one read off a value: one
/// entry per member, keeping the member's key and its value's URI string.
pub open spec fn spec_bases_read(t: Option<Vec<UriBase>>, v: serde_json::Value) -> bool {
    match spec_json_members(v) {
        Some(ms) => {
            &&& t is Some
            &&& t->0@.len() == ms.len()
            &&& forall|i: int|
                0 <= i < ms.len() ==> (#[trigger] t->0@[i]).id@ == ms[i].0 && spec_opt_string_is(
                    t->0@[i].uri,
                    spec_member_str(ms[i].1, "uri"@),
                )
        },
        None => t is None,
    }
}

/// Reads a run's base-URI table: each member maps a base-URI id to an
/// artifact location whose URI it stands for.
fn parse_uri_base_ids(v: &serde_json::Value) -> (t: Option<Vec<UriBase>>)
    ensures
        spec_bases_read(t, *v),
{
    let entries = match value_object_entries(v) {
        Some(e) => e,
        None => {
            return None;
        },
    };
    let ghost ms = spec_json_members(*v)->0;
    let mut tbl: Vec<UriBase> = Vec::new();
    let mut i: usize = 0;
    while i < entries.len()
        invariant
            i <= entries@.len(),
            entries@.len() == ms.len(),
            forall|k: int|
                0 <= k < ms.len() ==> ms[k] == ((#[trigger] entries@[k]).0@, entries@[k].1),
            tbl@.len() == i,
            forall|k: int|
                0 <= k < i ==> (#[trigger] tbl@[k]).id@ == ms[k].0 && spec_opt_string_is(
                    tbl@[k].uri,
                    spec_member_str(ms[k].1, "uri"@),
                ),
        decreases entries@.len() - i,
    {
        let (ref id, ref val) = entries[i];
        tbl.push(UriBase { id: id.clone(), uri: field_string(val, "uri") });
        i = i + 1;
    }
    Some(tbl)
}

/// Every element of a result array can be read as a result.
pub open spec fn spec_results_ok(es: Seq<serde_json::Value>) -> bool {
    forall|i: int| 0 <= i < es.len() ==> spec_result_ok(#[trigger] es[i])
}

/// A run can be read off a value exactly when its tool driver can, and
/// every result of its result array (if any) carries a message.
pub open spec fn spec_run_ok(v: serde_json::Value) -> bool {
    &&& spec_json_field(v, "tool"@) is Some
    &&& spec_json_field(spec_json_field(v, "tool"@)->0, "driver"@) is Some
    &&& spec_tc_ok(spec_json_field(spec_json_field(v, "tool"@)->0, "driver"@)->0)
    &&& match spec_json_field(v, "results"@) {
        Some(rv) => match spec_json_elements(rv) {
            Some(es) => spec_results_ok(es),
            None => true,
        },
        None => true,
    }
}

/// Whether a run is the one read off a value.
pub open spec fn spec_run_read(run: Run, v: serde_json::Value) -> bool {
    &&& spec_json_field(v, "tool"@) is Some
    &&& spec_json_field(spec_json_field(v, "tool"@)->0, "driver"@) is Some
    &&& spec_tc_read(run.tool.driver, spec_json_field(spec_json_field(v, "tool"@)->0, "driver"@)->0)
    &&& match spec_json_field(v, "results"@) {
        Some(rv) => match spec_json_elements(rv) {
            Some(es) => {
                &&& run.results is Some
                &&& run.results->0@.len() == es.len()
                &&& forall|i: int|
                    0 <= i < es.len() ==> spec_result_read(#[trigger] run.results->0@[i], es[i])
            },
            None => run.results is None,
        },
        None => run.results is None,
    }
    &&& match spec_json_field(v, "originalUriBaseIds"@) {
        Some(bv) => spec_bases_read(run.original_uri_base_ids, bv),
        None => run.original_uri_base_ids is None,
    }
    &&& match spec_json_field(v, "invocations"@) {
        Some(iv) => match spec_json_elements(iv) {
            Some(es) => {
                &&& run.invocations is Some
                &&& run.invocations->0@.len() == es.len()
                &&& forall|i: int|
                    0 <= i < es.len() ==> spec_invocation_read(
                        #[trigger] run.invocations->0@[i],
                        es[i],
                    )
            },
            None => run.invocations is None,
        },
        None => run.invocations is None,
    }
}

/// Reads one run: its tool driver is required; results, base-URI table and
/// invocations are optional.
fn parse_run(v: &serde_json::Value) -> (r: Result<Run, ParseError>)
    ensures
        match r {
            Ok(run) => spec_run_ok(*v) && spec_run_read(run, *v),
            Err(e) => {
                &&& !spec_run_ok(*v)
                &&& e matches ParseError::MissingField(f) && (f@ == "tool"@ || f@
                    == "tool driver"@ || f@ == "tool driver name"@ || f@ == "rule id"@ || f@
                    == "result message"@)
            },
        },
{
    let driver = match field(v, "tool") {
        Some(t) => match field(t, "driver") {
            Some(d) => match parse_tool_component(d) {
                Ok(tc) => tc,
                Err(e) => {
                    return Err(e);
                },
            },
            None => {
                return Err(ParseError::MissingField("tool driver"));
            },
        },
        None => {
            return Err(ParseError::MissingField("tool"));
        },
    };
    let results = match field(v, "results") {
        Some(rv) => match as_array(rv) {
            Some(arr) => {
                let mut results: Vec<SarifResult> = Vec::new();
                let mut i: usize = 0;
                while i < arr.len()
                    invariant
                        i <= arr@.len(),
                        spec_json_field(*v, "results"@) is Some,
                        spec_json_elements(spec_json_field(*v, "results"@)->0) == Some(arr@),
                        results@.len() == i,
                        forall|k: int| 0 <= k < i ==> spec_result_ok(#[trigger] arr@[k]),
                        forall|k: int|
                            0 <= k < i ==> spec_result_read(#[trigger] results@[k], arr@[k]),
                        spec_json_field(*v, "tool"@) is Some,
                        spec_json_field(spec_json_field(*v, "tool"@)->0, "driver"@) is Some,
                        spec_tc_ok(
                            spec_json_field(spec_json_field(*v, "tool"@)->0, "driver"@)->0,
                        ),
                    decreases arr@.len() - i,
                {
                    match parse_result(&arr[i]) {
                        Ok(r) => results.push(r),
                        Err(e) => {
                            return Err(e);
                        },
                    }
                    i = i + 1;
                }
                Some(results)
            },
            None => None,
        },
        None => None,
    };
    let original_uri_base_ids = match field(v, "originalUriBaseIds") {
        Some(o) => parse_uri_base_ids(o),
        None => None,
    };
    let invocations = match field(v, "invocations") {
        Some(iv) => match as_array(iv) {
            Some(arr) => {
                let mut invs: Vec<Invocation> = Vec::new();
                let mut i: usize = 0;
                while i < arr.len()
                    invariant
                        i <= arr@.len(),
                        invs@.len() == i,
                        forall|k: int|
                            0 <= k < i ==> spec_invocation_read(#[trigger] invs@[k], arr@[k]),
                    decreases arr@.len() - i,
                {
                    invs.push(parse_invocation(&arr[i]));
                    i = i + 1;
                }
                Some(invs)
            },
            None => None,
        },
        None => None,
    };
    Ok(Run { tool: Tool { driver }, results, original_uri_base_ids, invocations })
}

/// Every element of the document's run array can be read as a run.
pub open spec fn spec_runs_ok(es: Seq<serde_json::Value>) -> bool {
    forall|i: int| 0 <= i < es.len() ==> spec_run_ok(#[trigger] es[i])
}

/// A document can be read off the parsed root exactly when the root
/// carries a string version and a run array whose runs can all be read.
pub open spec fn spec_doc_ok(root: serde_json::Value) -> bool {
    &&& spec_member_str(root, "version"@) is Some
    &&& spec_json_field(root, "runs"@) is Some
    &&& spec_json_elements(spec_json_field(root, "runs"@)->0) is Some
    &&& spec_runs_ok(spec_json_elements(spec_json_field(root, "runs"@)->0)->0)
}

/// Whether a document is the one read off the parsed root.
pub open spec fn spec_doc_read(doc: Sarif, root: serde_json::Value) -> bool {
    &&& spec_member_str(root, "version"@) == Some(doc.version@)
    &&& spec_json_field(root, "runs"@) is Some
    &&& spec_json_elements(spec_json_field(root, "runs"@)->0) is Some
    &&& ({
        let es = spec_json_elements(spec_json_field(root, "runs"@)->0)->0;
        &&& doc.runs@.len() == es.len()
        &&& forall|i: int| 0 <= i < es.len() ==> spec_run_read(#[trigger] doc.runs@[i], es[i])
    })
}

/// Parses the text of an interchange document into the model.
///
/// The result is a document exactly when the named JSON parse succeeds and
/// the document carries a string `version`, a `runs` array, in each run a
/// tool driver with a name, an id on each rule and a message object on
/// each result; the returned document is the model read off the parsed
/// tree. Anything else missing or mistyped is treated as absent, never
/// fatal.
pub fn process(data: &str) -> (r: Result<Sarif, ParseError>)
    ensures
        match r {
            Ok(doc) => spec_json_parse(data@) is Some && spec_doc_ok(spec_json_parse(data@)->0)
                && spec_doc_read(doc, spec_json_parse(data@)->0),
            Err(e) => match e {
                ParseError::InvalidJson(_) => spec_json_parse(data@) is None,
                ParseError::MissingField(f) => spec_json_parse(data@) is Some && !spec_doc_ok(
                    spec_json_parse(data@)->0,
                ) && (f@ == "version"@ || f@ == "runs"@ || f@ == "tool"@ || f@ == "tool driver"@
                    || f@ == "tool driver name"@ || f@ == "rule id"@ || f@ == "result message"@),
            },
        },
{
    let root = match parse_json_value(data) {
        Ok(v) => v,
        Err(m) => {
            return Err(ParseError::InvalidJson(m));
        },
    };
    let version = match field_string(&root, "version") {
        Some(v) => v,
        None => {
            return Err(ParseError::MissingField("version"));
        },
    };
    let runs_val = match field(&root, "runs") {
        Some(r) => r,
        None => {
            return Err(ParseError::MissingField("runs"));
        },
    };
    let arr = match as_array(runs_val) {
        Some(a) => a,
        None => {
            return Err(ParseError::MissingField("runs"));
        },
    };
    let mut runs: Vec<Run> = Vec::new();
    let mut i: usize = 0;
    while i < arr.len()
        invariant
            i <= arr@.len(),
            spec_json_parse(data@) == Some(root),
            spec_member_str(root, "version"@) == Some(version@),
            spec_json_field(root, "runs"@) is Some,
            spec_json_elements(spec_json_field(root, "runs"@)->0) == Some(arr@),
            runs@.len() == i,
            forall|k: int| 0 <= k < i ==> spec_run_ok(#[trigger] arr@[k]),
            forall|k: int| 0 <= k < i ==> spec_run_read(#[trigger] runs@[k], arr@[k]),
        decreases arr@.len() - i,
    {
        match parse_run(&arr[i]) {
            Ok(r) => runs.push(r),
            Err(e) => {
                return Err(e);
            },
        }
        i = i + 1;
    }
    Ok(Sarif { version, runs })
}

} // verus!
