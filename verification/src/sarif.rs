//! The document model: plain-data views of a SARIF log.
//!
//! A document is an ordered sequence of runs; each run carries a tool
//! descriptor with a rule catalog, and an ordered sequence of results.
//! Every entity here is read-only for the engine: values are built once
//! (by [`crate::parse`] or by a caller) and never mutated.
//!
//! Open string fields of the format (severity levels, result kinds, column
//! kinds, ...) have closed variant sets in this module; parsing an open
//! string into a variant fails recoverably at the point of use.

use vstd::prelude::*;
use vstd::string::StringExecFns;
use crate::text::str_eq;

verus! {

/// The SARIF format version of this log file.
#[derive(Clone, Copy, Debug, PartialEq, Eq, Structural)]
pub enum Version {
    V2_1_0,
}

impl Version {
    pub open spec fn spec_str(self) -> Seq<char> {
        "2.1.0"@
    }

    /// The string form of the version, as it appears in a document.
    pub fn as_str(&self) -> (r: &'static str)
        ensures
            r@ == self.spec_str(),
    {
        "2.1.0"
    }
}

/// The role or roles played by the artifact in the analysis.
#[derive(Clone, Copy, Debug, PartialEq, Eq, Structural)]
pub enum ArtifactRoles {
    AnalysisTarget,
    Attachment,
    ResponseFile,
    ResultFile,
    StandardStream,
    TracedFile,
    Unmodified,
    Modified,
    Added,
    Deleted,
    Renamed,
    Uncontrolled,
    Driver,
    Extension,
    Translation,
    Taxonomy,
    Policy,
    ReferencedOnCommandLine,
    MemoryContents,
    Directory,
    UserSpecifiedConfiguration,
    ToolSpecifiedConfiguration,
    DebugOutputFile,
}

/// The SARIF format version of this external properties object.
#[derive(Clone, Copy, Debug, PartialEq, Eq, Structural)]
pub enum ExternalPropertiesVersion {
    V2_1_0,
}

/// A value specifying the severity level of a notification.
#[derive(Clone, Copy, Debug, PartialEq, Eq, Structural)]
pub enum NotificationLevel {
    NoneLevel,
    Note,
    Warning,
    Error,
}

/// Specifies the failure level for the report.
#[derive(Clone, Copy, Debug, PartialEq, Eq, Structural)]
pub enum ReportingConfigurationLevel {
    NoneLevel,
    Note,
    Warning,
    Error,
}

/// A value that categorizes results by evaluation state.
#[derive(Clone, Copy, Debug, PartialEq, Eq, Structural)]
pub enum ResultKind {
    NotApplicable,
    Pass,
    Fail,
    Review,
    Open,
    Informational,
}

impl ResultKind {
    pub open spec fn spec_str(self) -> Seq<char> {
        match self {
            ResultKind::NotApplicable => "notApplicable"@,
            ResultKind::Pass => "pass"@,
            ResultKind::Fail => "fail"@,
            ResultKind::Review => "review"@,
            ResultKind::Open => "open"@,
            ResultKind::Informational => "informational"@,
        }
    }

    pub open spec fn spec_parse(s: Seq<char>) -> Option<ResultKind> {
        if s == "notApplicable"@ {
            Some(ResultKind::NotApplicable)
        } else if s == "pass"@ {
            Some(ResultKind::Pass)
        } else if s == "fail"@ {
            Some(ResultKind::Fail)
        } else if s == "review"@ {
            Some(ResultKind::Review)
        } else if s == "open"@ {
            Some(ResultKind::Open)
        } else if s == "informational"@ {
            Some(ResultKind::Informational)
        } else {
            None
        }
    }

    /// The string form of the kind, as it appears in a document.
    pub fn as_str(&self) -> (r: &'static str)
        ensures
            r@ == self.spec_str(),
    {
        match self {
            ResultKind::NotApplicable => "notApplicable",
            ResultKind::Pass => "pass",
            ResultKind::Fail => "fail",
            ResultKind::Review => "review",
            ResultKind::Open => "open",
            ResultKind::Informational => "informational",
        }
    }

    /// Parses the open string field into the closed variant set; an
    /// unrecognized value is a recoverable failure for the caller.
    pub fn parse_str(s: &str) -> (r: Option<ResultKind>)
        ensures
            r == ResultKind::spec_parse(s@),
    {
        if str_eq(s, "notApplicable") {
            Some(ResultKind::NotApplicable)
        } else if str_eq(s, "pass") {
            Some(ResultKind::Pass)
        } else if str_eq(s, "fail") {
            Some(ResultKind::Fail)
        } else if str_eq(s, "review") {
            Some(ResultKind::Review)
        } else if str_eq(s, "open") {
            Some(ResultKind::Open)
        } else if str_eq(s, "informational") {
            Some(ResultKind::Informational)
        } else {
            None
        }
    }
}

/// A value specifying the severity level of a result.
#[derive(Clone, Copy, Debug, PartialEq, Eq, Structural)]
pub enum ResultLevel {
    NoneLevel,
    Note,
    Warning,
    Error,
}

impl ResultLevel {
    pub open spec fn spec_str(self) -> Seq<char> {
        match self {
            ResultLevel::NoneLevel => "none"@,
            ResultLevel::Note => "note"@,
            ResultLevel::Warning => "warning"@,
            ResultLevel::Error => "error"@,
        }
    }

    pub open spec fn spec_parse(s: Seq<char>) -> Option<ResultLevel> {
        if s == "none"@ {
            Some(ResultLevel::NoneLevel)
        } else if s == "note"@ {
            Some(ResultLevel::Note)
        } else if s == "warning"@ {
            Some(ResultLevel::Warning)
        } else if s == "error"@ {
            Some(ResultLevel::Error)
        } else {
            None
        }
    }

    /// The string form of the level, as it appears in a document and in
    /// rendered output.
    pub fn as_str(&self) -> (r: &'static str)
        ensures
            r@ == self.spec_str(),
    {
        match self {
            ResultLevel::NoneLevel => "none",
            ResultLevel::Note => "note",
            ResultLevel::Warning => "warning",
            ResultLevel::Error => "error",
        }
    }

    /// Parses the open string field into the closed variant set; an
    /// unrecognized value is a recoverable failure for the caller.
    pub fn parse_str(s: &str) -> (r: Option<ResultLevel>)
        ensures
            r == ResultLevel::spec_parse(s@),
    {
        if str_eq(s, "none") {
            Some(ResultLevel::NoneLevel)
        } else if str_eq(s, "note") {
            Some(ResultLevel::Note)
        } else if str_eq(s, "warning") {
            Some(ResultLevel::Warning)
        } else if str_eq(s, "error") {
            Some(ResultLevel::Error)
        } else {
            None
        }
    }
}

/// The state of a result relative to a baseline of a previous run.
#[derive(Clone, Copy, Debug, PartialEq, Eq, Structural)]
pub enum ResultBaselineState {
    New,
    Unchanged,
    Updated,
    Absent,
}

/// Specifies the unit in which the tool measures columns.
#[derive(Clone, Copy, Debug, PartialEq, Eq, Structural)]
pub enum ResultColumnKind {
    Utf16CodeUnits,
    UnicodeCodePoints,
}

impl ResultColumnKind {
    pub open spec fn spec_str(self) -> Seq<char> {
        match self {
            ResultColumnKind::Utf16CodeUnits => "utf16CodeUnits"@,
            ResultColumnKind::UnicodeCodePoints => "unicodeCodePoints"@,
        }
    }

    pub open spec fn spec_parse(s: Seq<char>) -> Option<ResultColumnKind> {
        if s == "utf16CodeUnits"@ {
            Some(ResultColumnKind::Utf16CodeUnits)
        } else if s == "unicodeCodePoints"@ {
            Some(ResultColumnKind::UnicodeCodePoints)
        } else {
            None
        }
    }

    /// The string form of the column kind, as it appears in a document.
    pub fn as_str(&self) -> (r: &'static str)
        ensures
            r@ == self.spec_str(),
    {
        match self {
            ResultColumnKind::Utf16CodeUnits => "utf16CodeUnits",
            ResultColumnKind::UnicodeCodePoints => "unicodeCodePoints",
        }
    }

    /// Parses the open string field into the closed variant set.
    pub fn parse_str(s: &str) -> (r: Option<ResultColumnKind>)
        ensures
            r == ResultColumnKind::spec_parse(s@),
    {
        if str_eq(s, "utf16CodeUnits") {
            Some(ResultColumnKind::Utf16CodeUnits)
        } else if str_eq(s, "unicodeCodePoints") {
            Some(ResultColumnKind::UnicodeCodePoints)
        } else {
            None
        }
    }
}

/// A failure to parse an open string field into a closed variant set.
#[derive(Clone, Copy, Debug, PartialEq, Eq, Structural)]
pub struct VariantParseError;

impl core::str::FromStr for ResultColumnKind {
    type Err = VariantParseError;

    fn from_str(s: &str) -> Result<ResultColumnKind, VariantParseError> {
        match ResultColumnKind::parse_str(s) {
            Some(v) => Ok(v),
            None => Err(VariantParseError),
        }
    }
}

impl core::str::FromStr for ResultLevel {
    type Err = VariantParseError;

    fn from_str(s: &str) -> Result<ResultLevel, VariantParseError> {
        match ResultLevel::parse_str(s) {
            Some(v) => Ok(v),
            None => Err(VariantParseError),
        }
    }
}

impl core::str::FromStr for ResultKind {
    type Err = VariantParseError;

    fn from_str(s: &str) -> Result<ResultKind, VariantParseError> {
        match ResultKind::parse_str(s) {
            Some(v) => Ok(v),
            None => Err(VariantParseError),
        }
    }
}

/// A string that indicates where the suppression is persisted.
#[derive(Clone, Copy, Debug, PartialEq, Eq, Structural)]
pub enum SupressionKind {
    InSource,
    External,
}

/// A string that indicates the review status of the suppression.
#[derive(Clone, Copy, Debug, PartialEq, Eq, Structural)]
pub enum SupressionStatus {
    Accepted,
    UnderReview,
}

/// Specifies the importance of a location in understanding a code flow.
#[derive(Clone, Copy, Debug, PartialEq, Eq, Structural)]
pub enum ThreadFlowLocationImportance {
    Important,
    Essential,
}

/// The kinds of data contained in a tool component object.
#[derive(Clone, Copy, Debug, PartialEq, Eq, Structural)]
pub enum ToolComponentContents {
    LocalizedData,
    NonLocalizedData,
}

/// A failure to build a value because a required field was never set.
#[derive(Clone, Copy, Debug)]
pub enum BuilderError {
    UninitializedField(&'static str),
}

impl BuilderError {
    /// A human-readable description of the failure.
    pub fn message(&self) -> (r: String)
        ensures
            match *self {
                BuilderError::UninitializedField(f) => r@ == "uninitialized field: "@ + f@,
            },
    {
        match self {
            BuilderError::UninitializedField(f) => {
                String::from_str("uninitialized field: ").concat(f)
            },
        }
    }
}

/// A message string or message template, keyed by its property name in a
/// message-string table.
#[derive(Clone, Debug)]
pub struct MessageString {
    pub id: String,
    pub text: String,
}

/// A message string in one or more formats; only the plain-text form is kept.
#[derive(Clone, Debug)]
pub struct MultiformatMessageString {
    pub text: String,
}

/// The message of a result or of a related location: literal text, or a
/// message-id for templated lookup, or both.
#[derive(Clone, Debug)]
pub struct Message {
    pub text: Option<String>,
    pub id: Option<String>,
}

/// Effective severity configuration of a reporting descriptor. The level is
/// kept as the open string of the document and parsed at the point of use.
#[derive(Clone, Debug)]
pub struct ReportingConfiguration {
    pub level: Option<String>,
}

/// A catalog entry describing one category of finding, addressable by its
/// stable id or by position within its run's rule list.
#[derive(Clone, Debug)]
pub struct ReportingDescriptor {
    pub id: String,
    pub name: Option<String>,
    pub short_description: Option<MultiformatMessageString>,
    pub full_description: Option<MultiformatMessageString>,
    pub default_configuration: Option<ReportingConfiguration>,
    pub help_uri: Option<String>,
    pub message_strings: Option<Vec<MessageString>>,
}

/// A reference to a reporting descriptor, by stable id and/or by index into
/// the run's rule list.
#[derive(Clone, Debug)]
pub struct ReportingDescriptorReference {
    pub id: Option<String>,
    pub index: Option<i64>,
}

/// A URI (with an optional base-URI id) identifying a source artifact.
#[derive(Clone, Debug)]
pub struct ArtifactLocation {
    pub uri: Option<String>,
    pub uri_base_id: Option<String>,
}

/// A span within a source artifact: byte offsets, 1-based line/column pairs,
/// or a mixture; any field may be absent.
#[derive(Clone, Debug)]
pub struct Region {
    pub byte_offset: Option<i64>,
    pub byte_length: Option<i64>,
    pub start_line: Option<i64>,
    pub start_column: Option<i64>,
    pub end_line: Option<i64>,
    pub end_column: Option<i64>,
}

/// An artifact reference paired with a region inside it.
#[derive(Clone, Debug)]
pub struct PhysicalLocation {
    pub artifact_location: Option<ArtifactLocation>,
    pub region: Option<Region>,
}

/// A location relevant to a result; a related location may carry its own
/// message, used as the label of its excerpt.
#[derive(Clone, Debug)]
pub struct Location {
    pub physical_location: Option<PhysicalLocation>,
    pub message: Option<Message>,
}

/// An override, declared on an invocation, of a rule's severity
/// configuration.
#[derive(Clone, Debug)]
pub struct ConfigurationOverride {
    pub descriptor: ReportingDescriptorReference,
    pub configuration: ReportingConfiguration,
}

/// A per-run execution record; it may override rule severities.
#[derive(Clone, Debug)]
pub struct Invocation {
    pub rule_configuration_overrides: Option<Vec<ConfigurationOverride>>,
}

/// A proposed fix for a result, described by its message text.
#[derive(Clone, Debug)]
pub struct Fix {
    pub description: Option<MultiformatMessageString>,
}

/// Provenance of a result; the invocation index selects the invocation whose
/// overrides apply to the result.
#[derive(Clone, Debug)]
pub struct ResultProvenance {
    pub invocation_index: Option<i64>,
}

/// One diagnostic finding within a run. The `level` and `kind` fields keep
/// the open strings of the document; they are parsed at the point of use.
#[derive(Clone, Debug)]
pub struct SarifResult {
    pub rule_id: Option<String>,
    pub rule_index: Option<i64>,
    pub rule: Option<ReportingDescriptorReference>,
    pub level: Option<String>,
    pub kind: Option<String>,
    pub message: Message,
    pub locations: Option<Vec<Location>>,
    pub related_locations: Option<Vec<Location>>,
    pub fixes: Option<Vec<Fix>>,
    pub provenance: Option<ResultProvenance>,
}

/// The analysis tool that produced a run, described by its driver component.
#[derive(Clone, Debug)]
pub struct Tool {
    pub driver: ToolComponent,
}

/// A tool component: name, an optional page about the tool, its rule
/// catalog, and the run-wide table of global message strings.
#[derive(Clone, Debug)]
pub struct ToolComponent {
    pub name: String,
    pub information_uri: Option<String>,
    pub rules: Option<Vec<ReportingDescriptor>>,
    pub global_message_strings: Option<Vec<MessageString>>,
}

/// An entry of a run's base-URI table: a base-URI id mapped to the URI it
/// stands for.
#[derive(Clone, Debug)]
pub struct UriBase {
    pub id: String,
    pub uri: Option<String>,
}

/// One analysis session: tool descriptor, results, and the tables used to
/// resolve severities and relative paths.
#[derive(Clone, Debug)]
pub struct Run {
    pub tool: Tool,
    pub results: Option<Vec<SarifResult>>,
    pub original_uri_base_ids: Option<Vec<UriBase>>,
    pub invocations: Option<Vec<Invocation>>,
}

/// A whole interchange document: its format version and its runs, in
/// document order.
#[derive(Clone, Debug)]
pub struct Sarif {
    pub version: String,
    pub runs: Vec<Run>,
}

} // verus!
