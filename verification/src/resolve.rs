//! Resolution of the two mandatory fields of a rendered diagnostic: the
//! effective severity level of a result and its message text.
//!
//! The interchange format under-specifies both fields; each is computed by a
//! multi-step procedure whose precedence order producers rely on. The level
//! follows the default/override procedure of the format: an explicit level
//! wins, then an invocation-level configuration override for the result's
//! rule, then the rule's default configuration, then `warning`; a result
//! whose kind is present and differs from `fail` is always `none`. The
//! message follows an ordered fallback chain: result-local text, then the
//! rule's message-string table, then the tool's global table.

use vstd::prelude::*;
use crate::index::checked_index;
use crate::sarif::{
    ConfigurationOverride, MessageString, ReportingConfiguration, ReportingDescriptor, ResultLevel,
    Run, SarifResult,
};
use crate::text::{string_eq, string_eq_str};

verus! {

/// Whether the result's kind, with absence defaulting to `fail`, is `fail`.
pub open spec fn spec_kind_is_fail(r: SarifResult) -> bool {
    match r.kind {
        Some(k) => k@ == "fail"@,
        None => true,
    }
}

/// The index by which the result references its rule, if it gives one.
pub open spec fn spec_rule_ref_index(r: SarifResult) -> Option<int> {
    match r.rule_index {
        Some(i) => Some(i as int),
        None => match r.rule {
            Some(rr) => match rr.index {
                Some(i) => Some(i as int),
                None => None,
            },
            None => None,
        },
    }
}

/// The stable id by which the result references its rule, if it gives one.
pub open spec fn spec_rule_ref_id(r: SarifResult) -> Option<Seq<char>> {
    match r.rule_id {
        Some(s) => Some(s@),
        None => match r.rule {
            Some(rr) => match rr.id {
                Some(s) => Some(s@),
                None => None,
            },
            None => None,
        },
    }
}

/// The position of the first catalog entry whose stable id is `id`.
pub open spec fn spec_rule_id_index(rules: Seq<ReportingDescriptor>, id: Seq<char>) -> Option<int>
    decreases rules.len(),
{
    if rules.len() == 0 {
        None
    } else if rules[0].id@ == id {
        Some(0int)
    } else {
        match spec_rule_id_index(rules.drop_first(), id) {
            Some(k) => Some(k + 1),
            None => None,
        }
    }
}

/// What `spec_rule_id_index` finds: the first entry with the given id.
pub proof fn lemma_rule_id_index(rules: Seq<ReportingDescriptor>, id: Seq<char>)
    ensures
        match spec_rule_id_index(rules, id) {
            Some(j) => 0 <= j < rules.len() && rules[j].id@ == id && (forall|k: int|
                0 <= k < j ==> rules[k].id@ != id),
            None => forall|k: int| 0 <= k < rules.len() ==> rules[k].id@ != id,
        },
    decreases rules.len(),
{
    if rules.len() > 0 {
        lemma_rule_id_index(rules.drop_first(), id);
        assert forall|k: int| 1 <= k < rules.len() implies rules.drop_first()[k - 1] == rules[k] by {}
    }
}

/// A value meeting the first-match characterization is what
/// `spec_rule_id_index` returns.
proof fn lemma_rule_id_index_unique(
    rules: Seq<ReportingDescriptor>,
    id: Seq<char>,
    r: Option<int>,
)
    requires
        match r {
            Some(j) => 0 <= j < rules.len() && rules[j].id@ == id && (forall|k: int|
                0 <= k < j ==> rules[k].id@ != id),
            None => forall|k: int| 0 <= k < rules.len() ==> rules[k].id@ != id,
        },
    ensures
        r == spec_rule_id_index(rules, id),
{
    lemma_rule_id_index(rules, id);
    match r {
        Some(j) => {
            match spec_rule_id_index(rules, id) {
                Some(j2) => {
                    if j < j2 {
                        assert(rules[j].id@ != id);
                    } else if j2 < j {
                        assert(rules[j2].id@ != id);
                    }
                },
                None => {
                    assert(rules[j].id@ != id);
                },
            }
        },
        None => {
            match spec_rule_id_index(rules, id) {
                Some(j2) => {
                    assert(rules[j2].id@ != id);
                },
                None => {},
            }
        },
    }
}

/// The position of the result's rule in the catalog: by index when an index
/// is given, else by a linear scan for its stable id.
pub open spec fn spec_find_rule(rules: Seq<ReportingDescriptor>, r: SarifResult) -> Option<int> {
    match spec_rule_ref_index(r) {
        Some(i) => if 0 <= i < rules.len() {
            Some(i)
        } else {
            None
        },
        None => match spec_rule_ref_id(r) {
            Some(id) => spec_rule_id_index(rules, id),
            None => None,
        },
    }
}

/// Looks the result's rule up in the catalog, by index when the result gives
/// one, else by a scan for its stable id.
pub fn find_rule(rules: &Vec<ReportingDescriptor>, result: &SarifResult) -> (r: Option<usize>)
    ensures
        match r {
            Some(j) => j < rules.len() && spec_find_rule(rules@, *result) == Some(j as int),
            None => spec_find_rule(rules@, *result) is None,
        },
{
    let idx: Option<i64> = match &result.rule_index {
        Some(i) => Some(*i),
        None => match &result.rule {
            Some(rr) => match &rr.index {
                Some(i) => Some(*i),
                None => None,
            },
            None => None,
        },
    };
    match idx {
        Some(i) => checked_index(i, rules.len()),
        None => {
            let id: &String = match &result.rule_id {
                Some(s) => s,
                None => match &result.rule {
                    Some(rr) => match &rr.id {
                        Some(s) => s,
                        None => {
                            return None;
                        },
                    },
                    None => {
                        return None;
                    },
                },
            };
            let mut j: usize = 0;
            while j < rules.len()
                invariant
                    j <= rules.len(),
                    forall|k: int| 0 <= k < j ==> rules@[k].id@ != id@,
                    spec_rule_ref_index(*result) is None,
                    spec_rule_ref_id(*result) == Some(id@),
                decreases rules.len() - j,
            {
                if string_eq(&rules[j].id, id) {
                    proof {
                        lemma_rule_id_index_unique(rules@, id@, Some(j as int));
                    }
                    return Some(j);
                }
                j = j + 1;
            }
            proof {
                lemma_rule_id_index_unique(rules@, id@, None::<int>);
            }
            None
        },
    }
}

/// The level named by a reporting configuration, when it names one that
/// parses.
pub open spec fn spec_config_level(c: ReportingConfiguration) -> Option<ResultLevel> {
    match c.level {
        Some(s) => ResultLevel::spec_parse(s@),
        None => None,
    }
}

/// Reads the level out of a reporting configuration.
pub fn config_level(c: &ReportingConfiguration) -> (r: Option<ResultLevel>)
    ensures
        r == spec_config_level(*c),
{
    match &c.level {
        Some(s) => ResultLevel::parse_str(s.as_str()),
        None => None,
    }
}

/// The level of the descriptor's default configuration, if any.
pub open spec fn spec_default_level(d: ReportingDescriptor) -> Option<ResultLevel> {
    match d.default_configuration {
        Some(c) => spec_config_level(c),
        None => None,
    }
}

/// The override list of the invocation that the result's provenance selects,
/// if the document has one at that index.
pub open spec fn spec_invocation_overrides(run: Run, r: SarifResult) -> Option<
    Seq<ConfigurationOverride>,
> {
    match r.provenance {
        Some(p) => match p.invocation_index {
            Some(ii) => match run.invocations {
                Some(invs) => if 0 <= ii < invs.len() {
                    match invs[ii as int].rule_configuration_overrides {
                        Some(ovs) => Some(ovs@),
                        None => None,
                    }
                } else {
                    None
                },
                None => None,
            },
            None => None,
        },
        None => None,
    }
}

/// Whether an override entry targets the descriptor with the given id.
pub open spec fn spec_override_targets(ov: ConfigurationOverride, id: Seq<char>) -> bool {
    match ov.descriptor.id {
        Some(s) => s@ == id,
        None => false,
    }
}

/// The position of the first override in the list whose target descriptor
/// names the given rule id.
pub open spec fn spec_override_index(ovs: Seq<ConfigurationOverride>, id: Seq<char>) -> Option<int>
    decreases ovs.len(),
{
    if ovs.len() == 0 {
        None
    } else if spec_override_targets(ovs[0], id) {
        Some(0int)
    } else {
        match spec_override_index(ovs.drop_first(), id) {
            Some(k) => Some(k + 1),
            None => None,
        }
    }
}

/// What `spec_override_index` finds: the first override targeting the id.
proof fn lemma_override_index(ovs: Seq<ConfigurationOverride>, id: Seq<char>)
    ensures
        match spec_override_index(ovs, id) {
            Some(j) => 0 <= j < ovs.len() && spec_override_targets(ovs[j], id) && (forall|k: int|
                0 <= k < j ==> !spec_override_targets(ovs[k], id)),
            None => forall|k: int| 0 <= k < ovs.len() ==> !spec_override_targets(ovs[k], id),
        },
    decreases ovs.len(),
{
    if ovs.len() > 0 {
        lemma_override_index(ovs.drop_first(), id);
        assert forall|k: int| 1 <= k < ovs.len() implies ovs.drop_first()[k - 1] == ovs[k] by {}
    }
}

/// A value meeting the first-match characterization is what
/// `spec_override_index` returns.
proof fn lemma_override_index_unique(
    ovs: Seq<ConfigurationOverride>,
    id: Seq<char>,
    r: Option<int>,
)
    requires
        match r {
            Some(j) => 0 <= j < ovs.len() && spec_override_targets(ovs[j], id) && (forall|k: int|
                0 <= k < j ==> !spec_override_targets(ovs[k], id)),
            None => forall|k: int| 0 <= k < ovs.len() ==> !spec_override_targets(ovs[k], id),
        },
    ensures
        r == spec_override_index(ovs, id),
{
    lemma_override_index(ovs, id);
    match r {
        Some(j) => {
            match spec_override_index(ovs, id) {
                Some(j2) => {
                    if j < j2 {
                        assert(!spec_override_targets(ovs[j], id));
                    } else if j2 < j {
                        assert(!spec_override_targets(ovs[j2], id));
                    }
                },
                None => {
                    assert(!spec_override_targets(ovs[j], id));
                },
            }
        },
        None => {
            match spec_override_index(ovs, id) {
                Some(j2) => {
                    assert(!spec_override_targets(ovs[j2], id));
                },
                None => {},
            }
        },
    }
}

/// The level set by a configuration override that the invocation selected by
/// the result declares for the given rule, if all the links are present.
pub open spec fn spec_override_level(run: Run, r: SarifResult, d: ReportingDescriptor) -> Option<
    ResultLevel,
> {
    match spec_invocation_overrides(run, r) {
        Some(ovs) => match spec_override_index(ovs, d.id@) {
            Some(j) => spec_config_level(ovs[j].configuration),
            None => None,
        },
        None => None,
    }
}

/// Scans an override list for the first entry targeting the given rule id.
fn find_override(ovs: &Vec<ConfigurationOverride>, id: &String) -> (r: Option<usize>)
    ensures
        match r {
            Some(j) => j < ovs.len() && spec_override_index(ovs@, id@) == Some(j as int),
            None => spec_override_index(ovs@, id@) is None,
        },
{
    let mut j: usize = 0;
    while j < ovs.len()
        invariant
            j <= ovs.len(),
            forall|k: int| 0 <= k < j ==> !spec_override_targets(ovs@[k], id@),
        decreases ovs.len() - j,
    {
        let matched: bool = match &ovs[j].descriptor.id {
            Some(ov_id) => string_eq(ov_id, id),
            None => false,
        };
        if matched {
            proof {
                lemma_override_index_unique(ovs@, id@, Some(j as int));
            }
            return Some(j);
        }
        j = j + 1;
    }
    proof {
        lemma_override_index_unique(ovs@, id@, None::<int>);
    }
    None
}

/// Computes the override level for the result's rule, per
/// [`spec_override_level`].
fn override_level(run: &Run, result: &SarifResult, d: &ReportingDescriptor) -> (r: Option<
    ResultLevel,
>)
    ensures
        r == spec_override_level(*run, *result, *d),
{
    let ii: i64 = match &result.provenance {
        Some(p) => match &p.invocation_index {
            Some(ii) => *ii,
            None => {
                return None;
            },
        },
        None => {
            return None;
        },
    };
    let invs: &Vec<crate::sarif::Invocation> = match &run.invocations {
        Some(invs) => invs,
        None => {
            return None;
        },
    };
    let pos = match checked_index(ii, invs.len()) {
        Some(pos) => pos,
        None => {
            return None;
        },
    };
    let ovs: &Vec<ConfigurationOverride> = match &invs[pos].rule_configuration_overrides {
        Some(ovs) => ovs,
        None => {
            return None;
        },
    };
    match find_override(ovs, &d.id) {
        Some(j) => config_level(&ovs[j].configuration),
        None => None,
    }
}

/// The effective severity of a result, per the default/override procedure of
/// the format; see [`resolve_level`].
pub open spec fn spec_resolve_level(
    rules: Seq<ReportingDescriptor>,
    run: Run,
    r: SarifResult,
) -> ResultLevel {
    if !spec_kind_is_fail(r) {
        ResultLevel::NoneLevel
    } else {
        match r.level {
            Some(s) => match ResultLevel::spec_parse(s@) {
                Some(l) => l,
                None => ResultLevel::Warning,
            },
            None => match spec_find_rule(rules, r) {
                Some(i) => match spec_override_level(run, r, rules[i]) {
                    Some(l) => l,
                    None => match spec_default_level(rules[i]) {
                        Some(l) => l,
                        None => ResultLevel::Warning,
                    },
                },
                None => ResultLevel::Warning,
            },
        }
    }
}

/// Computes the effective severity of a result.
///
/// Decision order, first match wins: a kind other than `fail` (absence
/// counts as `fail`) forces `none`; an explicit level is used as given; an
/// invocation-level configuration override for the result's rule is
/// consulted next, then the rule's default configuration; if nothing sets a
/// level, it is `warning`.
pub fn resolve_level(rules: &Vec<ReportingDescriptor>, run: &Run, result: &SarifResult) -> (lv:
    ResultLevel)
    ensures
        lv == spec_resolve_level(rules@, *run, *result),
{
    match &result.kind {
        Some(k) => {
            if !string_eq_str(k, "fail") {
                return ResultLevel::NoneLevel;
            }
        },
        None => {},
    }
    match &result.level {
        Some(s) => {
            return match ResultLevel::parse_str(s.as_str()) {
                Some(l) => l,
                None => ResultLevel::Warning,
            };
        },
        None => {},
    }
    match find_rule(rules, result) {
        Some(i) => {
            let d = &rules[i];
            match override_level(run, result, d) {
                Some(l) => l,
                None => match config_level_of_default(d) {
                    Some(l) => l,
                    None => ResultLevel::Warning,
                },
            }
        },
        None => ResultLevel::Warning,
    }
}

/// Reads the level of the descriptor's default configuration.
fn config_level_of_default(d: &ReportingDescriptor) -> (r: Option<ResultLevel>)
    ensures
        r == spec_default_level(*d),
{
    match &d.default_configuration {
        Some(c) => config_level(c),
        None => None,
    }
}

/// The rule catalog of a run, empty when the driver declares none.
pub open spec fn spec_run_rules(run: Run) -> Seq<ReportingDescriptor> {
    match run.tool.driver.rules {
        Some(v) => v@,
        None => Seq::empty(),
    }
}

/// The position of the first table entry stored under the given property
/// name.
pub open spec fn spec_msg_index(table: Seq<MessageString>, id: Seq<char>) -> Option<int>
    decreases table.len(),
{
    if table.len() == 0 {
        None
    } else if table[0].id@ == id {
        Some(0int)
    } else {
        match spec_msg_index(table.drop_first(), id) {
            Some(k) => Some(k + 1),
            None => None,
        }
    }
}

/// What `spec_msg_index` finds: the first entry with the given name.
proof fn lemma_msg_index(table: Seq<MessageString>, id: Seq<char>)
    ensures
        match spec_msg_index(table, id) {
            Some(j) => 0 <= j < table.len() && table[j].id@ == id && (forall|k: int|
                0 <= k < j ==> table[k].id@ != id),
            None => forall|k: int| 0 <= k < table.len() ==> table[k].id@ != id,
        },
    decreases table.len(),
{
    if table.len() > 0 {
        lemma_msg_index(table.drop_first(), id);
        assert forall|k: int| 1 <= k < table.len() implies table.drop_first()[k - 1] == table[k] by {}
    }
}

/// A value meeting the first-match characterization is what
/// `spec_msg_index` returns.
proof fn lemma_msg_index_unique(table: Seq<MessageString>, id: Seq<char>, r: Option<int>)
    requires
        match r {
            Some(j) => 0 <= j < table.len() && table[j].id@ == id && (forall|k: int|
                0 <= k < j ==> table[k].id@ != id),
            None => forall|k: int| 0 <= k < table.len() ==> table[k].id@ != id,
        },
    ensures
        r == spec_msg_index(table, id),
{
    lemma_msg_index(table, id);
    match r {
        Some(j) => {
            match spec_msg_index(table, id) {
                Some(j2) => {
                    if j < j2 {
                        assert(table[j].id@ != id);
                    } else if j2 < j {
                        assert(table[j2].id@ != id);
                    }
                },
                None => {
                    assert(table[j].id@ != id);
                },
            }
        },
        None => {
            match spec_msg_index(table, id) {
                Some(j2) => {
                    assert(table[j2].id@ != id);
                },
                None => {},
            }
        },
    }
}

/// The text held by a message-string table under the given property name.
pub open spec fn spec_lookup_message_string(table: Seq<MessageString>, id: Seq<char>) -> Option<
    Seq<char>,
> {
    match spec_msg_index(table, id) {
        Some(j) => Some(table[j].text@),
        None => None,
    }
}

/// Looks a message id up in a message-string table.
fn lookup_message_string(table: &Vec<MessageString>, id: &String) -> (r: Option<String>)
    ensures
        match r {
            Some(t) => spec_lookup_message_string(table@, id@) == Some(t@),
            None => spec_lookup_message_string(table@, id@) is None,
        },
{
    let mut j: usize = 0;
    while j < table.len()
        invariant
            j <= table.len(),
            forall|k: int| 0 <= k < j ==> table@[k].id@ != id@,
        decreases table.len() - j,
    {
        if string_eq(&table[j].id, id) {
            proof {
                lemma_msg_index_unique(table@, id@, Some(j as int));
            }
            return Some(table[j].text.clone());
        }
        j = j + 1;
    }
    proof {
        lemma_msg_index_unique(table@, id@, None::<int>);
    }
    None
}

/// The message text found through the rule referenced by the result, if the
/// result carries a message id and the rule's table has it.
pub open spec fn spec_rule_message(run: Run, r: SarifResult) -> Option<Seq<char>> {
    match r.message.id {
        Some(mid) => match spec_find_rule(spec_run_rules(run), r) {
            Some(i) => match spec_run_rules(run)[i].message_strings {
                Some(tbl) => spec_lookup_message_string(tbl@, mid@),
                None => None,
            },
            None => None,
        },
        None => None,
    }
}

/// The message text found in the tool's global message-string table, if the
/// result carries a message id and the table has it.
pub open spec fn spec_global_message(run: Run, r: SarifResult) -> Option<Seq<char>> {
    match r.message.id {
        Some(mid) => match run.tool.driver.global_message_strings {
            Some(tbl) => spec_lookup_message_string(tbl@, mid@),
            None => None,
        },
        None => None,
    }
}

/// The effective message text of a result: its own text, else the rule's
/// message-string table, else the tool's global table.
pub open spec fn spec_resolve_message(run: Run, r: SarifResult) -> Option<Seq<char>> {
    if r.message.text is Some {
        Some(r.message.text->0@)
    } else if spec_rule_message(run, r) is Some {
        spec_rule_message(run, r)
    } else {
        spec_global_message(run, r)
    }
}

/// Computes the message text to display for a result.
///
/// Fallback order, first hit wins: the result's literal message text; the
/// template stored under the result's message id in the referenced rule's
/// message-string table; the template under the same id in the tool's global
/// table. When all three are silent the lookup fails and the result cannot
/// be rendered.
pub fn resolve_message_text_from_result(result: &SarifResult, run: &Run) -> (r: Option<String>)
    ensures
        match r {
            Some(t) => spec_resolve_message(*run, *result) == Some(t@),
            None => spec_resolve_message(*run, *result) is None,
        },
{
    match &result.message.text {
        Some(t) => {
            return Some(t.clone());
        },
        None => {},
    }
    let from_rule: Option<String> = match &result.message.id {
        Some(mid) => match &run.tool.driver.rules {
            Some(rules) => match find_rule(rules, result) {
                Some(i) => match &rules[i].message_strings {
                    Some(tbl) => lookup_message_string(tbl, mid),
                    None => None,
                },
                None => None,
            },
            None => None,
        },
        None => None,
    };
    proof {
        if run.tool.driver.rules is None {
            assert(spec_run_rules(*run) =~= Seq::<ReportingDescriptor>::empty());
            assert(spec_find_rule(spec_run_rules(*run), *result) is None) by {
                match spec_rule_ref_id(*result) {
                    Some(id) => lemma_rule_id_index(spec_run_rules(*run), id),
                    None => {},
                }
            }
        }
    }
    match from_rule {
        Some(t) => Some(t),
        None => match &result.message.id {
            Some(mid) => match &run.tool.driver.global_message_strings {
                Some(tbl) => lookup_message_string(tbl, mid),
                None => None,
            },
            None => None,
        },
    }
}

/// The full description of the rule referenced by the result, if both exist.
pub open spec fn spec_full_description(rules: Seq<ReportingDescriptor>, r: SarifResult) -> Option<
    Seq<char>,
> {
    match spec_find_rule(rules, r) {
        Some(i) => match rules[i].full_description {
            Some(m) => Some(m.text@),
            None => None,
        },
        None => None,
    }
}

/// The short description of the rule referenced by the result, if both
/// exist.
pub open spec fn spec_short_description(rules: Seq<ReportingDescriptor>, r: SarifResult) -> Option<
    Seq<char>,
> {
    match spec_find_rule(rules, r) {
        Some(i) => match rules[i].short_description {
            Some(m) => Some(m.text@),
            None => None,
        },
        None => None,
    }
}

/// Returns the full description text of the result's rule, used as an
/// explanatory note under the rendered diagnostic.
pub fn resolve_full_description_from_result(
    rules: &Vec<ReportingDescriptor>,
    result: &SarifResult,
) -> (r: Option<String>)
    ensures
        match r {
            Some(t) => spec_full_description(rules@, *result) == Some(t@),
            None => spec_full_description(rules@, *result) is None,
        },
{
    match find_rule(rules, result) {
        Some(i) => match &rules[i].full_description {
            Some(m) => Some(m.text.clone()),
            None => None,
        },
        None => None,
    }
}

/// Returns the short description text of the result's rule, used as an
/// explanatory note under the rendered diagnostic.
pub fn resolve_short_description_from_result(
    rules: &Vec<ReportingDescriptor>,
    result: &SarifResult,
) -> (r: Option<String>)
    ensures
        match r {
            Some(t) => spec_short_description(rules@, *result) == Some(t@),
            None => spec_short_description(rules@, *result) is None,
        },
{
    match find_rule(rules, result) {
        Some(i) => match &rules[i].short_description {
            Some(m) => Some(m.text.clone()),
            None => None,
        },
        None => None,
    }
}

} // verus!
