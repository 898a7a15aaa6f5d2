use sarif_fmt::resolve::{
    find_rule, resolve_full_description_from_result, resolve_level,
    resolve_message_text_from_result, resolve_short_description_from_result,
};
use sarif_fmt::sarif::{
    ConfigurationOverride, Invocation, Message, MessageString, MultiformatMessageString,
    ReportingConfiguration, ReportingDescriptor, ReportingDescriptorReference, ResultLevel,
    ResultProvenance, Run, SarifResult, Tool, ToolComponent,
};

fn empty_result() -> SarifResult {
    SarifResult {
        rule_id: None,
        rule_index: None,
        rule: None,
        level: None,
        kind: None,
        message: Message { text: None, id: None },
        locations: None,
        related_locations: None,
        fixes: None,
        provenance: None,
    }
}

fn rule(id: &str) -> ReportingDescriptor {
    ReportingDescriptor {
        id: id.to_string(),
        name: None,
        short_description: None,
        full_description: None,
        default_configuration: None,
        help_uri: None,
        message_strings: None,
    }
}

fn run_with(rules: Option<Vec<ReportingDescriptor>>, invocations: Option<Vec<Invocation>>) -> Run {
    Run {
        tool: Tool {
            driver: ToolComponent {
                name: "tool".to_string(),
                information_uri: None,
                rules,
                global_message_strings: None,
            },
        },
        results: None,
        original_uri_base_ids: None,
        invocations,
    }
}

#[test]
fn level_explicit_wins() {
    let rules = vec![];
    let run = run_with(None, None);
    let mut r = empty_result();
    r.level = Some("error".to_string());
    assert_eq!(resolve_level(&rules, &run, &r), ResultLevel::Error);
}

#[test]
fn level_kind_not_fail_is_none() {
    let rules = vec![];
    let run = run_with(None, None);
    let mut r = empty_result();
    r.kind = Some("pass".to_string());
    r.level = Some("error".to_string());
    assert_eq!(resolve_level(&rules, &run, &r), ResultLevel::NoneLevel);
}

#[test]
fn level_default_is_warning() {
    let rules = vec![];
    let run = run_with(None, None);
    let r = empty_result();
    assert_eq!(resolve_level(&rules, &run, &r), ResultLevel::Warning);
}

#[test]
fn level_unrecognized_explicit_is_warning() {
    let rules = vec![];
    let run = run_with(None, None);
    let mut r = empty_result();
    r.level = Some("severe".to_string());
    assert_eq!(resolve_level(&rules, &run, &r), ResultLevel::Warning);
}

#[test]
fn level_rule_default_applies() {
    // kind absent (treated as fail), no explicit level, rule default error
    let mut rl = rule("R1");
    rl.default_configuration = Some(ReportingConfiguration { level: Some("error".to_string()) });
    let rules = vec![rl];
    let run = run_with(None, None);
    let mut r = empty_result();
    r.rule = Some(ReportingDescriptorReference { id: None, index: Some(0) });
    assert_eq!(resolve_level(&rules, &run, &r), ResultLevel::Error);
}

#[test]
fn level_override_wins_over_rule_default() {
    let mut rl = rule("R1");
    rl.default_configuration = Some(ReportingConfiguration { level: Some("error".to_string()) });
    let rules = vec![rl];
    let inv = Invocation {
        rule_configuration_overrides: Some(vec![ConfigurationOverride {
            descriptor: ReportingDescriptorReference { id: Some("R1".to_string()), index: None },
            configuration: ReportingConfiguration { level: Some("note".to_string()) },
        }]),
    };
    let run = run_with(None, Some(vec![inv]));
    let mut r = empty_result();
    r.rule = Some(ReportingDescriptorReference { id: None, index: Some(0) });
    r.provenance = Some(ResultProvenance { invocation_index: Some(0) });
    assert_eq!(resolve_level(&rules, &run, &r), ResultLevel::Note);
}

#[test]
fn find_rule_by_index_and_by_id() {
    let rules = vec![rule("A"), rule("B")];
    let mut r = empty_result();
    r.rule_index = Some(1);
    assert_eq!(find_rule(&rules, &r), Some(1));

    let mut r2 = empty_result();
    r2.rule_id = Some("B".to_string());
    assert_eq!(find_rule(&rules, &r2), Some(1));

    let mut r3 = empty_result();
    r3.rule_index = Some(5);
    assert_eq!(find_rule(&rules, &r3), None);

    let mut r4 = empty_result();
    r4.rule_id = Some("C".to_string());
    assert_eq!(find_rule(&rules, &r4), None);
}

#[test]
fn message_text_wins_over_id() {
    let mut table_rule = rule("R1");
    table_rule.message_strings = Some(vec![MessageString {
        id: "m1".to_string(),
        text: "from rule".to_string(),
    }]);
    let run = run_with(Some(vec![table_rule]), None);
    let mut r = empty_result();
    r.rule = Some(ReportingDescriptorReference { id: None, index: Some(0) });
    r.message = Message { text: Some("a".to_string()), id: Some("m1".to_string()) };
    assert_eq!(resolve_message_text_from_result(&r, &run), Some("a".to_string()));
}

#[test]
fn message_rule_table_before_global() {
    let mut table_rule = rule("R1");
    table_rule.message_strings = Some(vec![MessageString {
        id: "m1".to_string(),
        text: "from rule".to_string(),
    }]);
    let mut run = run_with(Some(vec![table_rule]), None);
    run.tool.driver.global_message_strings = Some(vec![MessageString {
        id: "m1".to_string(),
        text: "from global".to_string(),
    }]);
    let mut r = empty_result();
    r.rule = Some(ReportingDescriptorReference { id: None, index: Some(0) });
    r.message = Message { text: None, id: Some("m1".to_string()) };
    assert_eq!(resolve_message_text_from_result(&r, &run), Some("from rule".to_string()));
}

#[test]
fn message_global_fallback_and_failure() {
    let run_with_global = {
        let mut run = run_with(None, None);
        run.tool.driver.global_message_strings = Some(vec![MessageString {
            id: "m1".to_string(),
            text: "from global".to_string(),
        }]);
        run
    };
    let mut r = empty_result();
    r.message = Message { text: None, id: Some("m1".to_string()) };
    assert_eq!(
        resolve_message_text_from_result(&r, &run_with_global),
        Some("from global".to_string())
    );

    let bare_run = run_with(None, None);
    assert_eq!(resolve_message_text_from_result(&r, &bare_run), None);
}

#[test]
fn descriptions_resolve_through_rule() {
    let mut rl = rule("R1");
    rl.short_description = Some(MultiformatMessageString { text: "short".to_string() });
    rl.full_description = Some(MultiformatMessageString { text: "full".to_string() });
    let rules = vec![rl];
    let mut r = empty_result();
    r.rule_index = Some(0);
    assert_eq!(
        resolve_short_description_from_result(&rules, &r),
        Some("short".to_string())
    );
    assert_eq!(
        resolve_full_description_from_result(&rules, &r),
        Some("full".to_string())
    );
    let other = empty_result();
    assert_eq!(resolve_short_description_from_result(&rules, &other), None);
    assert_eq!(resolve_full_description_from_result(&rules, &other), None);
}
