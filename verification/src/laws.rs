//! Laws of the resolution procedures, stated and proved once for all
//! documents: the precedence steps of level resolution, the order of the
//! message fallback chain, and the degradation rules of the position
//! mapper.

use vstd::prelude::*;
use crate::files::{
    spec_chars_in, spec_column_of, spec_is_newline, spec_starts_newlines, FileEntry,
};
use crate::region::{
    lemma_byte_of_col_found, lemma_chars_in_mono, spec_default_end_col, spec_region_end,
    spec_region_start, spec_try_get_byte_offset,
};
use crate::resolve::{
    spec_find_rule, spec_invocation_overrides, spec_lookup_message_string, spec_override_index,
    spec_override_level, spec_resolve_level, spec_resolve_message, spec_run_rules,
};
use crate::sarif::{Region, ReportingDescriptor, ResultLevel, Run, SarifResult};

verus! {

/// The four level strings parse to their four levels.
proof fn lemma_parse_levels()
    ensures
        ResultLevel::spec_parse("none"@) == Some(ResultLevel::NoneLevel),
        ResultLevel::spec_parse("note"@) == Some(ResultLevel::Note),
        ResultLevel::spec_parse("warning"@) == Some(ResultLevel::Warning),
        ResultLevel::spec_parse("error"@) == Some(ResultLevel::Error),
{
    reveal_strlit("none");
    reveal_strlit("note");
    reveal_strlit("warning");
    reveal_strlit("error");
    assert("none"@.len() == 4);
    assert("note"@.len() == 4);
    assert("warning"@.len() == 7);
    assert("error"@.len() == 5);
    assert("none"@[2] == 'n');
    assert("note"@[2] == 't');
}

/// Level resolution precedence, default step: a result whose kind is absent
/// (treated as `fail`) and whose level is absent takes the level of its
/// rule's default configuration — here `error` — when no invocation-level
/// override applies.
pub proof fn lemma_level_rule_default(
    rules: Seq<ReportingDescriptor>,
    run: Run,
    r: SarifResult,
    i: int,
)
    requires
        r.kind is None,
        r.level is None,
        spec_find_rule(rules, r) == Some(i),
        rules[i].default_configuration is Some,
        rules[i].default_configuration->0.level is Some,
        rules[i].default_configuration->0.level->0@ == "error"@,
        spec_override_level(run, r, rules[i]) is None,
    ensures
        spec_resolve_level(rules, run, r) == ResultLevel::Error,
{
    lemma_parse_levels();
}

/// Level resolution precedence, override step: with the same rule and a
/// rule default of `error`, an invocation-level configuration override for
/// the rule that specifies `note` wins over the rule default.
pub proof fn lemma_level_override_wins(
    rules: Seq<ReportingDescriptor>,
    run: Run,
    r: SarifResult,
    i: int,
    j: int,
)
    requires
        r.kind is None,
        r.level is None,
        spec_find_rule(rules, r) == Some(i),
        rules[i].default_configuration is Some,
        rules[i].default_configuration->0.level is Some,
        rules[i].default_configuration->0.level->0@ == "error"@,
        spec_invocation_overrides(run, r) is Some,
        spec_override_index(spec_invocation_overrides(run, r)->0, rules[i].id@) == Some(j),
        spec_invocation_overrides(run, r)->0[j].configuration.level is Some,
        spec_invocation_overrides(run, r)->0[j].configuration.level->0@ == "note"@,
    ensures
        spec_resolve_level(rules, run, r) == ResultLevel::Note,
{
    lemma_parse_levels();
}

/// Message fallback order, first step: a result with literal message text
/// always resolves to that text, whatever message id it also carries.
pub proof fn lemma_message_text_wins(run: Run, r: SarifResult)
    requires
        r.message.text is Some,
    ensures
        spec_resolve_message(run, r) == Some(r.message.text->0@),
{
}

/// Message fallback order, second step: a result without literal text but
/// with a message id resolves through its rule's message-string table when
/// the table has the id, whatever the tool's global table holds.
pub proof fn lemma_message_rule_before_global(run: Run, r: SarifResult, i: int)
    requires
        r.message.text is None,
        r.message.id is Some,
        spec_find_rule(spec_run_rules(run), r) == Some(i),
        spec_run_rules(run)[i].message_strings is Some,
        spec_lookup_message_string(
            spec_run_rules(run)[i].message_strings->0@,
            r.message.id->0@,
        ) is Some,
    ensures
        spec_resolve_message(run, r) == spec_lookup_message_string(
            spec_run_rules(run)[i].message_strings->0@,
            r.message.id->0@,
        ),
{
}

/// Region mapping, start bound: without a byte offset, the start of a
/// region with explicit start line and column is the first byte of that
/// line whose column equals the start column.
pub proof fn lemma_region_start_is_column_byte(entry: FileEntry, region: Region, b: int)
    requires
        entry.wf(),
        region.byte_offset is None,
        region.start_line is Some,
        region.start_column is Some,
        spec_try_get_byte_offset(
            entry,
            region.start_line->0 as int,
            region.start_column->0 as int,
        ) == Some(b),
    ensures
        spec_region_start(entry, region) == Some(b),
        ({
            let row = region.start_line->0 as int;
            let ls = entry.spec_line_start(row - 1);
            let le = entry.spec_line_start(row);
            &&& ls <= b < le
            &&& spec_column_of(entry.text@, ls, le, b) == region.start_column->0 as int
            &&& forall|q: int|
                ls <= q < b ==> spec_column_of(entry.text@, ls, le, q) != region.start_column->0
                    as int
        }),
{
    let row = region.start_line->0 as int;
    let col = region.start_column->0 as int;
    let ls = entry.spec_line_start(row - 1);
    let le = entry.spec_line_start(row);
    lemma_byte_of_col_found(entry.text@, ls, le, ls, col);
}

/// Region mapping, absent end: a region with no byte length and no end
/// line or column collapses to a zero-width range at its start whenever the
/// end-of-line default cannot resolve — as on the last line of a text that
/// does not end in a newline, where no byte sits one past the last column.
pub proof fn lemma_region_no_end_zero_width(entry: FileEntry, region: Region, start: int)
    requires
        entry.wf(),
        region.byte_length is None,
        region.end_line is None,
        region.end_column is None,
        region.start_line is Some,
        ({
            let sl = region.start_line->0 as int;
            let ls = entry.spec_line_start(sl - 1);
            let le = entry.spec_line_start(sl);
            &&& 1 <= sl <= entry.spec_num_lines()
            &&& ls < le
            &&& !spec_is_newline(entry.text@[le - 1])
        }),
    ensures
        spec_region_end(entry, region, start) == start,
{
    let sl = region.start_line->0 as int;
    let ls = entry.spec_line_start(sl - 1);
    let le = entry.spec_line_start(sl);
    let text = entry.text@;
    // A line not ending in a newline is the last line, so it runs to the
    // end of the text.
    assert(le == text.len()) by {
        reveal(spec_starts_newlines);
        if sl < entry.spec_num_lines() {
            assert(spec_is_newline(text[entry.line_starts@[sl] - 1]));
        }
    }
    let c = spec_default_end_col(entry, sl)->0;
    assert(c == 1 + spec_chars_in(text, ls, le));
    // Every byte of the line has a strictly smaller column: the line's last
    // byte completes one more character than any position on the line.
    assert forall|q: int| ls <= q < le implies spec_column_of(text, ls, le, q) != c by {
        lemma_chars_in_mono(text, ls, q, le - 1);
        assert(spec_chars_in(text, ls, le) == spec_chars_in(text, ls, le - 1) + 1);
    }
    lemma_byte_of_col_found(text, ls, le, ls, c);
}

/// Region mapping, byte-offset precedence: when a region carries a byte
/// offset, the offset alone decides the start, whatever line/column data
/// the region also carries; an offset outside the address space yields no
/// start rather than a truncated one.
pub proof fn lemma_byte_offset_wins(entry: FileEntry, region: Region)
    requires
        region.byte_offset is Some,
    ensures
        spec_region_start(entry, region) == (if 0 <= region.byte_offset->0
            && region.byte_offset->0 as int <= usize::MAX as int {
            Some(region.byte_offset->0 as int)
        } else {
            None::<int>
        }),
{
}

} // verus!
