//! The diagnostic renderer: composes resolved level, message, source
//! excerpts and rule notes into rendered units, and accumulates per-severity
//! counts for the trailing summary.
//!
//! Rendering is pure: it consumes a document and a [`FileStore`] of already
//! loaded artifacts and produces data. A caller draws the framed form of a
//! [`RenderedDiagnostic`] on a terminal, or prints the plain lines.
//!
//! A result whose message cannot be resolved is omitted whole. A location
//! whose artifact is not loaded, whose region cannot be placed, or whose
//! byte range does not fit the loaded text, is omitted silently: the message
//! and level are still shown.

use vstd::prelude::*;
use vstd::string::StringExecFns;
use crate::files::FileStore;
use crate::region::{get_byte_range, spec_region_end, spec_region_start};
use crate::resolve::{
    resolve_full_description_from_result, resolve_level, resolve_message_text_from_result,
    resolve_short_description_from_result, spec_full_description, spec_resolve_level,
    spec_resolve_message, spec_run_rules, spec_short_description,
};
use crate::sarif::{Location, ReportingDescriptor, ResultLevel, Run, Sarif, SarifResult};
use crate::text::{
    lemma_lex_refl, lemma_lex_total, lemma_lex_trans, spec_dec, spec_lex_le, u64_to_string,
};

verus! {

/// The severity of a framed rendering. A result level of `none` has no
/// framed severity of its own and renders as a warning.
#[derive(Clone, Copy, Debug, PartialEq, Eq, Structural)]
pub enum Severity {
    Note,
    Warning,
    Error,
}

/// The framed severity of a resolved result level.
pub open spec fn spec_severity_of(lv: ResultLevel) -> Severity {
    match lv {
        ResultLevel::Note => Severity::Note,
        ResultLevel::Warning => Severity::Warning,
        ResultLevel::Error => Severity::Error,
        ResultLevel::NoneLevel => Severity::Warning,
    }
}

/// Maps a resolved result level to the severity of its framed rendering.
pub fn severity_of(lv: ResultLevel) -> (s: Severity)
    ensures
        s == spec_severity_of(lv),
{
    match lv {
        ResultLevel::Note => Severity::Note,
        ResultLevel::Warning => Severity::Warning,
        ResultLevel::Error => Severity::Error,
        ResultLevel::NoneLevel => Severity::Warning,
    }
}

/// One labeled span of a rendered diagnostic: a byte range into a stored
/// file, primary (the finding itself) or secondary (a related location,
/// labeled by its own message).
pub struct RenderedLabel {
    pub file_id: usize,
    pub start: usize,
    pub end: usize,
    pub secondary: bool,
    pub message: String,
}

/// One rendered diagnostic: severity, message, explanatory notes, and
/// labeled source spans.
pub struct RenderedDiagnostic {
    pub severity: Severity,
    pub message: String,
    pub notes: Vec<String>,
    pub labels: Vec<RenderedLabel>,
}

/// Everything the source-framed mode emits: the diagnostics in document
/// order, the per-severity counts, and the trailing summary lines.
pub struct RenderedOutput {
    pub diagnostics: Vec<RenderedDiagnostic>,
    pub notes_count: usize,
    pub warnings_count: usize,
    pub errors_count: usize,
    pub summary: Vec<String>,
}

/// The byte range that a location selects inside the store: its artifact
/// must be cached under the location's literal URI, its region must resolve
/// to a range, and the range must fit the loaded text.
pub open spec fn spec_loc_range(store: FileStore, loc: Location) -> Option<(int, int, int)> {
    match loc.physical_location {
        Some(phys) => match phys.artifact_location {
            Some(al) => match al.uri {
                Some(uri) => match phys.region {
                    Some(reg) => match store.spec_lookup(uri@) {
                        Some(fid) => {
                            let entry = store.entries@[fid];
                            match spec_region_start(entry, reg) {
                                Some(s) => {
                                    let e = spec_region_end(entry, reg, s);
                                    if s <= e <= entry.text@.len() {
                                        Some((fid, s, e))
                                    } else {
                                        None
                                    }
                                },
                                None => None,
                            }
                        },
                        None => None,
                    },
                    None => None,
                },
                None => None,
            },
            None => None,
        },
        None => None,
    }
}

/// Resolves the byte range of one location against the store.
pub fn loc_range(store: &FileStore, loc: &Location) -> (r: Option<(usize, usize, usize)>)
    requires
        store.wf(),
    ensures
        match r {
            Some(t) => spec_loc_range(*store, *loc) == Some((t.0 as int, t.1 as int, t.2 as int))
                && t.0 < store.entries@.len(),
            None => spec_loc_range(*store, *loc) is None,
        },
{
    let phys = match &loc.physical_location {
        Some(p) => p,
        None => {
            return None;
        },
    };
    let al = match &phys.artifact_location {
        Some(a) => a,
        None => {
            return None;
        },
    };
    let uri = match &al.uri {
        Some(u) => u,
        None => {
            return None;
        },
    };
    let reg = match &phys.region {
        Some(r) => r,
        None => {
            return None;
        },
    };
    let fid = match store.lookup(uri) {
        Some(f) => f,
        None => {
            return None;
        },
    };
    match get_byte_range(fid, store, reg) {
        (Some(s), Some(e)) => {
            if s <= e && e <= store.entries[fid].text.len() {
                Some((fid, s, e))
            } else {
                None
            }
        },
        _ => None,
    }
}

/// The label text a related location carries: its own message text, or
/// empty.
pub open spec fn spec_loc_label_msg(loc: Location) -> Seq<char> {
    match loc.message {
        Some(m) => match m.text {
            Some(t) => t@,
            None => Seq::empty(),
        },
        None => Seq::empty(),
    }
}

/// The labeled spans that a list of locations contributes, scanning from
/// position `i`: one `(file id, start, end, label text)` per resolvable
/// location, in order. Primary spans carry no label text.
pub open spec fn spec_label_srcs_from(
    store: FileStore,
    locs: Seq<Location>,
    sec: bool,
    i: int,
) -> Seq<(int, int, int, Seq<char>)>
    decreases locs.len() - i,
{
    if i < 0 || i >= locs.len() {
        Seq::empty()
    } else {
        let rest = spec_label_srcs_from(store, locs, sec, i + 1);
        match spec_loc_range(store, locs[i]) {
            Some(t) => seq![
                (
                    t.0,
                    t.1,
                    t.2,
                    if sec {
                        spec_loc_label_msg(locs[i])
                    } else {
                        Seq::empty()
                    },
                ),
            ] + rest,
            None => rest,
        }
    }
}

/// Whether a rendered label carries exactly the data of a labeled span.
pub open spec fn spec_label_matches(
    l: RenderedLabel,
    t: (int, int, int, Seq<char>),
    sec: bool,
) -> bool {
    &&& l.file_id == t.0
    &&& l.start == t.1
    &&& l.end == t.2
    &&& l.message@ == t.3
    &&& l.secondary == sec
}

/// Appends one rendered label per resolvable location to `out`, in order.
fn collect_labels(store: &FileStore, locs: &Vec<Location>, secondary: bool, out: &mut Vec<
    RenderedLabel,
>)
    requires
        store.wf(),
    ensures
        ({
            let full = spec_label_srcs_from(*store, locs@, secondary, 0);
            &&& final(out)@.len() == old(out)@.len() + full.len()
            &&& forall|k: int| 0 <= k < old(out)@.len() ==> final(out)@[k] == old(out)@[k]
            &&& forall|k: int|
                0 <= k < full.len() ==> spec_label_matches(
                    final(out)@[old(out)@.len() + k],
                    #[trigger] full[k],
                    secondary,
                )
        }),
{
    let ghost full = spec_label_srcs_from(*store, locs@, secondary, 0);
    let ghost mut done: Seq<(int, int, int, Seq<char>)> = Seq::empty();
    let ghost old_len = out@.len() as int;
    let mut i: usize = 0;
    proof {
        assert(done + spec_label_srcs_from(*store, locs@, secondary, 0) =~= full);
    }
    while i < locs.len()
        invariant
            store.wf(),
            i <= locs@.len(),
            full == spec_label_srcs_from(*store, locs@, secondary, 0),
            done + spec_label_srcs_from(*store, locs@, secondary, i as int) =~= full,
            out@.len() == old_len + done.len(),
            old_len == old(out)@.len(),
            forall|k: int| 0 <= k < old_len ==> out@[k] == old(out)@[k],
            forall|k: int|
                0 <= k < done.len() ==> spec_label_matches(
                    #[trigger] out@[old_len + k],
                    done[k],
                    secondary,
                ),
        decreases locs@.len() - i,
    {
        match loc_range(store, &locs[i]) {
            Some(t) => {
                let msg: String = if secondary {
                    match &locs[i].message {
                        Some(m) => match &m.text {
                            Some(tx) => tx.clone(),
                            None => String::new(),
                        },
                        None => String::new(),
                    }
                } else {
                    String::new()
                };
                let ghost tup = (
                    t.0 as int,
                    t.1 as int,
                    t.2 as int,
                    if secondary {
                        spec_loc_label_msg(locs@[i as int])
                    } else {
                        Seq::empty()
                    },
                );
                out.push(
                    RenderedLabel {
                        file_id: t.0,
                        start: t.1,
                        end: t.2,
                        secondary,
                        message: msg,
                    },
                );
                proof {
                    assert(spec_label_srcs_from(*store, locs@, secondary, i as int) == seq![tup]
                        + spec_label_srcs_from(*store, locs@, secondary, i as int + 1));
                    assert(done.push(tup) + spec_label_srcs_from(
                        *store,
                        locs@,
                        secondary,
                        i as int + 1,
                    ) =~= done + (seq![tup] + spec_label_srcs_from(
                        *store,
                        locs@,
                        secondary,
                        i as int + 1,
                    )));
                    done = done.push(tup);
                }
            },
            None => {},
        }
        i = i + 1;
    }
}

/// The explanatory notes of a rendered result: the short description of its
/// rule, then the full description, each when resolvable.
pub open spec fn spec_notes(rules: Seq<ReportingDescriptor>, r: SarifResult) -> Seq<Seq<char>> {
    (match spec_short_description(rules, r) {
        Some(t) => seq![t],
        None => Seq::empty(),
    }) + (match spec_full_description(rules, r) {
        Some(t) => seq![t],
        None => Seq::empty(),
    })
}

/// The locations of an optional location list.
pub open spec fn spec_locs(o: Option<Vec<Location>>) -> Seq<Location> {
    match o {
        Some(v) => v@,
        None => Seq::empty(),
    }
}

/// Whether a rendered diagnostic is exactly the rendering of a result: the
/// resolved message and severity, the rule's descriptions as notes, one
/// primary label per resolvable location and one secondary label per
/// resolvable related location.
pub open spec fn spec_diag_matches(
    d: RenderedDiagnostic,
    rules: Seq<ReportingDescriptor>,
    run: Run,
    r: SarifResult,
    store: FileStore,
) -> bool {
    &&& spec_resolve_message(run, r) == Some(d.message@)
    &&& d.severity == spec_severity_of(spec_resolve_level(rules, run, r))
    &&& d.notes@.len() == spec_notes(rules, r).len()
    &&& forall|k: int|
        0 <= k < d.notes@.len() ==> (#[trigger] d.notes@[k])@ == spec_notes(rules, r)[k]
    &&& ({
        let prim = spec_label_srcs_from(store, spec_locs(r.locations), false, 0);
        let sec = spec_label_srcs_from(store, spec_locs(r.related_locations), true, 0);
        &&& d.labels@.len() == prim.len() + sec.len()
        &&& forall|k: int|
            0 <= k < prim.len() ==> spec_label_matches(#[trigger] d.labels@[k], prim[k], false)
        &&& forall|k: int|
            prim.len() <= k < d.labels@.len() ==> spec_label_matches(
                #[trigger] d.labels@[k],
                sec[k - prim.len()],
                true,
            )
    })
}

/// Renders one result as a framed diagnostic, or nothing when its message
/// cannot be resolved.
pub fn render_result_pretty(
    rules: &Vec<ReportingDescriptor>,
    run: &Run,
    result: &SarifResult,
    store: &FileStore,
) -> (r: Option<RenderedDiagnostic>)
    requires
        store.wf(),
    ensures
        match r {
            Some(d) => spec_diag_matches(d, rules@, *run, *result, *store),
            None => spec_resolve_message(*run, *result) is None,
        },
{
    let message = match resolve_message_text_from_result(result, run) {
        Some(m) => m,
        None => {
            return None;
        },
    };
    let severity = severity_of(resolve_level(rules, run, result));
    let mut notes: Vec<String> = Vec::new();
    match resolve_short_description_from_result(rules, result) {
        Some(t) => notes.push(t),
        None => {},
    }
    match resolve_full_description_from_result(rules, result) {
        Some(t) => notes.push(t),
        None => {},
    }
    proof {
        let sn = spec_notes(rules@, *result);
        match spec_short_description(rules@, *result) {
            Some(s) => match spec_full_description(rules@, *result) {
                Some(f) => {
                    assert(sn =~= seq![s, f]);
                },
                None => {
                    assert(sn =~= seq![s]);
                },
            },
            None => match spec_full_description(rules@, *result) {
                Some(f) => {
                    assert(sn =~= seq![f]);
                },
                None => {
                    assert(sn =~= Seq::<Seq<char>>::empty());
                },
            },
        }
    }
    let mut labels: Vec<RenderedLabel> = Vec::new();
    match &result.locations {
        Some(locs) => collect_labels(store, locs, false, &mut labels),
        None => {},
    }
    proof {
        let prim = spec_label_srcs_from(*store, spec_locs(result.locations), false, 0);
        assert(labels@.len() == prim.len());
        assert(forall|k: int|
            0 <= k < prim.len() ==> spec_label_matches(#[trigger] labels@[k], prim[k], false));
    }
    match &result.related_locations {
        Some(locs) => collect_labels(store, locs, true, &mut labels),
        None => {},
    }
    proof {
        let prim = spec_label_srcs_from(*store, spec_locs(result.locations), false, 0);
        let sec = spec_label_srcs_from(*store, spec_locs(result.related_locations), true, 0);
        assert(labels@.len() == prim.len() + sec.len());
        assert(forall|k: int|
            0 <= k < prim.len() ==> spec_label_matches(#[trigger] labels@[k], prim[k], false));
        assert(forall|k: int|
            prim.len() <= k < labels@.len() ==> spec_label_matches(
                #[trigger] labels@[k],
                sec[k - prim.len()],
                true,
            ));
    }
    Some(RenderedDiagnostic { severity, message, notes, labels })
}

/// The results of a run, empty when it declares none.
pub open spec fn spec_run_results(run: Run) -> Seq<SarifResult> {
    match run.results {
        Some(v) => v@,
        None => Seq::empty(),
    }
}

/// The `(run, result)` index pairs that the renderer emits, scanning runs
/// from `i` and the results of run `i` from `j`: document order, skipping
/// results whose message cannot be resolved.
pub open spec fn spec_pairs_from(runs: Seq<Run>, i: int, j: int) -> Seq<(int, int)>
    decreases runs.len() - i, spec_run_results(runs[i]).len() - j + 1,
{
    if i < 0 || i >= runs.len() {
        Seq::empty()
    } else {
        let res = spec_run_results(runs[i]);
        if !(0 <= j <= res.len()) {
            Seq::empty()
        } else if j == res.len() {
            spec_pairs_from(runs, i + 1, 0)
        } else if spec_resolve_message(runs[i], res[j]) is Some {
            seq![(i, j)] + spec_pairs_from(runs, i, j + 1)
        } else {
            spec_pairs_from(runs, i, j + 1)
        }
    }
}

/// How many of the emitted results carry the given framed severity,
/// scanning as [`spec_pairs_from`] does.
pub open spec fn spec_count_from(runs: Seq<Run>, i: int, j: int, sv: Severity) -> int
    decreases runs.len() - i, spec_run_results(runs[i]).len() - j + 1,
{
    if i < 0 || i >= runs.len() {
        0
    } else {
        let res = spec_run_results(runs[i]);
        if !(0 <= j <= res.len()) {
            0
        } else if j == res.len() {
            spec_count_from(runs, i + 1, 0, sv)
        } else {
            (if spec_resolve_message(runs[i], res[j]) is Some && spec_severity_of(
                spec_resolve_level(spec_run_rules(runs[i]), runs[i], res[j]),
            ) == sv {
                1int
            } else {
                0int
            }) + spec_count_from(runs, i, j + 1, sv)
        }
    }
}

/// Whether a rendered diagnostic is the rendering of the result that an
/// index pair selects.
pub open spec fn spec_pair_diag_matches(
    d: RenderedDiagnostic,
    runs: Seq<Run>,
    store: FileStore,
    pr: (int, int),
) -> bool {
    &&& 0 <= pr.0 < runs.len()
    &&& 0 <= pr.1 < spec_run_results(runs[pr.0]).len()
    &&& spec_diag_matches(
        d,
        spec_run_rules(runs[pr.0]),
        runs[pr.0],
        spec_run_results(runs[pr.0])[pr.1],
        store,
    )
}

/// The trailing summary: one line per severity with a non-zero count, for
/// warnings and errors.
pub open spec fn spec_summary_lines(w: int, e: int) -> Seq<Seq<char>> {
    (if w > 0 {
        seq!["warning: "@ + spec_dec(w) + " warnings emitted"@]
    } else {
        Seq::empty()
    }) + (if e > 0 {
        seq!["error: "@ + spec_dec(e) + " errors emitted"@]
    } else {
        Seq::empty()
    })
}

/// Builds the trailing summary lines for the given warning and error
/// counts: `warning: N warnings emitted` when warnings were emitted, then
/// `error: N errors emitted` when errors were.
pub fn summary_lines(warnings: usize, errors: usize) -> (r: Vec<String>)
    ensures
        r@.len() == spec_summary_lines(warnings as int, errors as int).len(),
        forall|k: int|
            0 <= k < r@.len() ==> (#[trigger] r@[k])@ == spec_summary_lines(
                warnings as int,
                errors as int,
            )[k],
{
    let mut r: Vec<String> = Vec::new();
    if warnings > 0 {
        let line = String::from_str("warning: ").concat(
            u64_to_string(warnings as u64).as_str(),
        ).concat(" warnings emitted");
        r.push(line);
    }
    if errors > 0 {
        let line = String::from_str("error: ").concat(u64_to_string(errors as u64).as_str()).concat(
            " errors emitted",
        );
        r.push(line);
    }
    r
}

/// Renders a document in the source-framed mode: one diagnostic per result
/// whose message resolves, in document order, with per-severity counts and
/// the trailing summary.
pub fn render_pretty(sarif: &Sarif, store: &FileStore) -> (out: RenderedOutput)
    requires
        store.wf(),
    ensures
        ({
            let runs = sarif.runs@;
            let pairs = spec_pairs_from(runs, 0, 0);
            &&& out.diagnostics@.len() == pairs.len()
            &&& forall|k: int|
                0 <= k < pairs.len() ==> spec_pair_diag_matches(
                    #[trigger] out.diagnostics@[k],
                    runs,
                    *store,
                    pairs[k],
                )
            &&& out.notes_count as int == spec_count_from(runs, 0, 0, Severity::Note)
            &&& out.warnings_count as int == spec_count_from(runs, 0, 0, Severity::Warning)
            &&& out.errors_count as int == spec_count_from(runs, 0, 0, Severity::Error)
            &&& out.summary@.len() == spec_summary_lines(
                spec_count_from(runs, 0, 0, Severity::Warning),
                spec_count_from(runs, 0, 0, Severity::Error),
            ).len()
            &&& forall|k: int|
                0 <= k < out.summary@.len() ==> (#[trigger] out.summary@[k])@ == spec_summary_lines(
                    spec_count_from(runs, 0, 0, Severity::Warning),
                    spec_count_from(runs, 0, 0, Severity::Error),
                )[k]
        }),
{
    let ghost runs = sarif.runs@;
    let ghost pairs = spec_pairs_from(runs, 0, 0);
    let mut diagnostics: Vec<RenderedDiagnostic> = Vec::new();
    let mut notes_count: usize = 0;
    let mut warnings_count: usize = 0;
    let mut errors_count: usize = 0;
    let ghost mut done: Seq<(int, int)> = Seq::empty();
    let mut i: usize = 0;
    proof {
        assert(done + spec_pairs_from(runs, 0, 0) =~= pairs);
    }
    while i < sarif.runs.len()
        invariant
            store.wf(),
            runs == sarif.runs@,
            pairs == spec_pairs_from(runs, 0, 0),
            i <= runs.len(),
            done + spec_pairs_from(runs, i as int, 0) =~= pairs,
            diagnostics@.len() == done.len(),
            forall|k: int|
                0 <= k < done.len() ==> spec_pair_diag_matches(
                    #[trigger] diagnostics@[k],
                    runs,
                    *store,
                    done[k],
                ),
            notes_count + warnings_count + errors_count == diagnostics@.len(),
            notes_count as int + spec_count_from(runs, i as int, 0, Severity::Note)
                == spec_count_from(runs, 0, 0, Severity::Note),
            warnings_count as int + spec_count_from(runs, i as int, 0, Severity::Warning)
                == spec_count_from(runs, 0, 0, Severity::Warning),
            errors_count as int + spec_count_from(runs, i as int, 0, Severity::Error)
                == spec_count_from(runs, 0, 0, Severity::Error),
        decreases runs.len() - i,
    {
        let run = &sarif.runs[i];
        let empty_rules: Vec<ReportingDescriptor> = Vec::new();
        let rules: &Vec<ReportingDescriptor> = match &run.tool.driver.rules {
            Some(rs) => rs,
            None => &empty_rules,
        };
        proof {
            assert(rules@ =~= spec_run_rules(runs[i as int]));
        }
        match &run.results {
            Some(results) => {
                let mut j: usize = 0;
                while j < results.len()
                    invariant
                        store.wf(),
                        runs == sarif.runs@,
                        pairs == spec_pairs_from(runs, 0, 0),
                        i < runs.len(),
                        *run == runs[i as int],
                        rules@ == spec_run_rules(runs[i as int]),
                        results@ == spec_run_results(runs[i as int]),
                        j <= results@.len(),
                        done + spec_pairs_from(runs, i as int, j as int) =~= pairs,
                        diagnostics@.len() == done.len(),
                        forall|k: int|
                            0 <= k < done.len() ==> spec_pair_diag_matches(
                                #[trigger] diagnostics@[k],
                                runs,
                                *store,
                                done[k],
                            ),
                        notes_count + warnings_count + errors_count == diagnostics@.len(),
                        notes_count as int + spec_count_from(
                            runs,
                            i as int,
                            j as int,
                            Severity::Note,
                        ) == spec_count_from(runs, 0, 0, Severity::Note),
                        warnings_count as int + spec_count_from(
                            runs,
                            i as int,
                            j as int,
                            Severity::Warning,
                        ) == spec_count_from(runs, 0, 0, Severity::Warning),
                        errors_count as int + spec_count_from(
                            runs,
                            i as int,
                            j as int,
                            Severity::Error,
                        ) == spec_count_from(runs, 0, 0, Severity::Error),
                    decreases results@.len() - j,
                {
                    let result = &results[j];
                    match render_result_pretty(rules, run, result, store) {
                        Some(d) => {
                            let sv = d.severity;
                            diagnostics.push(d);
                            let dl = diagnostics.len();
                            proof {
                                assert(notes_count + warnings_count + errors_count + 1 == dl);
                            }
                            match sv {
                                Severity::Note => {
                                    notes_count = notes_count + 1;
                                },
                                Severity::Warning => {
                                    warnings_count = warnings_count + 1;
                                },
                                Severity::Error => {
                                    errors_count = errors_count + 1;
                                },
                            }
                            proof {
                                let tup = (i as int, j as int);
                                assert(spec_pairs_from(runs, i as int, j as int) == seq![tup]
                                    + spec_pairs_from(runs, i as int, j as int + 1));
                                assert(done.push(tup) + spec_pairs_from(
                                    runs,
                                    i as int,
                                    j as int + 1,
                                ) =~= done + (seq![tup] + spec_pairs_from(
                                    runs,
                                    i as int,
                                    j as int + 1,
                                )));
                                done = done.push(tup);
                            }
                        },
                        None => {},
                    }
                    j = j + 1;
                }
            },
            None => {},
        }
        i = i + 1;
    }
    let summary = summary_lines(warnings_count, errors_count);
    RenderedOutput { diagnostics, notes_count, warnings_count, errors_count, summary }
}

/// One line of the plain mode, before formatting: the path of the artifact,
/// the 1-based line and column of the span's start, the resolved level, and
/// the resolved message.
pub struct PlainDiag {
    pub path: String,
    pub line: usize,
    pub col: usize,
    pub level: ResultLevel,
    pub message: String,
}

/// The plain-mode items of one run, scanning results from `j` and the
/// locations of result `j` from `l`: one item per resolvable primary
/// location of each result whose message resolves, in document order. Each
/// item is `(file id, start byte, resolved level, message)`.
pub open spec fn spec_plain_srcs_from(run: Run, store: FileStore, j: int, l: int) -> Seq<
    (int, int, ResultLevel, Seq<char>),
>
    decreases spec_run_results(run).len() - j, spec_locs(spec_run_results(run)[j].locations).len()
        - l + 1,
{
    let res = spec_run_results(run);
    if !(0 <= j < res.len()) {
        Seq::empty()
    } else if spec_resolve_message(run, res[j]) is None {
        spec_plain_srcs_from(run, store, j + 1, 0)
    } else {
        let locs = spec_locs(res[j].locations);
        if !(0 <= l <= locs.len()) {
            Seq::empty()
        } else if l == locs.len() {
            spec_plain_srcs_from(run, store, j + 1, 0)
        } else {
            let rest = spec_plain_srcs_from(run, store, j, l + 1);
            match spec_loc_range(store, locs[l]) {
                Some(t) => seq![
                    (
                        t.0,
                        t.1,
                        spec_resolve_level(spec_run_rules(run), run, res[j]),
                        spec_resolve_message(run, res[j])->0,
                    ),
                ] + rest,
                None => rest,
            }
        }
    }
}

/// Whether a plain-mode item carries exactly the data of its source: the
/// cached name of the file, the line and column of the span's start, and
/// the resolved level and message.
pub open spec fn spec_plain_matches(
    d: PlainDiag,
    store: FileStore,
    t: (int, int, ResultLevel, Seq<char>),
) -> bool {
    &&& 0 <= t.0 < store.entries@.len()
    &&& d.path@ == store.entries@[t.0].name@
    &&& (d.line as int, d.col as int) == crate::files::spec_location_of(
        store.entries@[t.0],
        t.1,
    )
    &&& d.level == t.2
    &&& d.message@ == t.3
}

/// Collects the plain-mode items of one run, in document order.
pub fn collect_plain_items(run: &Run, store: &FileStore) -> (v: Vec<PlainDiag>)
    requires
        store.wf(),
    ensures
        ({
            let srcs = spec_plain_srcs_from(*run, *store, 0, 0);
            &&& v@.len() == srcs.len()
            &&& forall|k: int|
                0 <= k < srcs.len() ==> spec_plain_matches(v@[k], *store, #[trigger] srcs[k])
        }),
{
    let ghost full = spec_plain_srcs_from(*run, *store, 0, 0);
    let ghost mut done: Seq<(int, int, ResultLevel, Seq<char>)> = Seq::empty();
    let mut v: Vec<PlainDiag> = Vec::new();
    let empty_rules: Vec<ReportingDescriptor> = Vec::new();
    let rules: &Vec<ReportingDescriptor> = match &run.tool.driver.rules {
        Some(rs) => rs,
        None => &empty_rules,
    };
    proof {
        assert(rules@ =~= spec_run_rules(*run));
        assert(done + spec_plain_srcs_from(*run, *store, 0, 0) =~= full);
    }
    let results: &Vec<SarifResult> = match &run.results {
        Some(rs) => rs,
        None => {
            return v;
        },
    };
    let mut j: usize = 0;
    while j < results.len()
        invariant
            store.wf(),
            results@ == spec_run_results(*run),
            rules@ == spec_run_rules(*run),
            j <= results@.len(),
            full == spec_plain_srcs_from(*run, *store, 0, 0),
            done + spec_plain_srcs_from(*run, *store, j as int, 0) =~= full,
            v@.len() == done.len(),
            forall|k: int|
                0 <= k < done.len() ==> spec_plain_matches(v@[k], *store, #[trigger] done[k]),
        decreases results@.len() - j,
    {
        let result = &results[j];
        let level = resolve_level(rules, run, result);
        match resolve_message_text_from_result(result, run) {
            Some(text) => {
                match &result.locations {
                    Some(locs) => {
                        let mut l: usize = 0;
                        while l < locs.len()
                            invariant
                                store.wf(),
                                results@ == spec_run_results(*run),
                                rules@ == spec_run_rules(*run),
                                j < results@.len(),
                                *result == results@[j as int],
                                locs@ == spec_locs(results@[j as int].locations),
                                l <= locs@.len(),
                                level == spec_resolve_level(
                                    spec_run_rules(*run),
                                    *run,
                                    results@[j as int],
                                ),
                                spec_resolve_message(*run, results@[j as int]) == Some(text@),
                                full == spec_plain_srcs_from(*run, *store, 0, 0),
                                done + spec_plain_srcs_from(*run, *store, j as int, l as int)
                                    =~= full,
                                v@.len() == done.len(),
                                forall|k: int|
                                    0 <= k < done.len() ==> spec_plain_matches(
                                        v@[k],
                                        *store,
                                        #[trigger] done[k],
                                    ),
                            decreases locs@.len() - l,
                        {
                            match loc_range(store, &locs[l]) {
                                Some(t) => {
                                    let entry = &store.entries[t.0];
                                    let lc = crate::files::location_of(entry, t.1);
                                    let ghost tup = (t.0 as int, t.1 as int, level, text@);
                                    v.push(
                                        PlainDiag {
                                            path: entry.name.clone(),
                                            line: lc.0,
                                            col: lc.1,
                                            level,
                                            message: text.clone(),
                                        },
                                    );
                                    proof {
                                        assert(spec_plain_srcs_from(
                                            *run,
                                            *store,
                                            j as int,
                                            l as int,
                                        ) == seq![tup] + spec_plain_srcs_from(
                                            *run,
                                            *store,
                                            j as int,
                                            l as int + 1,
                                        ));
                                        assert(done.push(tup) + spec_plain_srcs_from(
                                            *run,
                                            *store,
                                            j as int,
                                            l as int + 1,
                                        ) =~= done + (seq![tup] + spec_plain_srcs_from(
                                            *run,
                                            *store,
                                            j as int,
                                            l as int + 1,
                                        )));
                                        done = done.push(tup);
                                    }
                                },
                                None => {},
                            }
                            l = l + 1;
                        }
                    },
                    None => {},
                }
            },
            None => {},
        }
        j = j + 1;
    }
    v
}

/// Whether a list of plain-mode items is ordered by path.
pub open spec fn spec_sorted_by_path(s: Seq<PlainDiag>) -> bool {
    forall|a: int, b: int|
        0 <= a < b < s.len() ==> spec_lex_le((#[trigger] s[a]).path@, (#[trigger] s[b]).path@)
}

/// Sorts plain-mode items by path (lexicographically by code point),
/// keeping exactly the same items.
pub fn sort_plain_items(items: Vec<PlainDiag>) -> (r: Vec<PlainDiag>)
    ensures
        spec_sorted_by_path(r@),
        r@.to_multiset() == items@.to_multiset(),
{
    broadcast use vstd::seq_lib::group_to_multiset_ensures;

    let mut rest = items;
    let mut out: Vec<PlainDiag> = Vec::new();
    proof {
        assert(out@.to_multiset().add(rest@.to_multiset()) =~= items@.to_multiset());
    }
    while rest.len() > 0
        invariant
            out@.to_multiset().add(rest@.to_multiset()) == items@.to_multiset(),
            spec_sorted_by_path(out@),
            forall|a: int, b: int|
                0 <= a < out@.len() && 0 <= b < rest@.len() ==> spec_lex_le(
                    (#[trigger] out@[a]).path@,
                    (#[trigger] rest@[b]).path@,
                ),
        decreases rest@.len(),
    {
        let mut m: usize = 0;
        let mut q: usize = 1;
        proof {
            lemma_lex_refl(rest@[0].path@);
        }
        while q < rest.len()
            invariant
                rest@.len() > 0,
                m < q,
                q <= rest@.len(),
                forall|b: int|
                    0 <= b < q ==> spec_lex_le(rest@[m as int].path@, (#[trigger] rest@[b]).path@),
            decreases rest@.len() - q,
        {
            if !crate::text::lex_le(rest[m].path.as_str(), rest[q].path.as_str()) {
                proof {
                    lemma_lex_total(rest@[m as int].path@, rest@[q as int].path@);
                    assert forall|b: int| 0 <= b < q + 1 implies spec_lex_le(
                        rest@[q as int].path@,
                        (#[trigger] rest@[b]).path@,
                    ) by {
                        if b < q {
                            lemma_lex_trans(
                                rest@[q as int].path@,
                                rest@[m as int].path@,
                                rest@[b].path@,
                            );
                        } else {
                            lemma_lex_refl(rest@[q as int].path@);
                        }
                    }
                }
                m = q;
            } else {
                proof {
                    lemma_lex_refl(rest@[q as int].path@);
                }
            }
            q = q + 1;
        }
        let ghost old_rest = rest@;
        let ghost old_out = out@;
        let item = rest.remove(m);
        proof {
            assert(old_rest.contains(old_rest[m as int]));
            assert(rest@ =~= old_rest.subrange(0, m as int) + old_rest.subrange(
                m as int + 1,
                old_rest.len() as int,
            ));
        }
        out.push(item);
        proof {
            old_out.to_multiset_ensures();
            old_rest.to_multiset_ensures();
            assert(out@ == old_out.push(old_rest[m as int]));
            assert(old_out.push(old_rest[m as int]).to_multiset() =~= old_out.to_multiset().insert(
                old_rest[m as int],
            ));
            assert(rest@ == old_rest.remove(m as int));
            assert(old_rest.remove(m as int).to_multiset() =~= old_rest.to_multiset().remove(
                old_rest[m as int],
            ));
            assert(out@.to_multiset().add(rest@.to_multiset()) =~= items@.to_multiset()) by {
                assert(old_rest.to_multiset().count(old_rest[m as int]) > 0);
            }
            assert forall|a: int, b: int|
                0 <= a < out@.len() && 0 <= b < rest@.len() implies spec_lex_le(
                (#[trigger] out@[a]).path@,
                (#[trigger] rest@[b]).path@,
            ) by {
                let x = if b < m as int {
                    old_rest[b]
                } else {
                    old_rest[b + 1]
                };
                assert(rest@[b] == x);
                if a < old_out.len() {
                    assert(spec_lex_le(out@[a].path@, rest@[b].path@));
                } else {
                    assert(out@[a] == old_rest[m as int]);
                    assert(spec_lex_le(old_rest[m as int].path@, x.path@));
                }
            }
        }
    }
    out
}

/// The plain form of one item: `path:line:column: level: message`.
pub open spec fn spec_plain_line(d: PlainDiag) -> Seq<char> {
    d.path@ + ":"@ + spec_dec(d.line as int) + ":"@ + spec_dec(d.col as int) + ": "@
        + d.level.spec_str() + ": "@ + d.message@
}

/// Formats one plain-mode item as `path:line:column: level: message`.
pub fn format_plain_line(d: &PlainDiag) -> (r: String)
    ensures
        r@ == spec_plain_line(*d),
{
    d.path.clone().concat(":").concat(u64_to_string(d.line as u64).as_str()).concat(":").concat(
        u64_to_string(d.col as u64).as_str(),
    ).concat(": ").concat(d.level.as_str()).concat(": ").concat(d.message.as_str())
}

/// What the plain mode emits for one run: `lines` formats, in path order, a
/// rearrangement `sorted` of the `items` collected from the run's results.
pub open spec fn spec_plain_run_output(
    run: Run,
    store: FileStore,
    items: Seq<PlainDiag>,
    sorted: Seq<PlainDiag>,
    lines: Seq<String>,
) -> bool {
    let srcs = spec_plain_srcs_from(run, store, 0, 0);
    &&& items.len() == srcs.len()
    &&& forall|k: int| 0 <= k < srcs.len() ==> spec_plain_matches(items[k], store, #[trigger] srcs[k])
    &&& sorted.to_multiset() == items.to_multiset()
    &&& spec_sorted_by_path(sorted)
    &&& lines.len() == sorted.len()
    &&& forall|k: int| 0 <= k < sorted.len() ==> (#[trigger] lines[k])@ == spec_plain_line(sorted[k])
}

/// Whether `lines` is what the plain mode emits for a run: the formatted,
/// path-ordered rearrangement of the run's collected items.
pub open spec fn spec_plain_run_lines(run: Run, store: FileStore, lines: Seq<String>) -> bool {
    exists|items: Seq<PlainDiag>, sorted: Seq<PlainDiag>|
        #[trigger] spec_plain_run_output(run, store, items, sorted, lines)
}

/// Renders one run in the plain mode: one `path:line:column: level:
/// message` line per resolvable primary location of each result whose
/// message resolves, sorted by path.
pub fn render_plain_run(run: &Run, store: &FileStore) -> (r: Vec<String>)
    requires
        store.wf(),
    ensures
        spec_plain_run_lines(*run, *store, r@),
{
    let items = collect_plain_items(run, store);
    let ghost items_view = items@;
    let sorted = sort_plain_items(items);
    let mut lines: Vec<String> = Vec::new();
    let mut k: usize = 0;
    while k < sorted.len()
        invariant
            k <= sorted@.len(),
            lines@.len() == k,
            forall|i: int|
                0 <= i < k ==> (#[trigger] lines@[i])@ == spec_plain_line(sorted@[i]),
        decreases sorted@.len() - k,
    {
        lines.push(format_plain_line(&sorted[k]));
        k = k + 1;
    }
    proof {
        assert(spec_plain_run_output(*run, *store, items_view, sorted@, lines@));
    }
    lines
}

/// Renders a whole document in the plain mode: the lines of each run, runs
/// in document order.
pub fn render_plain(sarif: &Sarif, store: &FileStore) -> (r: Vec<Vec<String>>)
    requires
        store.wf(),
    ensures
        r@.len() == sarif.runs@.len(),
        forall|i: int|
            0 <= i < r@.len() ==> spec_plain_run_lines(sarif.runs@[i], *store, (#[trigger] r@[i])@),
{
    let mut r: Vec<Vec<String>> = Vec::new();
    let mut i: usize = 0;
    while i < sarif.runs.len()
        invariant
            store.wf(),
            i <= sarif.runs@.len(),
            r@.len() == i,
            forall|k: int|
                0 <= k < i ==> spec_plain_run_lines(
                    sarif.runs@[k],
                    *store,
                    (#[trigger] r@[k])@,
                ),
        decreases sarif.runs@.len() - i,
    {
        let lines = render_plain_run(&sarif.runs[i], store);
        r.push(lines);
        i = i + 1;
    }
    r
}

} // verus!
