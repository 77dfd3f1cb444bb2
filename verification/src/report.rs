//! The mismatch report: a name-based alignment of the expected and the found
//! column lists, rendered as a table. The alignment is diagnostic only; the
//! pass/fail verdict comes from the strict positional check alone.

use vstd::prelude::*;
use similar::DiffOp;
use vstd::string::StrSliceExecFns;
use vstd::string::StringExecFns;
use crate::cell::WireType;
use crate::expected::{ExpectedColumn, ExpectedColumnModel, ecs_view, kind_label, spec_kind_label, spec_wire_label, wire_label};
use crate::row::{ColumnModel, PhysicalColumn, columns_view};

verus! {

/// One run of the name alignment between the expected and the found column
/// names, mirroring a text-diff operation: a shared run, a run present only
/// on the expected side, a run present only on the found side, or a run
/// replaced by another.
#[derive(Clone, Copy, PartialEq, Eq, Structural, Debug)]
pub enum DiffSegment {
    Same { old_index: usize, new_index: usize, len: usize },
    Gone { old_index: usize, old_len: usize, new_index: usize },
    Added { old_index: usize, new_index: usize, new_len: usize },
    Swapped { old_index: usize, old_len: usize, new_index: usize, new_len: usize },
}

/// The alignment that the diff of two name sequences yields: a function of
/// the two sequences alone.
pub uninterp spec fn diff_of(expected: Seq<Seq<char>>, found: Seq<Seq<char>>) -> Seq<DiffSegment>;

/// Every segment of an alignment points into the two aligned sequences.
pub open spec fn segments_wf(segs: Seq<DiffSegment>, e_len: int, f_len: int) -> bool {
    forall|k: int|
        0 <= k < segs.len() ==> match #[trigger] segs[k] {
            DiffSegment::Same { old_index, new_index, len } => old_index + len <= e_len
                && new_index + len <= f_len,
            DiffSegment::Gone { old_index, old_len, .. } => old_index + old_len <= e_len,
            DiffSegment::Added { new_index, new_len, .. } => new_index + new_len <= f_len,
            DiffSegment::Swapped { old_index, old_len, new_index, new_len } => old_index + old_len
                <= e_len && new_index + new_len <= f_len,
        }
}

/// Relies on similar's TextDiff over two slices of names: the captured diff
/// operations are a function of the two name sequences alone, and each
/// operation's ranges lie within the respective input.
#[verifier::external_body]
fn diff_names(expected: &Vec<String>, found: &Vec<String>) -> (r: Vec<DiffSegment>)
    ensures
        r@ == diff_of(expected.deep_view(), found.deep_view()),
        segments_wf(r@, expected@.len() as int, found@.len() as int),
{
    let old: Vec<&str> = expected.iter().map(|s| s.as_str()).collect();
    let new: Vec<&str> = found.iter().map(|s| s.as_str()).collect();
    let diff = similar::TextDiff::from_slices(&old, &new);
    diff.ops().iter().map(|op| match *op {
        DiffOp::Equal { old_index, new_index, len } =>
            DiffSegment::Same { old_index, new_index, len },
        DiffOp::Delete { old_index, old_len, new_index } =>
            DiffSegment::Gone { old_index, old_len, new_index },
        DiffOp::Insert { old_index, new_index, new_len } =>
            DiffSegment::Added { old_index, new_index, new_len },
        DiffOp::Replace { old_index, old_len, new_index, new_len } =>
            DiffSegment::Swapped { old_index, old_len, new_index, new_len },
    }).collect()
}

/// One line of the mismatch report. A shared name is checked for wire-type
/// acceptance; a name only on the expected side is missing from the source;
/// a name only on the found side is an unexpected extra column.
#[derive(Debug)]
#[allow(inconsistent_fields)]
pub enum ReportEntry {
    Matched { name: String, type_ok: bool, nullable: bool },
    Missing { name: Option<String>, label: String },
    Extra { name: String, label: String },
}

/// Mathematical model of one report line.
#[allow(inconsistent_fields)]
pub enum ReportEntryModel {
    Matched { name: Seq<char>, type_ok: bool, nullable: bool },
    Missing { name: Option<Seq<char>>, label: Seq<char> },
    Extra { name: Seq<char>, label: Seq<char> },
}

impl View for ReportEntry {
    type V = ReportEntryModel;

    open spec fn view(&self) -> ReportEntryModel {
        match self {
            ReportEntry::Matched { name, type_ok, nullable } => ReportEntryModel::Matched {
                name: name@,
                type_ok: *type_ok,
                nullable: *nullable,
            },
            ReportEntry::Missing { name, label } => ReportEntryModel::Missing {
                name: crate::expected::opt_name_view(*name),
                label: label@,
            },
            ReportEntry::Extra { name, label } => ReportEntryModel::Extra {
                name: name@,
                label: label@,
            },
        }
    }
}

pub open spec fn res_view(s: Seq<ReportEntry>) -> Seq<ReportEntryModel> {
    s.map_values(|e: ReportEntry| e@)
}

/// The report line of one shared name at the given positions.
pub open spec fn spec_matched_entry(
    oi: int,
    ni: int,
    exp: Seq<ExpectedColumnModel>,
    fnd: Seq<ColumnModel>,
) -> ReportEntryModel {
    ReportEntryModel::Matched {
        name: fnd[ni].name,
        type_ok: exp[oi].kind.spec_accepts(fnd[ni].ty),
        nullable: exp[oi].nullable,
    }
}

pub open spec fn spec_missing_entry(oi: int, exp: Seq<ExpectedColumnModel>) -> ReportEntryModel {
    ReportEntryModel::Missing { name: exp[oi].name, label: spec_kind_label(exp[oi].kind) }
}

pub open spec fn spec_extra_entry(ni: int, fnd: Seq<ColumnModel>) -> ReportEntryModel {
    ReportEntryModel::Extra { name: fnd[ni].name, label: spec_wire_label(fnd[ni].ty) }
}

pub open spec fn spec_matched_run(
    oi: int,
    ni: int,
    len: int,
    exp: Seq<ExpectedColumnModel>,
    fnd: Seq<ColumnModel>,
) -> Seq<ReportEntryModel>
    decreases len,
{
    if len <= 0 {
        Seq::empty()
    } else {
        seq![spec_matched_entry(oi, ni, exp, fnd)] + spec_matched_run(
            oi + 1,
            ni + 1,
            len - 1,
            exp,
            fnd,
        )
    }
}

pub open spec fn spec_missing_run(oi: int, len: int, exp: Seq<ExpectedColumnModel>) -> Seq<
    ReportEntryModel,
>
    decreases len,
{
    if len <= 0 {
        Seq::empty()
    } else {
        seq![spec_missing_entry(oi, exp)] + spec_missing_run(oi + 1, len - 1, exp)
    }
}

pub open spec fn spec_extra_run(ni: int, len: int, fnd: Seq<ColumnModel>) -> Seq<ReportEntryModel>
    decreases len,
{
    if len <= 0 {
        Seq::empty()
    } else {
        seq![spec_extra_entry(ni, fnd)] + spec_extra_run(ni + 1, len - 1, fnd)
    }
}

/// The report lines one alignment segment expands to: a replaced run lists
/// its missing names first, then its extra names.
pub open spec fn spec_segment_entries(
    seg: DiffSegment,
    exp: Seq<ExpectedColumnModel>,
    fnd: Seq<ColumnModel>,
) -> Seq<ReportEntryModel> {
    match seg {
        DiffSegment::Same { old_index, new_index, len } => spec_matched_run(
            old_index as int,
            new_index as int,
            len as int,
            exp,
            fnd,
        ),
        DiffSegment::Gone { old_index, old_len, .. } => spec_missing_run(
            old_index as int,
            old_len as int,
            exp,
        ),
        DiffSegment::Added { new_index, new_len, .. } => spec_extra_run(
            new_index as int,
            new_len as int,
            fnd,
        ),
        DiffSegment::Swapped { old_index, old_len, new_index, new_len } => spec_missing_run(
            old_index as int,
            old_len as int,
            exp,
        ) + spec_extra_run(new_index as int, new_len as int, fnd),
    }
}

/// The report lines of an alignment, segment by segment.
pub open spec fn spec_entries(
    segs: Seq<DiffSegment>,
    i: int,
    exp: Seq<ExpectedColumnModel>,
    fnd: Seq<ColumnModel>,
) -> Seq<ReportEntryModel>
    decreases segs.len() - i,
{
    if i < 0 || i >= segs.len() {
        Seq::empty()
    } else {
        spec_segment_entries(segs[i], exp, fnd) + spec_entries(segs, i + 1, exp, fnd)
    }
}

/// The display form of an expected name: a dash where the target is
/// positional and has none.
pub open spec fn spec_display_name(n: Option<Seq<char>>) -> Seq<char> {
    match n {
        Some(s) => s,
        None => "-"@,
    }
}

/// The name lists handed to the alignment.
pub open spec fn spec_expected_names(exp: Seq<ExpectedColumnModel>) -> Seq<Seq<char>> {
    exp.map_values(|e: ExpectedColumnModel| spec_display_name(e.name))
}

pub open spec fn spec_found_names(fnd: Seq<ColumnModel>) -> Seq<Seq<char>> {
    fnd.map_values(|c: ColumnModel| c.name)
}

/// The full structured report of one expected/found pair.
pub open spec fn spec_report(exp: Seq<ExpectedColumnModel>, fnd: Seq<ColumnModel>) -> Seq<
    ReportEntryModel,
> {
    spec_entries(diff_of(spec_expected_names(exp), spec_found_names(fnd)), 0, exp, fnd)
}

fn matched_run(
    oi: usize,
    ni: usize,
    len: usize,
    exp: &Vec<ExpectedColumn>,
    fnd: &Vec<PhysicalColumn>,
) -> (r: Vec<ReportEntry>)
    requires
        oi + len <= exp@.len(),
        ni + len <= fnd@.len(),
    ensures
        res_view(r@) == spec_matched_run(
            oi as int,
            ni as int,
            len as int,
            ecs_view(exp@),
            columns_view(fnd@),
        ),
    decreases len,
{
    if len == 0 {
        let out: Vec<ReportEntry> = Vec::new();
        proof {
            assert(res_view(out@) =~= Seq::<ReportEntryModel>::empty());
        }
        out
    } else {
        let total_e = exp.len();
        let total_f = fnd.len();
        let e = &exp[oi];
        let c = &fnd[ni];
        let entry = ReportEntry::Matched {
            name: c.name.clone(),
            type_ok: e.accepts(&c.ty),
            nullable: e.nullable(&c.ty),
        };
        let mut out: Vec<ReportEntry> = Vec::new();
        out.push(entry);
        let mut tail = matched_run(oi + 1, ni + 1, len - 1, exp, fnd);
        let ghost head_view = res_view(out@);
        let ghost tail_view = res_view(tail@);
        out.append(&mut tail);
        proof {
            assert(head_view =~= seq![
                spec_matched_entry(oi as int, ni as int, ecs_view(exp@), columns_view(fnd@)),
            ]);
            assert(res_view(out@) =~= head_view + tail_view);
        }
        out
    }
}

fn missing_run(oi: usize, len: usize, exp: &Vec<ExpectedColumn>) -> (r: Vec<ReportEntry>)
    requires
        oi + len <= exp@.len(),
    ensures
        res_view(r@) == spec_missing_run(oi as int, len as int, ecs_view(exp@)),
    decreases len,
{
    if len == 0 {
        let out: Vec<ReportEntry> = Vec::new();
        proof {
            assert(res_view(out@) =~= Seq::<ReportEntryModel>::empty());
        }
        out
    } else {
        let total_e = exp.len();
        let e = &exp[oi];
        let name = match e.column_name() {
            Some(n) => Some(n.clone()),
            None => None,
        };
        let entry = ReportEntry::Missing { name, label: String::from_str(e.type_label()) };
        let mut out: Vec<ReportEntry> = Vec::new();
        out.push(entry);
        let mut tail = missing_run(oi + 1, len - 1, exp);
        let ghost head_view = res_view(out@);
        let ghost tail_view = res_view(tail@);
        out.append(&mut tail);
        proof {
            assert(head_view =~= seq![spec_missing_entry(oi as int, ecs_view(exp@))]);
            assert(res_view(out@) =~= head_view + tail_view);
        }
        out
    }
}

fn extra_run(ni: usize, len: usize, fnd: &Vec<PhysicalColumn>) -> (r: Vec<ReportEntry>)
    requires
        ni + len <= fnd@.len(),
    ensures
        res_view(r@) == spec_extra_run(ni as int, len as int, columns_view(fnd@)),
    decreases len,
{
    if len == 0 {
        let out: Vec<ReportEntry> = Vec::new();
        proof {
            assert(res_view(out@) =~= Seq::<ReportEntryModel>::empty());
        }
        out
    } else {
        let total_f = fnd.len();
        let c = &fnd[ni];
        let entry = ReportEntry::Extra {
            name: c.name.clone(),
            label: String::from_str(wire_label(&c.ty)),
        };
        let mut out: Vec<ReportEntry> = Vec::new();
        out.push(entry);
        let mut tail = extra_run(ni + 1, len - 1, fnd);
        let ghost head_view = res_view(out@);
        let ghost tail_view = res_view(tail@);
        out.append(&mut tail);
        proof {
            assert(head_view =~= seq![spec_extra_entry(ni as int, columns_view(fnd@))]);
            assert(res_view(out@) =~= head_view + tail_view);
        }
        out
    }
}

fn build_entries(
    segs: &Vec<DiffSegment>,
    i: usize,
    exp: &Vec<ExpectedColumn>,
    fnd: &Vec<PhysicalColumn>,
) -> (r: Vec<ReportEntry>)
    requires
        i <= segs@.len(),
        segments_wf(segs@, exp@.len() as int, fnd@.len() as int),
    ensures
        res_view(r@) == spec_entries(segs@, i as int, ecs_view(exp@), columns_view(fnd@)),
    decreases segs@.len() - i,
{
    if i == segs.len() {
        let out: Vec<ReportEntry> = Vec::new();
        proof {
            assert(res_view(out@) =~= Seq::<ReportEntryModel>::empty());
        }
        return out;
    }
    let mut head = match segs[i] {
        DiffSegment::Same { old_index, new_index, len } => matched_run(
            old_index,
            new_index,
            len,
            exp,
            fnd,
        ),
        DiffSegment::Gone { old_index, old_len, .. } => missing_run(old_index, old_len, exp),
        DiffSegment::Added { new_index, new_len, .. } => extra_run(new_index, new_len, fnd),
        DiffSegment::Swapped { old_index, old_len, new_index, new_len } => {
            let mut gone = missing_run(old_index, old_len, exp);
            let mut added = extra_run(new_index, new_len, fnd);
            let ghost gone_view = res_view(gone@);
            let ghost added_view = res_view(added@);
            gone.append(&mut added);
            proof {
                assert(res_view(gone@) =~= gone_view + added_view);
            }
            gone
        },
    };
    let mut tail = build_entries(segs, i + 1, exp, fnd);
    let ghost head_view = res_view(head@);
    let ghost tail_view = res_view(tail@);
    head.append(&mut tail);
    proof {
        assert(res_view(head@) =~= head_view + tail_view);
    }
    head
}

/// The structured mismatch report: one line per aligned name, carried by the
/// schema error and renderable as a table.
#[derive(Debug)]
pub struct MismatchReport {
    pub entries: Vec<ReportEntry>,
}

impl View for MismatchReport {
    type V = Seq<ReportEntryModel>;

    open spec fn view(&self) -> Seq<ReportEntryModel> {
        res_view(self.entries@)
    }
}

/// The structured report of a failed schema check: the expected and the
/// found column names are aligned by a text diff, and each expected column
/// is marked as matched (with its wire-type verdict), missing from the
/// source, or an unexpected extra.
pub fn build_mismatch_report(
    found_cols: &Vec<PhysicalColumn>,
    expected_cols: &Vec<ExpectedColumn>,
) -> (r: MismatchReport)
    ensures
        r@ == spec_report(ecs_view(expected_cols@), columns_view(found_cols@)),
{
    let expected_names = collect_expected_names(expected_cols);
    let found_names = collect_found_names(found_cols);
    let segs = diff_names(&expected_names, &found_names);
    let entries = build_entries(&segs, 0, expected_cols, found_cols);
    MismatchReport { entries }
}

fn collect_expected_names(exp: &Vec<ExpectedColumn>) -> (r: Vec<String>)
    ensures
        r.deep_view() == spec_expected_names(ecs_view(exp@)),
        r@.len() == exp@.len(),
{
    let mut out: Vec<String> = Vec::new();
    let mut i: usize = 0;
    while i < exp.len()
        invariant
            i <= exp@.len(),
            out@.len() == i,
            forall|j: int| 0 <= j < i ==> out@[j]@ == spec_expected_names(ecs_view(exp@))[j],
        decreases exp@.len() - i,
    {
        let e = &exp[i];
        let n = match e.column_name() {
            Some(n) => n.clone(),
            None => String::from_str("-"),
        };
        let ghost nv = n@;
        let ghost prev = out@;
        out.push(n);
        proof {
            assert(out@[i as int]@ == nv);
            assert(ecs_view(exp@)[i as int] == exp@[i as int]@);
            assert(nv == spec_display_name(exp@[i as int]@.name));
            assert(spec_expected_names(ecs_view(exp@))[i as int] == spec_display_name(
                ecs_view(exp@)[i as int].name,
            ));
            assert forall|j: int| 0 <= j < i + 1 implies out@[j]@ == spec_expected_names(
                ecs_view(exp@),
            )[j] by {
                if j < i {
                    assert(out@[j] == prev[j]);
                }
            }
        }
        i = i + 1;
    }
    proof {
        assert forall|j: int| 0 <= j < out@.len() implies out.deep_view()[j]
            == spec_expected_names(ecs_view(exp@))[j] by {
            assert(out.deep_view()[j] == out@[j]@);
        }
        assert(out.deep_view() =~= spec_expected_names(ecs_view(exp@)));
    }
    out
}

fn collect_found_names(fnd: &Vec<PhysicalColumn>) -> (r: Vec<String>)
    ensures
        r.deep_view() == spec_found_names(columns_view(fnd@)),
        r@.len() == fnd@.len(),
{
    let mut out: Vec<String> = Vec::new();
    let mut i: usize = 0;
    while i < fnd.len()
        invariant
            i <= fnd@.len(),
            out@.len() == i,
            forall|j: int| 0 <= j < i ==> out@[j]@ == spec_found_names(columns_view(fnd@))[j],
        decreases fnd@.len() - i,
    {
        let c = &fnd[i];
        let n = c.name.clone();
        let ghost nv = n@;
        let ghost prev = out@;
        out.push(n);
        proof {
            assert(out@[i as int]@ == nv);
            assert(columns_view(fnd@)[i as int] == fnd@[i as int]@);
            assert(spec_found_names(columns_view(fnd@))[i as int] == columns_view(
                fnd@,
            )[i as int].name);
            assert forall|j: int| 0 <= j < i + 1 implies out@[j]@ == spec_found_names(
                columns_view(fnd@),
            )[j] by {
                if j < i {
                    assert(out@[j] == prev[j]);
                }
            }
        }
        i = i + 1;
    }
    proof {
        assert forall|j: int| 0 <= j < out@.len() implies out.deep_view()[j] == spec_found_names(
            columns_view(fnd@),
        )[j] by {
            assert(out.deep_view()[j] == out@[j]@);
        }
        assert(out.deep_view() =~= spec_found_names(columns_view(fnd@)));
    }
    out
}

/// A run of spaces, for column padding.
pub open spec fn spec_spaces(n: int) -> Seq<char>
    decreases n,
{
    if n <= 0 {
        Seq::empty()
    } else {
        spec_spaces(n - 1).push(' ')
    }
}

/// A string padded with spaces to the given width.
pub open spec fn spec_padded(s: Seq<char>, w: int) -> Seq<char> {
    if s.len() >= w {
        s
    } else {
        s + spec_spaces(w - s.len())
    }
}

/// One rendered line of the report table.
pub open spec fn spec_entry_line(e: ReportEntryModel) -> Seq<char> {
    match e {
        ReportEntryModel::Matched { name, type_ok, nullable } => "  "@ + spec_padded(name, 20)
            + " | "@ + spec_padded(
            if type_ok {
                "OK"@
            } else {
                "MISMATCH"@
            },
            15,
        ) + " | "@ + spec_padded(
            if nullable {
                "Yes"@
            } else {
                "No"@
            },
            15,
        ) + " | "@ + (if type_ok {
            Seq::<char>::empty()
        } else {
            "type rejected the source column"@
        }) + "\n"@,
        ReportEntryModel::Missing { name, label } => "- "@ + spec_padded(
            spec_display_name(name),
            20,
        ) + " | "@ + spec_padded(label, 15) + " | "@ + spec_padded("---"@, 15)
            + " | MISSING FROM SOURCE\n"@,
        ReportEntryModel::Extra { name, label } => "+ "@ + spec_padded(name, 20) + " | "@
            + spec_padded(label, 15) + " | "@ + spec_padded("---"@, 15)
            + " | UNEXPECTED EXTRA COLUMN\n"@,
    }
}

/// The rendered lines of the report's entries from position `i` on.
pub open spec fn spec_lines(entries: Seq<ReportEntryModel>, i: int) -> Seq<char>
    decreases entries.len() - i,
{
    if i < 0 || i >= entries.len() {
        Seq::empty()
    } else {
        spec_entry_line(entries[i]) + spec_lines(entries, i + 1)
    }
}

/// The full rendered report: a header and one line per entry.
pub open spec fn spec_rendered(entries: Seq<ReportEntryModel>) -> Seq<char> {
    "Column Mismatch Report:\n------------------------------------------------------------\n  Column Name          | Type Match      | Nullable        | Notes\n------------------------------------------------------------\n"@
        + spec_lines(entries, 0)
}

fn append_spaces(out: &mut String, n: usize)
    ensures
        final(out)@ == old(out)@ + spec_spaces(n as int),
{
    let ghost base = out@;
    let mut k: usize = 0;
    proof {
        assert(out@ =~= base + spec_spaces(0));
    }
    while k < n
        invariant
            k <= n,
            out@ == base + spec_spaces(k as int),
        decreases n - k,
    {
        out.append(" ");
        proof {
            reveal_strlit(" ");
            assert(" "@ =~= seq![' ']);
            assert(base + spec_spaces(k as int) + " "@ =~= base + spec_spaces(k as int + 1));
        }
        k = k + 1;
    }
}

fn append_padded(out: &mut String, s: &str, w: usize)
    ensures
        final(out)@ == old(out)@ + spec_padded(s@, w as int),
{
    let ghost base = out@;
    out.append(s);
    let l = s.unicode_len();
    if l < w {
        append_spaces(out, w - l);
        proof {
            assert(base + s@ + spec_spaces(w - l) =~= base + spec_padded(s@, w as int));
        }
    }
}

fn render_entry_line(e: &ReportEntry) -> (r: String)
    ensures
        r@ == spec_entry_line(e@),
{
    match e {
        ReportEntry::Matched { name, type_ok, nullable } => {
            let mut out = String::from_str("  ");
            append_padded(&mut out, name.as_str(), 20);
            out.append(" | ");
            append_padded(
                &mut out,
                if *type_ok {
                    "OK"
                } else {
                    "MISMATCH"
                },
                15,
            );
            out.append(" | ");
            append_padded(
                &mut out,
                if *nullable {
                    "Yes"
                } else {
                    "No"
                },
                15,
            );
            out.append(" | ");
            if !*type_ok {
                out.append("type rejected the source column");
            } else {
                proof {
                    assert(out@ + Seq::<char>::empty() =~= out@);
                }
            }
            out.append("\n");
            out
        },
        ReportEntry::Missing { name, label } => {
            let mut out = String::from_str("- ");
            match name {
                Some(n) => {
                    append_padded(&mut out, n.as_str(), 20);
                },
                None => {
                    append_padded(&mut out, "-", 20);
                },
            }
            out.append(" | ");
            append_padded(&mut out, label.as_str(), 15);
            out.append(" | ");
            append_padded(&mut out, "---", 15);
            out.append(" | MISSING FROM SOURCE\n");
            out
        },
        ReportEntry::Extra { name, label } => {
            let mut out = String::from_str("+ ");
            append_padded(&mut out, name.as_str(), 20);
            out.append(" | ");
            append_padded(&mut out, label.as_str(), 15);
            out.append(" | ");
            append_padded(&mut out, "---", 15);
            out.append(" | UNEXPECTED EXTRA COLUMN\n");
            out
        },
    }
}

impl MismatchReport {
    /// Render the report as a table, one line per entry.
    pub fn render(&self) -> (r: String)
        ensures
            r@ == spec_rendered(self@),
    {
        let mut out = String::from_str(
            "Column Mismatch Report:\n------------------------------------------------------------\n  Column Name          | Type Match      | Nullable        | Notes\n------------------------------------------------------------\n",
        );
        let ghost header = out@;
        let mut i: usize = 0;
        while i < self.entries.len()
            invariant
                i <= self.entries@.len(),
                spec_rendered(self@) == out@ + spec_lines(self@, i as int),
                self@.len() == self.entries@.len(),
            decreases self.entries@.len() - i,
        {
            let ghost before = out@;
            let line = render_entry_line(&self.entries[i]);
            out.append(line.as_str());
            proof {
                assert(self@[i as int] == self.entries@[i as int]@);
                assert(before + (spec_entry_line(self@[i as int]) + spec_lines(
                    self@,
                    i as int + 1,
                )) =~= out@ + spec_lines(self@, i as int + 1));
            }
            i = i + 1;
        }
        proof {
            assert(out@ + spec_lines(self@, self@.len() as int) =~= out@);
        }
        out
    }
}

/// The rendered mismatch report of one expected/found pair, ready to print
/// or to carry in a fatal error.
pub fn report_expected_columns_mismatch(
    found_cols: &Vec<PhysicalColumn>,
    expected_cols: &Vec<ExpectedColumn>,
) -> (r: String)
    ensures
        r@ == spec_rendered(spec_report(ecs_view(expected_cols@), columns_view(found_cols@))),
{
    let report = build_mismatch_report(found_cols, expected_cols);
    report.render()
}

} // verus!
