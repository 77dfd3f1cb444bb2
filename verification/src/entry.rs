//! The public binding entry points: single rows, and row groups reduced by
//! the join protocol.

use vstd::prelude::*;
use vstd::pervasive::unreached;
use crate::bind::{BindModel, lemma_fresh_never_merges, opt_view, spec_bind, try_from_row_joined};
use crate::descriptor::{Descriptor, spec_column_count, spec_wf};
use crate::errors::DecodeError;
use crate::expected::spec_expected;
use crate::report::{MismatchReport, build_mismatch_report, spec_report};
use crate::row::{AsRow, Row, RowModel};
use crate::validate::spec_matches;
use crate::value::{Value, ValueModel, values_view};

verus! {

/// Why a binding call failed: the physical columns did not match the
/// descriptor's schema (carrying the renderable report), or one cell failed
/// to decode.
#[derive(Debug)]
pub enum BindError {
    Schema(MismatchReport),
    Decode(DecodeError),
}

/// The schema check that every entry point runs before binding.
pub open spec fn spec_schema_ok(d: Descriptor, row: RowModel) -> bool {
    row.columns.len() == spec_column_count(d) && spec_matches(d, row.columns, 0)
}

/// The rows of a batch, as models.
pub open spec fn rows_view(s: Seq<Row>) -> Seq<RowModel> {
    s.map_values(|r: Row| r@)
}

/// What reducing a batch of rows yields: each row either starts a new record
/// or merges into the record before it, in order; the first error aborts.
pub open spec fn spec_reduce(
    d: Descriptor,
    rows: Seq<RowModel>,
    i: int,
    acc: Seq<ValueModel>,
) -> Result<Seq<ValueModel>, DecodeError>
    decreases rows.len() - i,
{
    if i < 0 || i >= rows.len() {
        Ok(acc)
    } else {
        let parent = if acc.len() == 0 {
            None
        } else {
            Some(acc.last())
        };
        match spec_bind(d, parent, rows[i].cells, 0) {
            BindModel::Produced(v) => spec_reduce(d, rows, i + 1, acc.push(v)),
            BindModel::MergedInto(p) => spec_reduce(d, rows, i + 1, acc.update(acc.len() - 1, p)),
            BindModel::Failed(e) => Err(e),
        }
    }
}

impl Descriptor {
    /// Bind one row, returning the schema mismatch report or the decode
    /// failure as a typed error.
    pub fn try_from_row<R: AsRow>(&self, row: &R) -> (r: Result<Value, BindError>)
        requires
            spec_wf(*self),
            row.spec_row().wf(),
        ensures
            !spec_schema_ok(*self, row.spec_row()@) ==> (r matches Err(BindError::Schema(rep))
                && rep@ == spec_report(spec_expected(*self), row.spec_row()@.columns)),
            spec_schema_ok(*self, row.spec_row()@) ==> match spec_bind(
                *self,
                None,
                row.spec_row()@.cells,
                0,
            ) {
                BindModel::Produced(v) => r matches Ok(val) && val@ == v,
                BindModel::Failed(e) => r matches Err(BindError::Decode(e2)) && e2 == e,
                BindModel::MergedInto(_) => false,
            },
    {
        let row = row.as_row();
        match self.try_assert_matches(&row.columns) {
            Err(()) => {
                let expected = self.report_expected_columns();
                Err(BindError::Schema(build_mismatch_report(&row.columns, &expected)))
            },
            Ok(()) => {
                let mut fresh: Option<Value> = None;
                match try_from_row_joined(self, &mut fresh, row, 0) {
                    Ok(Some(v)) => Ok(v),
                    Ok(None) => {
                        proof {
                            lemma_fresh_never_merges(*self, row@.cells, 0);
                        }
                        unreached()
                    },
                    Err(e) => Err(BindError::Decode(e)),
                }
            },
        }
    }

    /// Bind one row whose schema is known to match and whose cells all
    /// decode: the fail-fast form of `try_from_row`.
    pub fn from_row<R: AsRow>(&self, row: &R) -> (r: Value)
        requires
            spec_wf(*self),
            row.spec_row().wf(),
            spec_schema_ok(*self, row.spec_row()@),
            spec_bind(*self, None, row.spec_row()@.cells, 0) is Produced,
        ensures
            r@ == spec_bind(*self, None, row.spec_row()@.cells, 0)->Produced_0,
    {
        match self.try_from_row(row) {
            Ok(v) => v,
            Err(_) => unreached(),
        }
    }
}

/// A batch is uniform: every row is well formed and as wide as the first,
/// so that one schema check against the first row covers the batch.
pub open spec fn spec_uniform_batch(rows: Seq<Row>) -> bool {
    forall|i: int|
        0 <= i < rows.len() ==> (#[trigger] rows[i]).wf() && rows[i]@.cells.len()
            == rows[0]@.cells.len()
}

/// What binding a whole batch owes: an empty batch yields an empty output
/// without consulting the schema; otherwise the schema is checked once
/// against the first row, and the rows are reduced in order, adjacent rows
/// merging by the join protocol.
pub open spec fn spec_slice_post(d: Descriptor, rows: Seq<Row>, r: Result<Vec<Value>, BindError>) -> bool {
    if rows.len() == 0 {
        r matches Ok(out) && out@.len() == 0
    } else if !spec_schema_ok(d, rows[0]@) {
        r matches Err(BindError::Schema(rep)) && rep@ == spec_report(
            spec_expected(d),
            rows[0]@.columns,
        )
    } else {
        match spec_reduce(d, rows_view(rows), 0, Seq::empty()) {
            Ok(vs) => r matches Ok(out) && values_view(out@) == vs,
            Err(e) => r matches Err(BindError::Decode(e2)) && e2 == e,
        }
    }
}

impl Descriptor {
    /// Bind a batch of rows, merging adjacent rows that share their join key
    /// into one record; mismatches and decode failures come back as typed
    /// errors.
    pub fn try_from_slice(&self, rows: &Vec<Row>) -> (r: Result<Vec<Value>, BindError>)
        requires
            spec_wf(*self),
            spec_uniform_batch(rows@),
        ensures
            spec_slice_post(*self, rows@, r),
    {
        broadcast use crate::value::lemma_values_view_len;

        if rows.len() == 0 {
            let out: Vec<Value> = Vec::new();
            return Ok(out);
        }
        let first = &rows[0];
        match self.try_assert_matches(&first.columns) {
            Err(()) => {
                let expected = self.report_expected_columns();
                return Err(BindError::Schema(build_mismatch_report(&first.columns, &expected)));
            },
            Ok(()) => {},
        }
        let mut out: Vec<Value> = Vec::new();
        let mut idx: usize = 0;
        proof {
            assert(values_view(out@) =~= Seq::<ValueModel>::empty());
        }
        while idx < rows.len()
            invariant
                spec_wf(*self),
                spec_uniform_batch(rows@),
                idx <= rows@.len(),
                rows@.len() > 0,
                spec_schema_ok(*self, rows@[0]@),
                spec_reduce(*self, rows_view(rows@), 0, Seq::empty()) == spec_reduce(
                    *self,
                    rows_view(rows@),
                    idx as int,
                    values_view(out@),
                ),
            decreases rows@.len() - idx,
        {
            broadcast use crate::value::lemma_values_view_len, crate::bind::lemma_values_view_push;

            let ghost acc0 = values_view(out@);
            let ghost before_pop = out@;
            let mut parent: Option<Value> = if out.len() > 0 {
                out.pop()
            } else {
                None
            };
            let ghost popped = values_view(out@);
            proof {
                if acc0.len() > 0 {
                    assert(out@.push(parent->Some_0) =~= before_pop);
                    assert(values_view(out@.push(parent->Some_0)) == acc0);
                    crate::value::lemma_values_view_index(out@.push(parent->Some_0), out@.len() as int);
                    assert(popped.push(parent->Some_0@) == acc0);
                    assert(popped =~= acc0.drop_last());
                    assert(opt_view(parent) == Some(acc0.last()));
                } else {
                    assert(opt_view(parent) == None::<ValueModel>);
                }
            }
            let row = &rows[idx];
            proof {
                assert(rows@[idx as int].wf());
                assert(rows@[idx as int]@.cells.len() == rows@[0]@.cells.len());
                assert(rows@[0]@.columns.len() == spec_column_count(*self));
                assert(rows_view(rows@)[idx as int] == rows@[idx as int]@);
            }
            let step = try_from_row_joined(self, &mut parent, row, 0);
            match step {
                Ok(Some(v)) => {
                    let ghost vm = v@;
                    match parent {
                        Some(p) => {
                            out.push(p);
                            proof {
                                assert(values_view(out@) =~= acc0);
                            }
                        },
                        None => {
                            proof {
                                assert(values_view(out@) =~= acc0);
                            }
                        },
                    }
                    out.push(v);
                    proof {
                        broadcast use crate::bind::lemma_values_view_push;

                        assert(values_view(out@) == acc0.push(vm));
                    }
                },
                Ok(None) => {
                    proof {
                        if acc0.len() == 0 {
                            lemma_fresh_never_merges(*self, rows@[idx as int]@.cells, 0);
                            assert(false);
                        }
                    }
                    let merged = parent.unwrap();
                    let ghost mm = merged@;
                    out.push(merged);
                    proof {
                        broadcast use crate::bind::lemma_values_view_push;

                        assert(acc0.len() > 0);
                        assert(values_view(out@) =~= acc0.update(acc0.len() - 1, mm));
                    }
                },
                Err(e) => {
                    return Err(BindError::Decode(e));
                },
            }
            idx = idx + 1;
        }
        proof {
            assert(spec_reduce(
                *self,
                rows_view(rows@),
                rows@.len() as int,
                values_view(out@),
            ) == Ok::<Seq<ValueModel>, DecodeError>(values_view(out@)));
        }
        Ok(out)
    }

    /// Bind a batch whose schema is known to match and whose rows all
    /// decode: the fail-fast form of `try_from_slice`.
    pub fn from_slice(&self, rows: &Vec<Row>) -> (r: Vec<Value>)
        requires
            spec_wf(*self),
            spec_uniform_batch(rows@),
            rows@.len() > 0 ==> spec_schema_ok(*self, rows@[0]@),
            spec_reduce(*self, rows_view(rows@), 0, Seq::empty()) is Ok,
        ensures
            values_view(r@) == spec_reduce(*self, rows_view(rows@), 0, Seq::empty())->Ok_0,
            rows@.len() == 0 ==> r@.len() == 0,
    {
        broadcast use crate::value::lemma_values_view_len;

        match self.try_from_slice(rows) {
            Ok(out) => out,
            Err(_) => unreached(),
        }
    }

    /// Bind an owned batch of rows; the conversion of `from_slice`.
    pub fn from_rows(&self, rows: Vec<Row>) -> (r: Vec<Value>)
        requires
            spec_wf(*self),
            spec_uniform_batch(rows@),
            rows@.len() > 0 ==> spec_schema_ok(*self, rows@[0]@),
            spec_reduce(*self, rows_view(rows@), 0, Seq::empty()) is Ok,
        ensures
            values_view(r@) == spec_reduce(*self, rows_view(rows@), 0, Seq::empty())->Ok_0,
    {
        self.from_slice(&rows)
    }

    /// Bind an owned batch of rows; the conversion of `try_from_slice`.
    pub fn try_from_rows(&self, rows: Vec<Row>) -> (r: Result<Vec<Value>, BindError>)
        requires
            spec_wf(*self),
            spec_uniform_batch(rows@),
        ensures
            spec_slice_post(*self, rows@, r),
    {
        self.try_from_slice(&rows)
    }
}

} // verus!
