//! The library's laws: properties of the binder, the validator and the
//! descriptor builder that hold for every input, proved from the same
//! definitions the executable code is verified against.

use vstd::prelude::*;
use crate::bind::{BindModel, FieldsModel, spec_bind, spec_bind_fields};
use crate::cell::CellModel;
use crate::config::{FieldConfig, spec_config_error, spec_fields_error, spec_join_not_last};
use crate::descriptor::{Descriptor, FieldSpec, spec_column_count, spec_fields_column_count, spec_scalar_like, spec_wf, spec_wf_field, spec_wf_fields};
use crate::errors::DecodeError;
use crate::expected::{ExpectedColumnModel, spec_all_nullable, spec_expected, spec_expected_fields};
use crate::row::ColumnModel;
use crate::validate::{lemma_scalar_like_one_column, spec_matches, spec_matches_fields, spec_name_matches};
use crate::value::{ValueModel, spec_decode, spec_encode};

verus! {

/// Column-count additivity: a record consumes exactly the sum of its fields'
/// contributions, field by field.
pub proof fn lemma_column_count_additive(fields: Seq<FieldSpec>, i: int)
    requires
        0 <= i < fields.len(),
    ensures
        spec_fields_column_count(fields, i) == spec_column_count(fields[i].target)
            + spec_fields_column_count(fields, i + 1),
{
}

/// Column-count of all-scalar records: a record whose fields are all scalar
/// consumes exactly one column per field.
pub proof fn lemma_scalar_record_column_count(fields: Seq<FieldSpec>, i: int)
    requires
        0 <= i <= fields.len(),
        spec_wf_fields(fields, i),
        forall|j: int| i <= j < fields.len() ==> (#[trigger] fields[j].kind) is Scalar,
    ensures
        spec_fields_column_count(fields, i) == fields.len() - i,
    decreases fields.len() - i,
{
    if i < fields.len() {
        assert(spec_wf_field(fields[i]));
        lemma_scalar_like_one_column(fields[i].target);
        lemma_scalar_record_column_count(fields, i + 1);
    }
}

/// Round trip: binding a row whose cells encode known scalar values yields
/// exactly those values, for every scalar kind. The fields from `i` on must
/// all be scalar with a bare scalar target, and each cell must hold the
/// encoding of the corresponding value.
pub proof fn lemma_scalar_round_trip_fields(
    fields: Seq<FieldSpec>,
    i: int,
    acc: Seq<ValueModel>,
    pvals: Option<Seq<ValueModel>>,
    cells: Seq<CellModel>,
    at: int,
    vs: Seq<ValueModel>,
)
    requires
        0 <= i <= fields.len(),
        vs.len() == fields.len(),
        forall|j: int|
            i <= j < fields.len() ==> (#[trigger] fields[j].kind) is Scalar && fields[j].target
                is Scalar,
        forall|j: int|
            i <= j < fields.len() ==> cells[at + (j - i)] == spec_encode(#[trigger] vs[j]) && (
            fields[j].target)->Scalar_0.spec_fits(spec_encode(vs[j])),
    ensures
        spec_bind_fields(fields, i, acc, pvals, cells, at) == FieldsModel::ProducedFields(
            acc + vs.skip(i),
        ),
    decreases fields.len() - i,
{
    if i == fields.len() {
        assert(acc + vs.skip(i) =~= acc);
    } else {
        let k = (fields[i].target)->Scalar_0;
        let c = cells[at];
        assert(c == spec_encode(vs[i]));
        assert(k.spec_fits(c));
        assert(!(c is Null));
        assert(spec_decode(k, c) == vs[i]);
        assert(spec_bind(fields[i].target, None, cells, at) == BindModel::Produced(vs[i]));
        lemma_scalar_round_trip_fields(fields, i + 1, acc.push(vs[i]), pvals, cells, at + 1, vs);
        assert(acc.push(vs[i]) + vs.skip(i + 1) =~= acc + vs.skip(i));
    }
}

/// Round trip at the record level: binding a row built from known scalar
/// values reads those values back, in field order.
pub proof fn lemma_scalar_round_trip(
    d: Descriptor,
    cells: Seq<CellModel>,
    vs: Seq<ValueModel>,
)
    requires
        d is Record,
        vs.len() == (d->Record_0)@.len(),
        forall|j: int|
            0 <= j < vs.len() ==> ((#[trigger] (d->Record_0)@[j].kind) is Scalar
                && (d->Record_0)@[j].target is Scalar),
        forall|j: int|
            0 <= j < vs.len() ==> cells[j] == spec_encode(#[trigger] vs[j])
                && ((d->Record_0)@[j].target)->Scalar_0.spec_fits(spec_encode(vs[j])),
    ensures
        spec_bind(d, None, cells, 0) == BindModel::Produced(ValueModel::Record(vs)),
{
    lemma_scalar_round_trip_fields(
        (d->Record_0)@,
        0,
        Seq::empty(),
        None,
        cells,
        0,
        vs,
    );
    assert(Seq::<ValueModel>::empty() + vs.skip(0) =~= vs);
}

/// Optional absorption: an optional scalar yields an absent value on a null
/// cell, the decoded value on a fitting cell, and propagates any other
/// decode failure.
pub proof fn lemma_optional_absorption(d: Descriptor, cells: Seq<CellModel>, at: int)
    requires
        d is Optional,
        (*d->Optional_0) is Scalar,
    ensures
        cells[at] is Null ==> spec_bind(d, None, cells, at) == BindModel::Produced(
            ValueModel::Absent,
        ),
        !(cells[at] is Null) && (*d->Optional_0)->Scalar_0.spec_fits(cells[at]) ==> spec_bind(
            d,
            None,
            cells,
            at,
        ) == BindModel::Produced(spec_decode((*d->Optional_0)->Scalar_0, cells[at])),
        !(cells[at] is Null) && !(*d->Optional_0)->Scalar_0.spec_fits(cells[at]) ==> spec_bind(
            d,
            None,
            cells,
            at,
        ) == BindModel::Failed(DecodeError::WrongType { index: at as usize }),
{
    let inner = d->Optional_0;
    let k = (*inner)->Scalar_0;
    assert(crate::bind::spec_inner_parent(None) == None::<ValueModel>);
    if cells[at] is Null {
        assert(spec_bind(*inner, None, cells, at) == BindModel::Failed(
            DecodeError::WasNull { index: at as usize },
        ));
        assert(spec_bind(d, None, cells, at) == BindModel::Produced(ValueModel::Absent));
    } else if k.spec_fits(cells[at]) {
        assert(spec_bind(*inner, None, cells, at) == BindModel::Produced(
            spec_decode(k, cells[at]),
        ));
    } else {
        assert(spec_bind(*inner, None, cells, at) == BindModel::Failed(
            DecodeError::WrongType { index: at as usize },
        ));
    }
}

/// Join-field tail-only invariant: a configuration list with a join field in
/// any position but the last fails construction, whatever else it holds.
pub proof fn lemma_join_not_last_rejected(cs: Seq<FieldConfig>)
    requires
        exists|i: int| 0 <= i < cs.len() - 1 && (#[trigger] cs[i]).join,
    ensures
        spec_config_error(cs) is Some,
{
    if spec_fields_error(cs, 0) is None {
        let w = choose|i: int| 0 <= i < cs.len() - 1 && (#[trigger] cs[i]).join;
        lemma_join_scan_finds(cs, 0, w);
    }
}

proof fn lemma_join_scan_finds(cs: Seq<FieldConfig>, i: int, w: int)
    requires
        0 <= i <= w < cs.len() - 1,
        cs[w].join,
    ensures
        spec_join_not_last(cs, i) is Some,
    decreases w - i,
{
    if !cs[i].join {
        lemma_join_scan_finds(cs, i + 1, w);
    }
}

/// How one expected column constrains one physical column in the strict
/// check: the name must match where the expectation carries one, and the
/// wire type must be accepted.
pub open spec fn spec_aligned(e: ExpectedColumnModel, c: ColumnModel) -> bool {
    (e.name matches Some(n) ==> n == c.name) && e.kind.spec_accepts(c.ty)
}

/// A descriptor expects exactly as many columns as it consumes.
pub proof fn lemma_expected_len(d: Descriptor)
    ensures
        spec_expected(d).len() == spec_column_count(d),
    decreases d, 0int,
{
    match d {
        Descriptor::Scalar(_) => {},
        Descriptor::Optional(inner) => {
            lemma_expected_len(*inner);
        },
        Descriptor::Repeated(inner) => {
            lemma_expected_len(*inner);
        },
        Descriptor::Record(fields) => {
            lemma_expected_fields_len(fields@, 0);
        },
    }
}

proof fn lemma_expected_fields_len(fields: Seq<FieldSpec>, i: int)
    ensures
        spec_expected_fields(fields, i).len() == spec_fields_column_count(fields, i),
    decreases fields, fields.len() - i,
{
    if 0 <= i < fields.len() {
        lemma_expected_len(fields[i].target);
        lemma_expected_fields_len(fields, i + 1);
    }
}

/// A scalar-like binder expects one unnamed column, and matches a column
/// list exactly when that column's wire type is accepted.
proof fn lemma_scalar_like_shape(d: Descriptor)
    requires
        spec_scalar_like(d),
    ensures
        spec_expected(d).len() == 1,
        spec_expected(d)[0].name is None,
        forall|cols: Seq<ColumnModel>, at: int|
            spec_matches(d, cols, at) == spec_expected(d)[0].kind.spec_accepts(
                (#[trigger] cols[at]).ty,
            ),
    decreases d,
{
    match d {
        Descriptor::Optional(inner) => {
            lemma_scalar_like_shape(*inner);
        },
        _ => {},
    }
}

/// Validator soundness, the alignment half: under the strict positional
/// check, a well-formed descriptor matches a column list exactly when each
/// of its expected columns aligns with the physical column at its position,
/// through flattened and joined subtrees.
pub proof fn lemma_matches_iff_aligned(d: Descriptor, cols: Seq<ColumnModel>, at: int)
    requires
        spec_wf(d),
    ensures
        spec_matches(d, cols, at) <==> (forall|j: int|
            0 <= j < spec_column_count(d) ==> spec_aligned(
                #[trigger] spec_expected(d)[j],
                cols[at + j],
            )),
    decreases d, 0int,
{
    match d {
        Descriptor::Scalar(_) => {
            let n = spec_column_count(d);
            assert(spec_expected(d)[0].name is None);
            if spec_matches(d, cols, at) {
                assert forall|j: int| 0 <= j < n implies spec_aligned(
                    #[trigger] spec_expected(d)[j],
                    cols[at + j],
                ) by {
                    assert(j == 0);
                    assert(at + 0 == at);
                }
            }
            if forall|j: int|
                0 <= j < n ==> spec_aligned(#[trigger] spec_expected(d)[j], cols[at + j]) {
                assert(spec_aligned(spec_expected(d)[0], cols[at + 0]));
                assert(spec_matches(d, cols, at));
            }
            assert(spec_matches(d, cols, at) <==> (forall|j: int|
                0 <= j < spec_column_count(d) ==> spec_aligned(
                    #[trigger] spec_expected(d)[j],
                    cols[at + j],
                )));
        },
        Descriptor::Optional(inner) => {
            lemma_matches_iff_aligned(*inner, cols, at);
            lemma_expected_len(*inner);
            let n = spec_column_count(d);
            if spec_matches(d, cols, at) {
                assert forall|j: int| 0 <= j < n implies spec_aligned(
                    #[trigger] spec_expected(d)[j],
                    cols[at + j],
                ) by {
                    assert(spec_aligned(spec_expected(*inner)[j], cols[at + j]));
                    assert(spec_expected(d)[j] == spec_all_nullable(spec_expected(*inner))[j]);
                }
            }
            if forall|j: int|
                0 <= j < n ==> spec_aligned(#[trigger] spec_expected(d)[j], cols[at + j]) {
                assert forall|j: int| 0 <= j < n implies spec_aligned(
                    #[trigger] spec_expected(*inner)[j],
                    cols[at + j],
                ) by {
                    assert(spec_aligned(spec_expected(d)[j], cols[at + j]));
                    assert(spec_expected(d)[j] == spec_all_nullable(spec_expected(*inner))[j]);
                }
                assert(spec_matches(*inner, cols, at));
            }
            assert(spec_matches(d, cols, at) <==> (forall|j: int|
                0 <= j < spec_column_count(d) ==> spec_aligned(
                    #[trigger] spec_expected(d)[j],
                    cols[at + j],
                )));
        },
        Descriptor::Repeated(inner) => {
            lemma_matches_iff_aligned(*inner, cols, at);
            lemma_expected_len(*inner);
            let n = spec_column_count(d);
            if spec_matches(d, cols, at) {
                assert forall|j: int| 0 <= j < n implies spec_aligned(
                    #[trigger] spec_expected(d)[j],
                    cols[at + j],
                ) by {
                    assert(spec_aligned(spec_expected(*inner)[j], cols[at + j]));
                    assert(spec_expected(d)[j] == spec_all_nullable(spec_expected(*inner))[j]);
                }
            }
            if forall|j: int|
                0 <= j < n ==> spec_aligned(#[trigger] spec_expected(d)[j], cols[at + j]) {
                assert forall|j: int| 0 <= j < n implies spec_aligned(
                    #[trigger] spec_expected(*inner)[j],
                    cols[at + j],
                ) by {
                    assert(spec_aligned(spec_expected(d)[j], cols[at + j]));
                    assert(spec_expected(d)[j] == spec_all_nullable(spec_expected(*inner))[j]);
                }
                assert(spec_matches(*inner, cols, at));
            }
            assert(spec_matches(d, cols, at) <==> (forall|j: int|
                0 <= j < spec_column_count(d) ==> spec_aligned(
                    #[trigger] spec_expected(d)[j],
                    cols[at + j],
                )));
        },
        Descriptor::Record(fields) => {
            lemma_matches_fields_iff_aligned(fields@, 0, cols, at);
            let n = spec_column_count(d);
            assert(spec_expected(d) == spec_expected_fields(fields@, 0));
            if spec_matches(d, cols, at) {
                assert forall|j: int| 0 <= j < n implies spec_aligned(
                    #[trigger] spec_expected(d)[j],
                    cols[at + j],
                ) by {
                    assert(spec_aligned(spec_expected_fields(fields@, 0)[j], cols[at + j]));
                }
            }
            if forall|j: int|
                0 <= j < n ==> spec_aligned(#[trigger] spec_expected(d)[j], cols[at + j]) {
                assert forall|j: int| 0 <= j < n implies spec_aligned(
                    #[trigger] spec_expected_fields(fields@, 0)[j],
                    cols[at + j],
                ) by {
                    assert(spec_aligned(spec_expected(d)[j], cols[at + j]));
                }
                assert(spec_matches_fields(fields@, 0, cols, at));
            }
            assert(spec_matches(d, cols, at) <==> (forall|j: int|
                0 <= j < spec_column_count(d) ==> spec_aligned(
                    #[trigger] spec_expected(d)[j],
                    cols[at + j],
                )));
        },
    }
}

proof fn lemma_matches_fields_iff_aligned(
    fields: Seq<FieldSpec>,
    i: int,
    cols: Seq<ColumnModel>,
    at: int,
)
    requires
        spec_wf_fields(fields, i),
    ensures
        spec_matches_fields(fields, i, cols, at) <==> (forall|j: int|
            0 <= j < spec_fields_column_count(fields, i) ==> spec_aligned(
                #[trigger] spec_expected_fields(fields, i)[j],
                cols[at + j],
            )),
    decreases fields, fields.len() - i,
{
    if i < 0 || i >= fields.len() {
    } else {
        let f = fields[i];
        let w = spec_column_count(f.target);
        let head = if f.kind is Scalar {
            crate::expected::spec_named(
                spec_expected(f.target),
                crate::expected::opt_name_view(f.name),
            )
        } else {
            spec_expected(f.target)
        };
        let rest = spec_expected_fields(fields, i + 1);
        assert(spec_wf_field(f));
        lemma_expected_len(f.target);
        lemma_matches_fields_iff_aligned(fields, i + 1, cols, at + w);
        lemma_expected_fields_len(fields, i + 1);
        assert(head.len() == w);
        if f.kind is Scalar {
            lemma_scalar_like_shape(f.target);
            lemma_scalar_like_one_column(f.target);
            assert(head[0] == ExpectedColumnModel {
                name: crate::expected::opt_name_view(f.name),
                kind: spec_expected(f.target)[0].kind,
                nullable: spec_expected(f.target)[0].nullable,
            });
            assert(spec_aligned(head[0], cols[at]) == (spec_name_matches(f.name, cols[at])
                && spec_matches(f.target, cols, at)));
        } else {
            lemma_matches_iff_aligned(f.target, cols, at);
        }
        let whole = spec_expected_fields(fields, i);
        let n = spec_fields_column_count(fields, i);
        let np = spec_fields_column_count(fields, i + 1);
        assert(whole == head + rest);
        assert(n == w + np);
        let head_ok = (f.kind is Scalar ==> spec_name_matches(f.name, cols[at])) && spec_matches(
            f.target,
            cols,
            at,
        );
        assert(head_ok <==> (forall|j: int|
            0 <= j < w ==> spec_aligned(#[trigger] head[j], cols[at + j]))) by {
            if f.kind is Scalar {
                assert forall|j: int| 0 <= j < w implies (spec_aligned(
                    #[trigger] head[j],
                    cols[at + j],
                ) == head_ok) by {
                    assert(j == 0);
                    assert(at + 0 == at);
                }
                if forall|j: int| 0 <= j < w ==> spec_aligned(#[trigger] head[j], cols[at + j]) {
                    assert(spec_aligned(head[0], cols[at + 0]));
                }
            }
        }
        let rest_ok = spec_matches_fields(fields, i + 1, cols, at + w);
        assert(rest_ok <==> (forall|j: int|
            0 <= j < np ==> spec_aligned(#[trigger] rest[j], cols[at + w + j])));
        if head_ok && rest_ok {
            assert forall|j: int| 0 <= j < n implies spec_aligned(
                #[trigger] whole[j],
                cols[at + j],
            ) by {
                if j < w {
                    assert(whole[j] == head[j]);
                } else {
                    assert(whole[j] == rest[j - w]);
                    assert(spec_aligned(rest[j - w], cols[at + w + (j - w)]));
                    assert(at + w + (j - w) == at + j);
                }
            }
        }
        if forall|j: int| 0 <= j < n ==> spec_aligned(#[trigger] whole[j], cols[at + j]) {
            assert forall|j: int| 0 <= j < w implies spec_aligned(
                #[trigger] head[j],
                cols[at + j],
            ) by {
                assert(whole[j] == head[j]);
                assert(spec_aligned(whole[j], cols[at + j]));
            }
            assert forall|j: int| 0 <= j < np implies spec_aligned(
                #[trigger] rest[j],
                cols[at + w + j],
            ) by {
                assert(whole[j + w] == rest[j]);
                assert(spec_aligned(whole[j + w], cols[at + (j + w)]));
                assert(at + (j + w) == at + w + j);
            }
            assert(head_ok);
            assert(rest_ok);
        }
    }
}

} // verus!
