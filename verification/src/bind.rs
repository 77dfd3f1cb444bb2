//! The row binder: reconstructing values from a row's cells, with the joined
//! continuation protocol that lets consecutive rows merge into one record.

use vstd::prelude::*;
use vstd::pervasive::unreached;
use crate::cell::CellModel;
use crate::descriptor::{Descriptor, FieldKind, FieldSpec, spec_column_count, spec_fields_column_count};
use crate::errors::DecodeError;
use crate::row::Row;
use crate::cell::Cell;
use crate::value::{Value, ValueModel, spec_decode, value_view, values_view};

verus! {

/// The outcome of binding one binder against one row.
///
/// `Produced` carries a fresh value and leaves any previous record alone;
/// `MergedInto` carries the previous record, extended by this row, and
/// produces no new value; `Failed` aborts the current row.
pub enum BindModel {
    Produced(ValueModel),
    MergedInto(ValueModel),
    Failed(DecodeError),
}

/// The outcome of binding the fields of a record from one position on.
pub enum FieldsModel {
    ProducedFields(Seq<ValueModel>),
    MergedFields(Seq<ValueModel>),
    FailedFields(DecodeError),
}

pub open spec fn opt_view(o: Option<Value>) -> Option<ValueModel> {
    match o {
        Some(v) => Some(value_view(v)),
        None => None,
    }
}

pub open spec fn opt_vals_view(o: Option<Vec<Value>>) -> Option<Seq<ValueModel>> {
    match o {
        Some(vs) => Some(values_view(vs@)),
        None => None,
    }
}

/// The previous value handed to an inner optional binder: an absent wrapper
/// gives the inner binder no previous value.
pub open spec fn spec_inner_parent(p: Option<ValueModel>) -> Option<ValueModel> {
    match p {
        Some(ValueModel::Absent) => None,
        _ => p,
    }
}

/// The field values of the previous record, when the previous value is a
/// record at all.
pub open spec fn spec_record_parent(p: Option<ValueModel>) -> Option<Seq<ValueModel>> {
    match p {
        Some(ValueModel::Record(vs)) => Some(vs),
        _ => None,
    }
}

/// The join-key test: every sibling field bound before the join field equals
/// the corresponding field stored on the previous record.
pub open spec fn spec_key_matches(
    acc: Seq<ValueModel>,
    pvals: Option<Seq<ValueModel>>,
    nfields: int,
    i: int,
) -> bool {
    match pvals {
        Some(pv) => pv.len() == nfields && acc == pv.take(i),
        None => false,
    }
}

/// What binding a binder against the cells of one row yields, starting at
/// column `at`, given the previous value of the same binder (if any).
pub open spec fn spec_bind(
    d: Descriptor,
    parent: Option<ValueModel>,
    cells: Seq<CellModel>,
    at: int,
) -> BindModel
    decreases d, 0int,
{
    match d {
        Descriptor::Scalar(k) => {
            if cells[at] is Null {
                BindModel::Failed(DecodeError::WasNull { index: at as usize })
            } else if k.spec_fits(cells[at]) {
                BindModel::Produced(spec_decode(k, cells[at]))
            } else {
                BindModel::Failed(DecodeError::WrongType { index: at as usize })
            }
        },
        Descriptor::Optional(inner) => match spec_bind(*inner, spec_inner_parent(parent), cells, at) {
            BindModel::Produced(v) => BindModel::Produced(v),
            BindModel::MergedInto(v) => BindModel::MergedInto(v),
            BindModel::Failed(e) => {
                if e is WasNull {
                    BindModel::Produced(ValueModel::Absent)
                } else {
                    BindModel::Failed(e)
                }
            },
        },
        Descriptor::Repeated(inner) => match parent {
            None => match spec_bind(*inner, None, cells, at) {
                BindModel::Produced(v) => BindModel::Produced(ValueModel::Many(seq![v])),
                BindModel::MergedInto(v) => BindModel::MergedInto(v),
                BindModel::Failed(e) => {
                    if e is WasNull {
                        BindModel::Produced(ValueModel::Many(Seq::empty()))
                    } else {
                        BindModel::Failed(e)
                    }
                },
            },
            Some(pv) => match pv {
                ValueModel::Many(s) => {
                    let ip = if s.len() == 0 {
                        None
                    } else {
                        Some(s.last())
                    };
                    match spec_bind(*inner, ip, cells, at) {
                        BindModel::Produced(item) => BindModel::MergedInto(
                            ValueModel::Many(s.push(item)),
                        ),
                        BindModel::MergedInto(item) => BindModel::MergedInto(
                            ValueModel::Many(s.update(s.len() - 1, item)),
                        ),
                        BindModel::Failed(e) => {
                            if e is WasNull {
                                BindModel::MergedInto(ValueModel::Many(s))
                            } else {
                                BindModel::Failed(e)
                            }
                        },
                    }
                },
                _ => BindModel::Failed(DecodeError::WrongType { index: at as usize }),
            },
        },
        Descriptor::Record(fields) => match spec_bind_fields(
            fields@,
            0,
            Seq::empty(),
            spec_record_parent(parent),
            cells,
            at,
        ) {
            FieldsModel::ProducedFields(vs) => BindModel::Produced(ValueModel::Record(vs)),
            FieldsModel::MergedFields(pv) => BindModel::MergedInto(ValueModel::Record(pv)),
            FieldsModel::FailedFields(e) => BindModel::Failed(e),
        },
    }
}

/// What binding a record's fields from position `i` on yields. `acc` holds
/// the values bound so far and `pvals` the fields of the previous record.
pub open spec fn spec_bind_fields(
    fields: Seq<FieldSpec>,
    i: int,
    acc: Seq<ValueModel>,
    pvals: Option<Seq<ValueModel>>,
    cells: Seq<CellModel>,
    at: int,
) -> FieldsModel
    decreases fields, fields.len() - i,
{
    if i < 0 || i >= fields.len() {
        FieldsModel::ProducedFields(acc)
    } else {
        let f = fields[i];
        let next_at = at + spec_column_count(f.target);
        if f.kind is Join && spec_key_matches(acc, pvals, fields.len() as int, i) {
            let pv = pvals->Some_0;
            match spec_bind(f.target, Some(pv[i]), cells, at) {
                BindModel::MergedInto(item) => FieldsModel::MergedFields(pv.update(i, item)),
                BindModel::Produced(item) => spec_bind_fields(
                    fields,
                    i + 1,
                    acc.push(item),
                    pvals,
                    cells,
                    next_at,
                ),
                BindModel::Failed(e) => FieldsModel::FailedFields(e),
            }
        } else {
            match spec_bind(f.target, None, cells, at) {
                BindModel::Produced(item) => spec_bind_fields(
                    fields,
                    i + 1,
                    acc.push(item),
                    pvals,
                    cells,
                    next_at,
                ),
                BindModel::MergedInto(_) => FieldsModel::FailedFields(
                    DecodeError::WrongType { index: at as usize },
                ),
                BindModel::Failed(e) => FieldsModel::FailedFields(e),
            }
        }
    }
}

/// What the executable binder owes relative to the model: a produced value
/// and an untouched previous record, a merge written back into the previous
/// record, or the model's error with the previous record untouched.
pub open spec fn bind_post(
    r: Result<Option<Value>, DecodeError>,
    old_last: Option<Value>,
    new_last: Option<Value>,
    out: BindModel,
) -> bool {
    match out {
        BindModel::Produced(v) => (r matches Ok(Some(val)) && val@ == v) && opt_view(new_last)
            == opt_view(old_last),
        BindModel::MergedInto(p) => (r matches Ok(None)) && opt_view(new_last) == Some(p),
        BindModel::Failed(e) => (r matches Err(e2) && e2 == e) && opt_view(new_last) == opt_view(
            old_last,
        ),
    }
}

pub open spec fn fields_post(
    r: Result<FieldsOut, DecodeError>,
    old_pvals: Option<Seq<ValueModel>>,
    new_pvals: Option<Seq<ValueModel>>,
    out: FieldsModel,
) -> bool {
    match out {
        FieldsModel::ProducedFields(vs) => (r matches Ok(FieldsOut::ProducedFields(v))
            && values_view(v@) == vs) && new_pvals == old_pvals,
        FieldsModel::MergedFields(pv) => (r matches Ok(FieldsOut::MergedFields)) && new_pvals
            == Some(pv),
        FieldsModel::FailedFields(e) => (r matches Err(e2) && e2 == e) && new_pvals == old_pvals,
    }
}

/// The executable outcome of binding a record's fields.
pub enum FieldsOut {
    ProducedFields(Vec<Value>),
    MergedFields,
}

pub broadcast proof fn lemma_values_view_push(s: Seq<Value>, v: Value)
    ensures
        #[trigger] values_view(s.push(v)) == values_view(s).push(v@),
{
    assert(s.push(v).drop_last() =~= s);
    assert(s.push(v).last() == v);
}

/// A bind without a previous value never reports a merge: the merged outcome
/// exists only to extend a record that a previous row produced. This is the
/// internal contract behind the top-level entry points, which always bind
/// fresh and so always receive a value.
pub proof fn lemma_fresh_never_merges(d: Descriptor, cells: Seq<CellModel>, at: int)
    ensures
        !(spec_bind(d, None, cells, at) is MergedInto),
    decreases d, 0int,
{
    match d {
        Descriptor::Scalar(_) => {},
        Descriptor::Optional(inner) => {
            lemma_fresh_never_merges(*inner, cells, at);
        },
        Descriptor::Repeated(inner) => {
            lemma_fresh_never_merges(*inner, cells, at);
        },
        Descriptor::Record(fields) => {
            lemma_fields_without_previous_never_merge(fields@, 0, Seq::empty(), cells, at);
        },
    }
}

/// Binding a record's fields with no previous record never merges: the merge
/// arm asks for the previous record's fields.
pub proof fn lemma_fields_without_previous_never_merge(
    fields: Seq<FieldSpec>,
    i: int,
    acc: Seq<ValueModel>,
    cells: Seq<CellModel>,
    at: int,
)
    ensures
        !(spec_bind_fields(fields, i, acc, None, cells, at) is MergedFields),
    decreases fields.len() - i,
{
    if 0 <= i < fields.len() {
        let f = fields[i];
        let next_at = at + spec_column_count(f.target);
        match spec_bind(f.target, None, cells, at) {
            BindModel::Produced(item) => {
                lemma_fields_without_previous_never_merge(
                    fields,
                    i + 1,
                    acc.push(item),
                    cells,
                    next_at,
                );
            },
            _ => {},
        }
    }
}

/// A value and its model agree on which wrapper shape they have.
pub proof fn lemma_view_variant(v: Value)
    ensures
        (value_view(v) is Absent) == (v is Absent),
        (value_view(v) is Many) == (v is Many),
        (value_view(v) is Record) == (v is Record),
{
    match v {
        Value::Int(_) => {},
        Value::Bool(_) => {},
        Value::Text(_) => {},
        Value::Absent => {},
        Value::Record(_) => {},
        Value::Many(_) => {},
    }
}

/// Whether the first `i` values of `a` and `b` are equal.
fn prefix_eq(a: &Vec<Value>, b: &Vec<Value>, i: usize) -> (r: bool)
    requires
        i <= a@.len(),
        i <= b@.len(),
    ensures
        r == (forall|j: int| 0 <= j < i ==> values_view(a@)[j] == values_view(b@)[j]),
{
    proof {
        crate::value::lemma_values_view_len(a@);
        crate::value::lemma_values_view_len(b@);
    }
    let mut j: usize = 0;
    while j < i
        invariant
            i <= a@.len(),
            i <= b@.len(),
            j <= i,
            values_view(a@).len() == a@.len(),
            values_view(b@).len() == b@.len(),
            forall|k: int| 0 <= k < j ==> values_view(a@)[k] == values_view(b@)[k],
        decreases i - j,
    {
        let same = crate::value::value_eq(&a[j], &b[j]);
        proof {
            crate::value::lemma_values_view_index(a@, j as int);
            crate::value::lemma_values_view_index(b@, j as int);
        }
        if !same {
            return false;
        }
        j = j + 1;
    }
    true
}

/// Bind this binder against one row's cells, starting at column `index`,
/// threading the previous value of the same binder through `last`.
///
/// An `Ok(Some(..))` result is a fresh value and leaves `last` as it was; an
/// `Ok(None)` result means the row was merged into `last`; an error leaves
/// `last` as it was and aborts the current row.
pub fn try_from_row_joined(
    desc: &Descriptor,
    last: &mut Option<Value>,
    row: &Row,
    index: usize,
) -> (r: Result<Option<Value>, DecodeError>)
    requires
        index + spec_column_count(*desc) <= row@.cells.len(),
    ensures
        bind_post(
            r,
            *old(last),
            *final(last),
            spec_bind(*desc, opt_view(*old(last)), row@.cells, index as int),
        ),
    decreases *desc, 0int,
{
    broadcast use lemma_values_view_push;

    match desc {
        Descriptor::Scalar(k) => {
            let c = &row.cells[index];
            match k {
                crate::cell::ScalarKind::Int => match c {
                    Cell::Int(x) => Ok(Some(Value::Int(*x))),
                    Cell::Null => Err(DecodeError::WasNull { index }),
                    _ => Err(DecodeError::WrongType { index }),
                },
                crate::cell::ScalarKind::Bool => match c {
                    Cell::Bool(x) => Ok(Some(Value::Bool(*x))),
                    Cell::Null => Err(DecodeError::WasNull { index }),
                    _ => Err(DecodeError::WrongType { index }),
                },
                crate::cell::ScalarKind::Text => match c {
                    Cell::Text(x) => Ok(Some(Value::Text(x.clone()))),
                    Cell::Null => Err(DecodeError::WasNull { index }),
                    _ => Err(DecodeError::WrongType { index }),
                },
            }
        },
        Descriptor::Optional(inner) => {
            proof {
                assert(decreases_to!(*desc, 0int => **inner, 0int));
            }
            let taken = last.take();
            let was_present: bool;
            let mut ip: Option<Value>;
            match taken {
                None => {
                    was_present = false;
                    ip = None;
                },
                Some(Value::Absent) => {
                    was_present = true;
                    ip = None;
                },
                Some(v) => {
                    proof {
                        lemma_view_variant(v);
                    }
                    was_present = true;
                    ip = Some(v);
                },
            }
            let ghost ip0 = ip;
            let inner_r = try_from_row_joined(inner, &mut ip, row, index);
            match inner_r {
                Ok(None) => {
                    proof {
                        if ip0 is None {
                            lemma_fresh_never_merges(**inner, row@.cells, index as int);
                            assert(false);
                        }
                    }
                    let merged = ip.unwrap();
                    *last = Some(merged);
                    Ok(None)
                },
                Ok(Some(v)) => {
                    restore_optional(last, ip, was_present);
                    Ok(Some(v))
                },
                Err(e) => {
                    restore_optional(last, ip, was_present);
                    if crate::errors::is_was_null(&e) {
                        Ok(Some(Value::Absent))
                    } else {
                        Err(e)
                    }
                },
            }
        },
        Descriptor::Repeated(inner) => {
            proof {
                assert(decreases_to!(*desc, 0int => **inner, 0int));
            }
            let taken = last.take();
            match taken {
                None => {
                    let mut ip: Option<Value> = None;
                    let inner_r = try_from_row_joined(inner, &mut ip, row, index);
                    *last = None;
                    match inner_r {
                        Ok(Some(v)) => {
                            let ghost vm = v@;
                            let mut items: Vec<Value> = Vec::new();
                            items.push(v);
                            proof {
                                assert(values_view(items@) =~= seq![vm]);
                            }
                            Ok(Some(Value::Many(items)))
                        },
                        Ok(None) => {
                            proof {
                                lemma_fresh_never_merges(**inner, row@.cells, index as int);
                            }
                            unreached()
                        },
                        Err(e) => {
                            if crate::errors::is_was_null(&e) {
                                let items: Vec<Value> = Vec::new();
                                proof {
                                    assert(values_view(items@) =~= Seq::<ValueModel>::empty());
                                }
                                Ok(Some(Value::Many(items)))
                            } else {
                                Err(e)
                            }
                        },
                    }
                },
                Some(Value::Many(mut items)) => {
                    let ghost s = values_view(items@);
                    proof {
                        crate::value::lemma_values_view_len(items@);
                    }
                    let mut ip: Option<Value>;
                    if items.len() == 0 {
                        ip = None;
                    } else {
                        let popped = items.pop();
                        match popped {
                            Some(el) => {
                                proof {
                                    crate::value::lemma_values_view_index(
                                        items@.push(el),
                                        items@.len() as int,
                                    );
                                    assert(items@.push(el) =~= items@.push(el));
                                    assert(values_view(items@.push(el)) == s);
                                    assert(values_view(items@) == values_view(
                                        items@.push(el),
                                    ).drop_last());
                                }
                                ip = Some(el);
                            },
                            None => {
                                ip = None;
                            },
                        }
                    }
                    proof {
                        assert(opt_view(ip) == (if s.len() == 0 {
                            None::<ValueModel>
                        } else {
                            Some(s.last())
                        }));
                        assert(values_view(items@) == (if s.len() == 0 {
                            s
                        } else {
                            s.drop_last()
                        }));
                    }
                    let ghost items_before = values_view(items@);
                    let inner_r = try_from_row_joined(inner, &mut ip, row, index);
                    match inner_r {
                        Ok(Some(item)) => {
                            let ghost itemm = item@;
                            push_back_popped(&mut items, ip);
                            proof {
                                assert(values_view(items@) =~= s);
                            }
                            items.push(item);
                            *last = Some(Value::Many(items));
                            proof {
                                assert(values_view(items@) == s.push(itemm));
                                assert(opt_view(*last) == Some(ValueModel::Many(s.push(itemm))));
                            }
                            Ok(None)
                        },
                        Ok(None) => {
                            proof {
                                if s.len() == 0 {
                                    lemma_fresh_never_merges(**inner, row@.cells, index as int);
                                    assert(false);
                                }
                            }
                            let merged = ip.unwrap();
                            let ghost mm = merged@;
                            proof {
                                assert(values_view(items@).push(mm) =~= s.update(
                                    s.len() - 1,
                                    mm,
                                ));
                            }
                            items.push(merged);
                            *last = Some(Value::Many(items));
                            proof {
                                assert(values_view(items@) == s.update(s.len() - 1, mm));
                                assert(opt_view(*last) == Some(
                                    ValueModel::Many(s.update(s.len() - 1, mm)),
                                ));
                            }
                            Ok(None)
                        },
                        Err(e) => {
                            push_back_popped(&mut items, ip);
                            proof {
                                assert(values_view(items@) =~= s);
                            }
                            *last = Some(Value::Many(items));
                            proof {
                                assert(opt_view(*last) == Some(ValueModel::Many(s)));
                            }
                            if crate::errors::is_was_null(&e) {
                                Ok(None)
                            } else {
                                Err(e)
                            }
                        },
                    }
                },
                Some(other) => {
                    proof {
                        lemma_view_variant(other);
                    }
                    *last = Some(other);
                    Err(DecodeError::WrongType { index })
                },
            }
        },
        Descriptor::Record(fields) => {
            let taken = last.take();
            let mut pvals: Option<Vec<Value>>;
            let rest: Option<Value>;
            match taken {
                Some(Value::Record(pv)) => {
                    pvals = Some(pv);
                    rest = None;
                },
                Some(other) => {
                    proof {
                        lemma_view_variant(other);
                    }
                    pvals = None;
                    rest = Some(other);
                },
                None => {
                    pvals = None;
                    rest = None;
                },
            }
            proof {
                assert(decreases_to!(*desc, 0int => *fields, fields@.len() as int));
            }
            let acc: Vec<Value> = Vec::new();
            proof {
                assert(values_view(acc@) =~= Seq::<ValueModel>::empty());
            }
            let fr = bind_fields(fields, 0, acc, &mut pvals, row, index);
            match fr {
                Ok(FieldsOut::ProducedFields(vs)) => {
                    restore_record(last, pvals, rest);
                    Ok(Some(Value::Record(vs)))
                },
                Ok(FieldsOut::MergedFields) => {
                    let pv = pvals.unwrap();
                    *last = Some(Value::Record(pv));
                    Ok(None)
                },
                Err(e) => {
                    restore_record(last, pvals, rest);
                    Err(e)
                },
            }
        },
    }
}

/// Put an optional binder's previous value back together after an inner bind
/// that did not merge.
fn restore_optional(last: &mut Option<Value>, ip: Option<Value>, was_present: bool)
    requires
        *old(last) is None,
        !was_present ==> ip is None,
    ensures
        opt_view(*final(last)) == (if was_present {
            Some(
                match ip {
                    Some(v) => v@,
                    None => ValueModel::Absent,
                },
            )
        } else {
            None::<ValueModel>
        }),
{
    if was_present {
        match ip {
            Some(v) => {
                *last = Some(v);
            },
            None => {
                *last = Some(Value::Absent);
            },
        }
    } else {
        *last = None;
    }
}

/// Put a record binder's previous value back together after a bind that did
/// not merge.
fn restore_record(last: &mut Option<Value>, pvals: Option<Vec<Value>>, rest: Option<Value>)
    requires
        *old(last) is None,
        pvals is Some ==> rest is None,
    ensures
        opt_view(*final(last)) == (match pvals {
            Some(pv) => Some(ValueModel::Record(values_view(pv@))),
            None => opt_view(rest),
        }),
{
    match pvals {
        Some(pv) => {
            *last = Some(Value::Record(pv));
        },
        None => {
            *last = rest;
        },
    }
}

/// Put the popped last element of a repeated collection back, when one was
/// popped at all.
fn push_back_popped(items: &mut Vec<Value>, ip: Option<Value>)
    ensures
        values_view(final(items)@) == (match ip {
            Some(v) => values_view(old(items)@).push(v@),
            None => values_view(old(items)@),
        }),
{
    broadcast use lemma_values_view_push;

    match ip {
        Some(v) => {
            items.push(v);
        },
        None => {},
    }
}

/// Bind a record's fields from position `i` on. `acc` holds the values bound
/// so far, one per field before `i`; `pvals` holds the previous record's
/// field values when there is a previous record.
fn bind_fields(
    fields: &Vec<FieldSpec>,
    i: usize,
    acc: Vec<Value>,
    pvals: &mut Option<Vec<Value>>,
    row: &Row,
    at: usize,
) -> (r: Result<FieldsOut, DecodeError>)
    requires
        i <= fields@.len(),
        acc@.len() == i,
        at + spec_fields_column_count(fields@, i as int) <= row@.cells.len(),
    ensures
        fields_post(
            r,
            opt_vals_view(*old(pvals)),
            opt_vals_view(*final(pvals)),
            spec_bind_fields(
                fields@,
                i as int,
                values_view(acc@),
                opt_vals_view(*old(pvals)),
                row@.cells,
                at as int,
            ),
        ),
    decreases *fields, fields@.len() - i,
{
    broadcast use lemma_values_view_push, crate::value::lemma_values_view_len, crate::value::lemma_values_view_index;

    if i == fields.len() {
        return Ok(FieldsOut::ProducedFields(acc));
    }
    proof {
        assert(decreases_to!(*fields => fields@[i as int]));
    }
    let row_len = row.cells.len();
    proof {
        assert(row_len == row@.cells.len());
        assert(spec_fields_column_count(fields@, i as int) == spec_column_count(
            fields@[i as int].target,
        ) + spec_fields_column_count(fields@, i as int + 1));
    }
    let f = &fields[i];
    let width = f.target.column_count();
    let mut key_match = false;
    let is_join = match f.kind {
        FieldKind::Join => true,
        _ => false,
    };
    if is_join {
        match &*pvals {
            Some(pv) => {
                if pv.len() == fields.len() {
                    key_match = prefix_eq(&acc, pv, i);
                }
            },
            None => {},
        }
    }
    proof {
        if key_match {
            let pvm = opt_vals_view(*pvals)->Some_0;
            assert(values_view(acc@) =~= pvm.take(i as int));
        }
        if f.kind is Join && spec_key_matches(
            values_view(acc@),
            opt_vals_view(*pvals),
            fields@.len() as int,
            i as int,
        ) {
            let pvm = opt_vals_view(*pvals)->Some_0;
            assert(forall|j: int|
                0 <= j < i ==> values_view(acc@)[j] == #[trigger] pvm.take(i as int)[j]);
            assert(forall|j: int| 0 <= j < i ==> pvm.take(i as int)[j] == pvm[j]);
            assert(key_match);
        }
    }
    if key_match {
        let mut pv = pvals.take().unwrap();
        let ghost pvm = values_view(pv@);
        proof {
            crate::value::lemma_values_view_index(pv@, i as int);
        }
        let slot = pv.remove(i);
        let ghost removed = values_view(pv@);
        proof {
            assert(removed =~= pvm.remove(i as int));
            assert(slot@ == pvm[i as int]);
        }
        let mut ip: Option<Value> = Some(slot);
        let inner_r = try_from_row_joined(&f.target, &mut ip, row, at);
        match inner_r {
            Ok(None) => {
                let item = ip.unwrap();
                let ghost itemm = item@;
                pv.insert(i, item);
                proof {
                    assert(values_view(pv@) =~= pvm.update(i as int, itemm));
                }
                *pvals = Some(pv);
                Ok(FieldsOut::MergedFields)
            },
            Ok(Some(item)) => {
                let back = ip.unwrap();
                pv.insert(i, back);
                proof {
                    assert(values_view(pv@) =~= pvm);
                }
                *pvals = Some(pv);
                let mut acc2 = acc;
                acc2.push(item);
                bind_fields(fields, i + 1, acc2, pvals, row, at + width)
            },
            Err(e) => {
                let back = ip.unwrap();
                pv.insert(i, back);
                proof {
                    assert(values_view(pv@) =~= pvm);
                }
                *pvals = Some(pv);
                Err(e)
            },
        }
    } else {
        let mut ip: Option<Value> = None;
        let inner_r = try_from_row_joined(&f.target, &mut ip, row, at);
        match inner_r {
            Ok(Some(item)) => {
                let mut acc2 = acc;
                acc2.push(item);
                bind_fields(fields, i + 1, acc2, pvals, row, at + width)
            },
            Ok(None) => {
                proof {
                    lemma_fresh_never_merges(fields@[i as int].target, row@.cells, at as int);
                }
                unreached()
            },
            Err(e) => Err(e),
        }
    }
}

} // verus!
