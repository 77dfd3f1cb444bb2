//! Bound values: what binding a row (or a group of rows) produces.

use vstd::prelude::*;
use crate::cell::{CellModel, ScalarKind};

verus! {

/// A value reconstructed from one or more rows.
///
/// `Absent` is what an optional subtree yields when its columns were null;
/// `Record` holds one value per field of a record descriptor; `Many` is the
/// collection accumulated by a repeated subtree across joined rows.
#[derive(Debug)]
pub enum Value {
    Int(i64),
    Bool(bool),
    Text(String),
    Absent,
    Record(Vec<Value>),
    Many(Vec<Value>),
}

/// Mathematical model of a bound value.
pub enum ValueModel {
    Int(int),
    Bool(bool),
    Text(Seq<char>),
    Absent,
    Record(Seq<ValueModel>),
    Many(Seq<ValueModel>),
}

pub open spec fn value_view(v: Value) -> ValueModel
    decreases v,
{
    match v {
        Value::Int(x) => ValueModel::Int(x as int),
        Value::Bool(b) => ValueModel::Bool(b),
        Value::Text(s) => ValueModel::Text(s@),
        Value::Absent => ValueModel::Absent,
        Value::Record(vs) => ValueModel::Record(values_view(vs@)),
        Value::Many(vs) => ValueModel::Many(values_view(vs@)),
    }
}

pub open spec fn values_view(s: Seq<Value>) -> Seq<ValueModel>
    decreases s,
{
    if s.len() == 0 {
        Seq::empty()
    } else {
        values_view(s.drop_last()).push(value_view(s.last()))
    }
}

impl View for Value {
    type V = ValueModel;

    open spec fn view(&self) -> ValueModel {
        value_view(*self)
    }
}

pub broadcast proof fn lemma_values_view_len(s: Seq<Value>)
    ensures
        (#[trigger] values_view(s)).len() == s.len(),
    decreases s,
{
    if s.len() > 0 {
        lemma_values_view_len(s.drop_last());
    }
}

pub broadcast proof fn lemma_values_view_index(s: Seq<Value>, i: int)
    requires
        0 <= i < s.len(),
    ensures
        #[trigger] values_view(s)[i] == s[i]@,
    decreases s,
{
    lemma_values_view_len(s.drop_last());
    if i < s.len() - 1 {
        lemma_values_view_index(s.drop_last(), i);
        assert(s.drop_last()[i] == s[i]);
    }
}

/// The scalar value a non-null cell of the given kind decodes to.
/// Meaningful only when the cell fits the kind.
pub open spec fn spec_decode(k: ScalarKind, c: CellModel) -> ValueModel {
    match c {
        CellModel::Int(x) => ValueModel::Int(x),
        CellModel::Bool(b) => ValueModel::Bool(b),
        CellModel::Text(s) => ValueModel::Text(s),
        CellModel::Null => ValueModel::Absent,
    }
}

/// The cell a scalar value came from: the inverse of decoding, used to state
/// round-trip facts.
pub open spec fn spec_encode(v: ValueModel) -> CellModel {
    match v {
        ValueModel::Int(x) => CellModel::Int(x),
        ValueModel::Bool(b) => CellModel::Bool(b),
        ValueModel::Text(s) => CellModel::Text(s),
        _ => CellModel::Null,
    }
}

/// Structural equality of bound values, used for the join-key test.
pub fn value_eq(a: &Value, b: &Value) -> (r: bool)
    ensures
        r == (a@ == b@),
    decreases *a,
{
    match a {
        Value::Int(x) => match b {
            Value::Int(y) => *x == *y,
            _ => false,
        },
        Value::Bool(x) => match b {
            Value::Bool(y) => *x == *y,
            _ => false,
        },
        Value::Text(x) => match b {
            Value::Text(y) => *x == *y,
            _ => false,
        },
        Value::Absent => match b {
            Value::Absent => true,
            _ => false,
        },
        Value::Record(xs) => match b {
            Value::Record(ys) => values_eq(xs, ys),
            _ => false,
        },
        Value::Many(xs) => match b {
            Value::Many(ys) => values_eq(xs, ys),
            _ => false,
        },
    }
}

fn values_eq(xs: &Vec<Value>, ys: &Vec<Value>) -> (r: bool)
    ensures
        r == (values_view(xs@) == values_view(ys@)),
    decreases *xs,
{
    proof {
        lemma_values_view_len(xs@);
        lemma_values_view_len(ys@);
    }
    if xs.len() != ys.len() {
        return false;
    }
    let mut i: usize = 0;
    while i < xs.len()
        invariant
            xs@.len() == ys@.len(),
            i <= xs@.len(),
            forall|j: int| 0 <= j < i ==> values_view(xs@)[j] == values_view(ys@)[j],
            values_view(xs@).len() == xs@.len(),
            values_view(ys@).len() == ys@.len(),
        decreases xs@.len() - i,
    {
        proof {
            assert(decreases_to!(*xs => xs@[i as int]));
        }
        if !value_eq(&xs[i], &ys[i]) {
            proof {
                lemma_values_view_index(xs@, i as int);
                lemma_values_view_index(ys@, i as int);
            }
            return false;
        }
        proof {
            lemma_values_view_index(xs@, i as int);
            lemma_values_view_index(ys@, i as int);
        }
        i = i + 1;
    }
    proof {
        assert(values_view(xs@) =~= values_view(ys@));
    }
    true
}

} // verus!
