//! Schema validation: the strict positional check of a physical column list
//! against a descriptor.

use vstd::prelude::*;
use vstd::pervasive::unreached;
use crate::descriptor::{Descriptor, FieldKind, FieldSpec, spec_column_count, spec_fields_column_count, spec_scalar_like, spec_wf, spec_wf_field, spec_wf_fields};
use crate::row::{ColumnModel, PhysicalColumn, columns_view};

verus! {

/// Whether a scalar field's name requirement holds of a physical column.
pub open spec fn spec_name_matches(name: Option<String>, c: ColumnModel) -> bool {
    match name {
        Some(n) => n@ == c.name,
        None => true,
    }
}

/// The strict positional check: every scalar position accepts its physical
/// column's wire type, named scalar fields also require the physical name to
/// match, and flattened or joined fields recurse into their sub-slice of
/// columns.
pub open spec fn spec_matches(d: Descriptor, cols: Seq<ColumnModel>, at: int) -> bool
    decreases d, 0int,
{
    match d {
        Descriptor::Scalar(k) => k.spec_accepts(cols[at].ty),
        Descriptor::Optional(inner) => spec_matches(*inner, cols, at),
        Descriptor::Repeated(inner) => spec_matches(*inner, cols, at),
        Descriptor::Record(fields) => spec_matches_fields(fields@, 0, cols, at),
    }
}

pub open spec fn spec_matches_fields(
    fields: Seq<FieldSpec>,
    i: int,
    cols: Seq<ColumnModel>,
    at: int,
) -> bool
    decreases fields, fields.len() - i,
{
    if i < 0 || i >= fields.len() {
        true
    } else {
        let f = fields[i];
        (f.kind is Scalar ==> spec_name_matches(f.name, cols[at])) && spec_matches(
            f.target,
            cols,
            at,
        ) && spec_matches_fields(fields, i + 1, cols, at + spec_column_count(f.target))
    }
}

/// A scalar-like binder spans exactly one column.
pub proof fn lemma_scalar_like_one_column(d: Descriptor)
    requires
        spec_scalar_like(d),
    ensures
        spec_column_count(d) == 1,
    decreases d,
{
    match d {
        Descriptor::Optional(inner) => {
            lemma_scalar_like_one_column(*inner);
        },
        _ => {},
    }
}

fn matches_at(d: &Descriptor, cols: &Vec<PhysicalColumn>, at: usize) -> (r: bool)
    requires
        spec_wf(*d),
        at + spec_column_count(*d) <= cols@.len(),
    ensures
        r == spec_matches(*d, columns_view(cols@), at as int),
    decreases *d, 0int,
{
    match d {
        Descriptor::Scalar(k) => {
            let c = &cols[at];
            k.accepts(&c.ty)
        },
        Descriptor::Optional(inner) => {
            proof {
                assert(decreases_to!(*d, 0int => **inner, 0int));
            }
            matches_at(inner, cols, at)
        },
        Descriptor::Repeated(inner) => {
            proof {
                assert(decreases_to!(*d, 0int => **inner, 0int));
            }
            matches_at(inner, cols, at)
        },
        Descriptor::Record(fields) => {
            proof {
                assert(decreases_to!(*d, 0int => *fields, fields@.len() as int));
            }
            matches_fields_at(fields, 0, cols, at)
        },
    }
}

fn matches_fields_at(
    fields: &Vec<FieldSpec>,
    i: usize,
    cols: &Vec<PhysicalColumn>,
    at: usize,
) -> (r: bool)
    requires
        spec_wf_fields(fields@, i as int),
        i <= fields@.len(),
        at + spec_fields_column_count(fields@, i as int) <= cols@.len(),
    ensures
        r == spec_matches_fields(fields@, i as int, columns_view(cols@), at as int),
    decreases *fields, fields@.len() - i,
{
    if i == fields.len() {
        return true;
    }
    proof {
        assert(decreases_to!(*fields => fields@[i as int]));
    }
    let cols_len = cols.len();
    proof {
        assert(cols_len == cols@.len());
        assert(spec_fields_column_count(fields@, i as int) == spec_column_count(
            fields@[i as int].target,
        ) + spec_fields_column_count(fields@, i as int + 1));
    }
    let f = &fields[i];
    proof {
        assert(spec_wf_field(fields@[i as int]));
        if fields@[i as int].kind is Scalar {
            lemma_scalar_like_one_column(fields@[i as int].target);
        }
    }
    let width = f.target.column_count();
    let name_ok = match f.kind {
        FieldKind::Scalar => match &f.name {
            Some(n) => {
                let c = &cols[at];
                *n == c.name
            },
            None => true,
        },
        _ => true,
    };
    if !name_ok {
        return false;
    }
    if !matches_at(&f.target, cols, at) {
        return false;
    }
    matches_fields_at(fields, i + 1, cols, at + width)
}

impl Descriptor {
    /// The strict schema check: passes exactly when the physical column list
    /// has this binder's column count and every position matches by name and
    /// wire type, through flattened and joined subtrees.
    pub fn try_assert_matches(&self, columns: &Vec<PhysicalColumn>) -> (r: Result<(), ()>)
        requires
            spec_wf(*self),
        ensures
            r is Ok <==> (columns@.len() == spec_column_count(*self) && spec_matches(
                *self,
                columns_view(columns@),
                0,
            )),
    {
        let n = columns.len();
        match self.column_count_checked() {
            None => Err(()),
            Some(cc) => {
                if n != cc {
                    Err(())
                } else if matches_at(self, columns, 0) {
                    Ok(())
                } else {
                    Err(())
                }
            },
        }
    }

    /// The fail-fast schema check for callers that treat a mismatch as fatal:
    /// callable only where the schema is known to match.
    pub fn assert_matches(&self, columns: &Vec<PhysicalColumn>)
        requires
            spec_wf(*self),
            columns@.len() == spec_column_count(*self),
            spec_matches(*self, columns_view(columns@), 0),
    {
        match self.try_assert_matches(columns) {
            Ok(()) => {},
            Err(()) => unreached(),
        }
    }
}

} // verus!
