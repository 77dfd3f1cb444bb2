//! Record descriptors: the static, per-record-type schema that drives
//! validation and row binding.
//!
//! A descriptor is a binder tree. `Scalar` binds exactly one physical column;
//! `Record` binds an ordered list of fields; `Optional` and `Repeated` wrap an
//! inner binder with "may be absent" and "zero-or-more child rows" semantics.

use vstd::prelude::*;
use crate::cell::ScalarKind;
use vstd::pervasive::unreached;

verus! {

/// How one field of a record consumes columns.
#[derive(Clone, Copy, PartialEq, Eq, Structural, Debug)]
pub enum FieldKind {
    /// Binds exactly one physical column through a cell decoder.
    Scalar,
    /// Binds a nested binder's full column span as part of this row.
    Flatten,
    /// Binds a nested binder's column span, but may merge consecutive rows
    /// that share the identifying sibling fields into one record.
    Join,
}

/// One field of a record descriptor.
#[derive(Debug)]
pub struct FieldSpec {
    /// The physical column name; present exactly for scalar fields.
    pub name: Option<String>,
    pub kind: FieldKind,
    /// What the field binds: a scalar leaf (possibly optional) for scalar
    /// fields, a nested binder for flattened and joined fields.
    pub target: Descriptor,
}

/// A binder: the schema of a record type or of one of its subtrees.
#[derive(Debug)]
pub enum Descriptor {
    Scalar(ScalarKind),
    Record(Vec<FieldSpec>),
    Optional(Box<Descriptor>),
    Repeated(Box<Descriptor>),
}

/// How many physical columns a binder consumes.
pub open spec fn spec_column_count(d: Descriptor) -> nat
    decreases d, 0int,
{
    match d {
        Descriptor::Scalar(_) => 1,
        Descriptor::Record(fields) => spec_fields_column_count(fields@, 0),
        Descriptor::Optional(inner) => spec_column_count(*inner),
        Descriptor::Repeated(inner) => spec_column_count(*inner),
    }
}

/// The columns consumed by the fields from position `i` on.
pub open spec fn spec_fields_column_count(fields: Seq<FieldSpec>, i: int) -> nat
    decreases fields, fields.len() - i,
{
    if i < 0 || i >= fields.len() {
        0
    } else {
        spec_column_count(fields[i].target) + spec_fields_column_count(fields, i + 1)
    }
}

/// A binder that stands for a single (possibly optional) column.
pub open spec fn spec_scalar_like(d: Descriptor) -> bool
    decreases d,
{
    match d {
        Descriptor::Scalar(_) => true,
        Descriptor::Optional(inner) => spec_scalar_like(*inner),
        _ => false,
    }
}

/// Structural well-formedness of a binder: scalar fields are named and
/// scalar-like, flattened and joined fields are unnamed, and a join field
/// stands only in the last position of its record.
pub open spec fn spec_wf(d: Descriptor) -> bool
    decreases d, 0int,
{
    match d {
        Descriptor::Scalar(_) => true,
        Descriptor::Record(fields) => spec_wf_fields(fields@, 0),
        Descriptor::Optional(inner) => spec_wf(*inner),
        Descriptor::Repeated(inner) => spec_wf(*inner),
    }
}

pub open spec fn spec_wf_field(f: FieldSpec) -> bool
    decreases f, 1int,
{
    match f.kind {
        FieldKind::Scalar => f.name is Some && spec_scalar_like(f.target) && spec_wf(f.target),
        _ => f.name is None && spec_wf(f.target),
    }
}

pub open spec fn spec_wf_fields(fields: Seq<FieldSpec>, i: int) -> bool
    decreases fields, fields.len() - i,
{
    if i < 0 || i >= fields.len() {
        true
    } else {
        spec_wf_field(fields[i]) && (fields[i].kind is Join ==> i == fields.len() - 1)
            && spec_wf_fields(fields, i + 1)
    }
}

impl Descriptor {
    /// The number of columns this binder consumes, or `None` when that
    /// number does not fit the machine's word.
    pub fn column_count_checked(&self) -> (r: Option<usize>)
        ensures
            match r {
                Some(n) => n == spec_column_count(*self),
                None => spec_column_count(*self) > usize::MAX,
            },
        decreases *self, 0int,
    {
        match self {
            Descriptor::Scalar(_) => Some(1),
            Descriptor::Record(fields) => fields_column_count_checked(fields, 0),
            Descriptor::Optional(inner) => {
                proof {
                    assert(decreases_to!(*self, 0int => **inner, 0int));
                }
                inner.column_count_checked()
            },
            Descriptor::Repeated(inner) => {
                proof {
                    assert(decreases_to!(*self, 0int => **inner, 0int));
                }
                inner.column_count_checked()
            },
        }
    }

    /// The number of columns this binder consumes.
    pub fn column_count(&self) -> (r: usize)
        requires
            spec_column_count(*self) <= usize::MAX,
        ensures
            r == spec_column_count(*self),
    {
        match self.column_count_checked() {
            Some(n) => n,
            None => unreached(),
        }
    }
}

impl Descriptor {
    /// Whether this binder stands for a single (possibly optional) column.
    pub fn is_scalar_like(&self) -> (r: bool)
        ensures
            r == spec_scalar_like(*self),
        decreases *self,
    {
        match self {
            Descriptor::Scalar(_) => true,
            Descriptor::Optional(inner) => inner.is_scalar_like(),
            _ => false,
        }
    }

    /// Whether this binder is structurally well formed.
    pub fn is_wf(&self) -> (r: bool)
        ensures
            r == spec_wf(*self),
        decreases *self, 0int,
    {
        match self {
            Descriptor::Scalar(_) => true,
            Descriptor::Optional(inner) => {
                proof {
                    assert(decreases_to!(*self, 0int => **inner, 0int));
                }
                inner.is_wf()
            },
            Descriptor::Repeated(inner) => {
                proof {
                    assert(decreases_to!(*self, 0int => **inner, 0int));
                }
                inner.is_wf()
            },
            Descriptor::Record(fields) => {
                proof {
                    assert(decreases_to!(*self, 0int => *fields, fields@.len() as int));
                }
                fields_wf(fields, 0)
            },
        }
    }
}

/// The descriptor of a tuple-like target: one positional column per scalar
/// kind, bound in order, with no column names.
pub fn tuple_descriptor(kinds: &Vec<ScalarKind>) -> (r: Descriptor)
    ensures
        r matches Descriptor::Record(fields) && fields@.len() == kinds@.len() && (forall|i: int|
            0 <= i < kinds@.len() ==> {
                let f = #[trigger] fields@[i];
                f.name is None && f.kind is Flatten && f.target == Descriptor::Scalar(kinds@[i])
            }),
        spec_wf(r),
        spec_column_count(r) == kinds@.len(),
{
    let mut fields: Vec<FieldSpec> = Vec::new();
    let mut i: usize = 0;
    while i < kinds.len()
        invariant
            i <= kinds@.len(),
            fields@.len() == i,
            forall|j: int|
                0 <= j < i ==> {
                    let f = #[trigger] fields@[j];
                    f.name is None && f.kind is Flatten && f.target == Descriptor::Scalar(
                        kinds@[j],
                    )
                },
        decreases kinds@.len() - i,
    {
        fields.push(
            FieldSpec { name: None, kind: FieldKind::Flatten, target: Descriptor::Scalar(kinds[i]) },
        );
        i = i + 1;
    }
    proof {
        lemma_flat_scalar_fields(fields@, 0);
    }
    Descriptor::Record(fields)
}

proof fn lemma_flat_scalar_fields(fields: Seq<FieldSpec>, i: int)
    requires
        0 <= i <= fields.len(),
        forall|j: int|
            0 <= j < fields.len() ==> (#[trigger] fields[j]).name is None && fields[j].kind
                is Flatten && fields[j].target is Scalar,
    ensures
        spec_wf_fields(fields, i),
        spec_fields_column_count(fields, i) == fields.len() - i,
    decreases fields.len() - i,
{
    if i < fields.len() {
        assert(spec_wf(fields[i].target));
        assert(spec_column_count(fields[i].target) == 1);
        assert(spec_wf_field(fields[i]) == (fields[i].name is None && spec_wf(fields[i].target)));
        lemma_flat_scalar_fields(fields, i + 1);
    }
}

fn fields_wf(fields: &Vec<FieldSpec>, i: usize) -> (r: bool)
    requires
        i <= fields@.len(),
    ensures
        r == spec_wf_fields(fields@, i as int),
    decreases *fields, fields@.len() - i,
{
    if i == fields.len() {
        return true;
    }
    proof {
        assert(decreases_to!(*fields => fields@[i as int]));
    }
    let f = &fields[i];
    let field_ok = match f.kind {
        FieldKind::Scalar => match &f.name {
            Some(_) => f.target.is_scalar_like() && f.target.is_wf(),
            None => false,
        },
        FieldKind::Flatten => match &f.name {
            Some(_) => false,
            None => f.target.is_wf(),
        },
        FieldKind::Join => match &f.name {
            Some(_) => false,
            None => f.target.is_wf() && i == fields.len() - 1,
        },
    };
    proof {
        assert(spec_wf_field(fields@[i as int]) == match fields@[i as int].kind {
            FieldKind::Scalar => fields@[i as int].name is Some && spec_scalar_like(
                fields@[i as int].target,
            ) && spec_wf(fields@[i as int].target),
            _ => fields@[i as int].name is None && spec_wf(fields@[i as int].target),
        });
        assert(field_ok == (spec_wf_field(fields@[i as int]) && (fields@[i as int].kind is Join
            ==> i as int == fields@.len() - 1)));
    }
    if !field_ok {
        return false;
    }
    fields_wf(fields, i + 1)
}

fn fields_column_count_checked(fields: &Vec<FieldSpec>, i: usize) -> (r: Option<usize>)
    requires
        i <= fields@.len(),
    ensures
        match r {
            Some(n) => n == spec_fields_column_count(fields@, i as int),
            None => spec_fields_column_count(fields@, i as int) > usize::MAX,
        },
    decreases *fields, fields@.len() - i,
{
    if i == fields.len() {
        Some(0)
    } else {
        proof {
            assert(decreases_to!(*fields => fields@[i as int]));
        }
        let head = match fields[i].target.column_count_checked() {
            Some(n) => n,
            None => {
                return None;
            },
        };
        let tail = match fields_column_count_checked(fields, i + 1) {
            Some(n) => n,
            None => {
                return None;
            },
        };
        head.checked_add(tail)
    }
}

} // verus!
