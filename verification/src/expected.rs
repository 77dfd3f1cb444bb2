//! Expected columns: the flat shape a descriptor expects of a physical
//! column list, used by validation diagnostics.

use vstd::prelude::*;
use crate::cell::{ScalarKind, WireType};
use crate::descriptor::{Descriptor, FieldKind, FieldSpec};

verus! {

/// One entry of a descriptor's expected column list: an optional column name
/// (absent for positional targets), the scalar kind the column decodes to,
/// and whether a null cell is acceptable at this position.
#[derive(Debug)]
pub struct ExpectedColumn {
    column_name: Option<String>,
    kind: ScalarKind,
    nullable: bool,
}

/// Mathematical model of an expected column.
pub struct ExpectedColumnModel {
    pub name: Option<Seq<char>>,
    pub kind: ScalarKind,
    pub nullable: bool,
}

pub open spec fn opt_name_view(n: Option<String>) -> Option<Seq<char>> {
    match n {
        Some(s) => Some(s@),
        None => None,
    }
}

impl View for ExpectedColumn {
    type V = ExpectedColumnModel;

    closed spec fn view(&self) -> ExpectedColumnModel {
        ExpectedColumnModel {
            name: opt_name_view(self.column_name),
            kind: self.kind,
            nullable: self.nullable,
        }
    }
}

pub open spec fn ecs_view(s: Seq<ExpectedColumn>) -> Seq<ExpectedColumnModel> {
    s.map_values(|e: ExpectedColumn| e@)
}

/// The human-readable label of a scalar kind, for diagnostics.
pub open spec fn spec_kind_label(k: ScalarKind) -> Seq<char> {
    match k {
        ScalarKind::Int => "i64"@,
        ScalarKind::Bool => "bool"@,
        ScalarKind::Text => "text"@,
    }
}

/// The human-readable label of a wire type, for diagnostics.
pub open spec fn spec_wire_label(t: WireType) -> Seq<char> {
    match t {
        WireType::Int4 => "int4"@,
        WireType::Int8 => "int8"@,
        WireType::Bool => "bool"@,
        WireType::Text => "text"@,
        WireType::Varchar => "varchar"@,
    }
}

pub fn kind_label(k: &ScalarKind) -> (r: &'static str)
    ensures
        r@ == spec_kind_label(*k),
{
    match k {
        ScalarKind::Int => "i64",
        ScalarKind::Bool => "bool",
        ScalarKind::Text => "text",
    }
}

pub fn wire_label(t: &WireType) -> (r: &'static str)
    ensures
        r@ == spec_wire_label(*t),
{
    match t {
        WireType::Int4 => "int4",
        WireType::Int8 => "int8",
        WireType::Bool => "bool",
        WireType::Text => "text",
        WireType::Varchar => "varchar",
    }
}

impl ExpectedColumn {
    /// A fresh expectation for one column of the given kind; a bare kind
    /// accepts no null cell, so the expectation starts non-nullable.
    pub fn new(kind: ScalarKind, column_name: Option<String>) -> (r: ExpectedColumn)
        ensures
            r@ == (ExpectedColumnModel {
                name: opt_name_view(column_name),
                kind,
                nullable: kind.spec_accepts_null(),
            }),
    {
        ExpectedColumn { column_name, kind, nullable: false }
    }

    pub fn column_name(&self) -> (r: &Option<String>)
        ensures
            opt_name_view(*r) == self@.name,
    {
        &self.column_name
    }

    /// The diagnostic label of the kind this column decodes to.
    pub fn type_label(&self) -> (r: &'static str)
        ensures
            r@ == spec_kind_label(self@.kind),
    {
        kind_label(&self.kind)
    }

    /// Whether this expectation accepts a column of the given wire type.
    pub fn accepts(&self, ty: &WireType) -> (r: bool)
        ensures
            r == self@.kind.spec_accepts(*ty),
    {
        self.kind.accepts(ty)
    }

    /// Whether this expectation tolerates a null cell of the given wire type.
    pub fn nullable(&self, ty: &WireType) -> (r: bool)
        ensures
            r == self@.nullable,
    {
        let _ = ty;
        self.nullable
    }

    /// Mark this expectation as tolerating null cells.
    pub fn set_nullable(&mut self)
        ensures
            final(self)@ == (ExpectedColumnModel { nullable: true, ..old(self)@ }),
    {
        self.nullable = true;
    }
}

/// An expected column list with every entry marked nullable: what an optional
/// or repeated subtree reports, since all its columns may be null.
pub open spec fn spec_all_nullable(s: Seq<ExpectedColumnModel>) -> Seq<ExpectedColumnModel> {
    s.map_values(
        |e: ExpectedColumnModel| ExpectedColumnModel { name: e.name, kind: e.kind, nullable: true },
    )
}

/// An expected column list with every entry renamed to the field's column
/// name: what a named scalar field reports of its scalar-like target.
pub open spec fn spec_named(s: Seq<ExpectedColumnModel>, name: Option<Seq<char>>) -> Seq<
    ExpectedColumnModel,
> {
    s.map_values(
        |e: ExpectedColumnModel| ExpectedColumnModel { name, kind: e.kind, nullable: e.nullable },
    )
}

/// The flat expected column list of a binder, in column order.
pub open spec fn spec_expected(d: Descriptor) -> Seq<ExpectedColumnModel>
    decreases d, 0int,
{
    match d {
        Descriptor::Scalar(k) => seq![
            ExpectedColumnModel { name: None, kind: k, nullable: false },
        ],
        Descriptor::Optional(inner) => spec_all_nullable(spec_expected(*inner)),
        Descriptor::Repeated(inner) => spec_all_nullable(spec_expected(*inner)),
        Descriptor::Record(fields) => spec_expected_fields(fields@, 0),
    }
}

/// The expected columns contributed by a record's fields from position `i`
/// on.
pub open spec fn spec_expected_fields(fields: Seq<FieldSpec>, i: int) -> Seq<ExpectedColumnModel>
    decreases fields, fields.len() - i,
{
    if i < 0 || i >= fields.len() {
        Seq::empty()
    } else {
        let f = fields[i];
        let head = if f.kind is Scalar {
            spec_named(spec_expected(f.target), opt_name_view(f.name))
        } else {
            spec_expected(f.target)
        };
        head + spec_expected_fields(fields, i + 1)
    }
}

fn clone_opt_name(n: &Option<String>) -> (r: Option<String>)
    ensures
        opt_name_view(r) == opt_name_view(*n),
{
    match n {
        Some(s) => Some(s.clone()),
        None => None,
    }
}

/// Rebuild an expected list with every entry marked nullable.
fn all_nullable(v: Vec<ExpectedColumn>) -> (r: Vec<ExpectedColumn>)
    ensures
        ecs_view(r@) == spec_all_nullable(ecs_view(v@)),
{
    let mut out: Vec<ExpectedColumn> = Vec::new();
    let mut i: usize = 0;
    while i < v.len()
        invariant
            i <= v@.len(),
            out@.len() == i,
            forall|j: int| 0 <= j < i ==> ecs_view(out@)[j] == spec_all_nullable(ecs_view(v@))[j],
        decreases v@.len() - i,
    {
        let e = &v[i];
        let ne = ExpectedColumn {
            column_name: clone_opt_name(&e.column_name),
            kind: e.kind,
            nullable: true,
        };
        let ghost nev = ne@;
        let ghost prev = out@;
        out.push(ne);
        proof {
            assert forall|j: int| 0 <= j < i + 1 implies ecs_view(out@)[j] == spec_all_nullable(
                ecs_view(v@),
            )[j] by {
                assert(ecs_view(out@)[j] == out@[j]@);
                if j < i {
                    assert(out@[j] == prev[j]);
                    assert(ecs_view(prev)[j] == prev[j]@);
                } else {
                    assert(out@[j] == ne);
                    assert(nev == spec_all_nullable(ecs_view(v@))[j]);
                }
            }
        }
        i = i + 1;
    }
    proof {
        assert(ecs_view(out@) =~= spec_all_nullable(ecs_view(v@)));
    }
    out
}

/// Rebuild an expected list with every entry renamed.
fn named(v: Vec<ExpectedColumn>, name: &Option<String>) -> (r: Vec<ExpectedColumn>)
    ensures
        ecs_view(r@) == spec_named(ecs_view(v@), opt_name_view(*name)),
{
    let mut out: Vec<ExpectedColumn> = Vec::new();
    let mut i: usize = 0;
    while i < v.len()
        invariant
            i <= v@.len(),
            out@.len() == i,
            forall|j: int|
                0 <= j < i ==> ecs_view(out@)[j] == spec_named(
                    ecs_view(v@),
                    opt_name_view(*name),
                )[j],
        decreases v@.len() - i,
    {
        let e = &v[i];
        let ne = ExpectedColumn {
            column_name: clone_opt_name(name),
            kind: e.kind,
            nullable: e.nullable,
        };
        let ghost nev = ne@;
        let ghost prev = out@;
        out.push(ne);
        proof {
            assert forall|j: int| 0 <= j < i + 1 implies ecs_view(out@)[j] == spec_named(
                ecs_view(v@),
                opt_name_view(*name),
            )[j] by {
                assert(ecs_view(out@)[j] == out@[j]@);
                if j < i {
                    assert(out@[j] == prev[j]);
                    assert(ecs_view(prev)[j] == prev[j]@);
                } else {
                    assert(out@[j] == ne);
                    assert(nev == spec_named(ecs_view(v@), opt_name_view(*name))[j]);
                }
            }
        }
        i = i + 1;
    }
    proof {
        assert(ecs_view(out@) =~= spec_named(ecs_view(v@), opt_name_view(*name)));
    }
    out
}

impl Descriptor {
    /// The flat list of columns this binder expects, in column order.
    pub fn report_expected_columns(&self) -> (r: Vec<ExpectedColumn>)
        ensures
            ecs_view(r@) == spec_expected(*self),
        decreases *self, 0int,
    {
        match self {
            Descriptor::Scalar(k) => {
                let mut out: Vec<ExpectedColumn> = Vec::new();
                out.push(ExpectedColumn::new(*k, None));
                proof {
                    assert(ecs_view(out@) =~= spec_expected(*self));
                }
                out
            },
            Descriptor::Optional(inner) => {
                proof {
                    assert(decreases_to!(*self, 0int => **inner, 0int));
                }
                all_nullable(inner.report_expected_columns())
            },
            Descriptor::Repeated(inner) => {
                proof {
                    assert(decreases_to!(*self, 0int => **inner, 0int));
                }
                all_nullable(inner.report_expected_columns())
            },
            Descriptor::Record(fields) => {
                proof {
                    assert(decreases_to!(*self, 0int => *fields, fields@.len() as int));
                }
                expected_fields(fields, 0)
            },
        }
    }
}

fn expected_fields(fields: &Vec<FieldSpec>, i: usize) -> (r: Vec<ExpectedColumn>)
    requires
        i <= fields@.len(),
    ensures
        ecs_view(r@) == spec_expected_fields(fields@, i as int),
    decreases *fields, fields@.len() - i,
{
    if i == fields.len() {
        let out: Vec<ExpectedColumn> = Vec::new();
        proof {
            assert(ecs_view(out@) =~= Seq::<ExpectedColumnModel>::empty());
        }
        out
    } else {
        proof {
            assert(decreases_to!(*fields => fields@[i as int]));
        }
        let f = &fields[i];
        let sub = f.target.report_expected_columns();
        let mut head = match f.kind {
            FieldKind::Scalar => named(sub, &f.name),
            _ => sub,
        };
        let mut tail = expected_fields(fields, i + 1);
        let ghost head_view = ecs_view(head@);
        let ghost tail_view = ecs_view(tail@);
        head.append(&mut tail);
        proof {
            assert(ecs_view(head@) =~= head_view + tail_view);
        }
        head
    }
}

} // verus!
