//! Building record descriptors from per-field configuration, with the
//! construction-time validation of the field attribute combinations.

use vstd::prelude::*;
use crate::descriptor::{Descriptor, FieldKind, FieldSpec, spec_scalar_like, spec_wf};
use crate::expected::opt_name_view;

verus! {

/// The configuration of one field of a record type, as a schema author
/// writes it: the field's own name, what it binds, and the optional flags
/// and value-transform hooks that the construction-time checks constrain.
#[derive(Debug)]
pub struct FieldConfig {
    /// The field's identifier, used as the column name unless renamed.
    pub ident: String,
    /// What the field binds: a scalar leaf (possibly optional) for plain
    /// fields, a nested binder when flattened or joined.
    pub target: Descriptor,
    pub flatten: bool,
    pub join: bool,
    /// Overrides the column name; not combinable with flatten or join.
    pub rename: Option<String>,
    /// The four value-transform hooks, naming a conversion type or function;
    /// mutually exclusive with each other and with flatten and join.
    pub from: Option<String>,
    pub try_from: Option<String>,
    pub from_fn: Option<String>,
    pub try_from_fn: Option<String>,
}

/// Why a record descriptor could not be built.
#[derive(Clone, Copy, PartialEq, Eq, Structural, Debug)]
pub enum ConfigError {
    /// More than one of the value-transform hooks is set.
    TransformConflict { field: usize },
    /// A flattened field carries a value-transform hook.
    FlattenWithTransform { field: usize },
    /// A joined field carries a value-transform hook.
    JoinWithTransform { field: usize },
    /// A flattened field carries a renamed column.
    RenameWithFlatten { field: usize },
    /// A joined field carries a renamed column.
    RenameWithJoin { field: usize },
    /// A field is both flattened and joined.
    FlattenWithJoin { field: usize },
    /// The field's target does not fit its kind: a plain field needs a
    /// scalar-like target, a flattened or joined field a well-formed one.
    TargetInvalid { field: usize },
    /// A join field stands somewhere other than the last position.
    JoinNotLast { field: usize },
}

/// How many of the value-transform hooks a field sets.
pub open spec fn spec_transform_count(c: FieldConfig) -> int {
    (if c.from is Some {
        1int
    } else {
        0int
    }) + (if c.try_from is Some {
        1int
    } else {
        0int
    }) + (if c.from_fn is Some {
        1int
    } else {
        0int
    }) + (if c.try_from_fn is Some {
        1int
    } else {
        0int
    })
}

/// The first construction-time fault of one field, in check order.
pub open spec fn spec_field_error(c: FieldConfig, i: int) -> Option<ConfigError> {
    if spec_transform_count(c) > 1 {
        Some(ConfigError::TransformConflict { field: i as usize })
    } else if c.flatten && spec_transform_count(c) > 0 {
        Some(ConfigError::FlattenWithTransform { field: i as usize })
    } else if c.join && spec_transform_count(c) > 0 {
        Some(ConfigError::JoinWithTransform { field: i as usize })
    } else if c.rename is Some && c.flatten {
        Some(ConfigError::RenameWithFlatten { field: i as usize })
    } else if c.rename is Some && c.join {
        Some(ConfigError::RenameWithJoin { field: i as usize })
    } else if c.flatten && c.join {
        Some(ConfigError::FlattenWithJoin { field: i as usize })
    } else if c.flatten || c.join {
        if spec_wf(c.target) {
            None
        } else {
            Some(ConfigError::TargetInvalid { field: i as usize })
        }
    } else {
        if spec_scalar_like(c.target) && spec_wf(c.target) {
            None
        } else {
            Some(ConfigError::TargetInvalid { field: i as usize })
        }
    }
}

/// The first per-field fault of a configuration list.
pub open spec fn spec_fields_error(cs: Seq<FieldConfig>, i: int) -> Option<ConfigError>
    decreases cs.len() - i,
{
    if i < 0 || i >= cs.len() {
        None
    } else {
        match spec_field_error(cs[i], i) {
            Some(e) => Some(e),
            None => spec_fields_error(cs, i + 1),
        }
    }
}

/// The first join field before the last position, if any.
pub open spec fn spec_join_not_last(cs: Seq<FieldConfig>, i: int) -> Option<ConfigError>
    decreases cs.len() - i,
{
    if i < 0 || i >= cs.len() - 1 {
        None
    } else if cs[i].join {
        Some(ConfigError::JoinNotLast { field: i as usize })
    } else {
        spec_join_not_last(cs, i + 1)
    }
}

/// The first construction-time fault of a configuration list: the per-field
/// checks in order, then the join-position check.
pub open spec fn spec_config_error(cs: Seq<FieldConfig>) -> Option<ConfigError> {
    match spec_fields_error(cs, 0) {
        Some(e) => Some(e),
        None => spec_join_not_last(cs, 0),
    }
}

/// The column name a field binds under: its rename where present, its own
/// identifier otherwise.
pub open spec fn spec_column_name(c: FieldConfig) -> Seq<char> {
    match c.rename {
        Some(r) => r@,
        None => c.ident@,
    }
}

/// How the built field must relate to its configuration.
pub open spec fn spec_built_field(f: FieldSpec, c: FieldConfig) -> bool {
    f.target == c.target && if c.flatten {
        f.kind is Flatten && f.name is None
    } else if c.join {
        f.kind is Join && f.name is None
    } else {
        f.kind is Scalar && opt_name_view(f.name) == Some(spec_column_name(c))
    }
}

fn transform_count(c: &FieldConfig) -> (r: usize)
    ensures
        r == spec_transform_count(*c),
{
    let mut n: usize = 0;
    if c.from.is_some() {
        n = n + 1;
    }
    if c.try_from.is_some() {
        n = n + 1;
    }
    if c.from_fn.is_some() {
        n = n + 1;
    }
    if c.try_from_fn.is_some() {
        n = n + 1;
    }
    n
}

fn check_field(c: &FieldConfig, i: usize) -> (r: Option<ConfigError>)
    ensures
        r == spec_field_error(*c, i as int),
{
    let transforms = transform_count(c);
    if transforms > 1 {
        Some(ConfigError::TransformConflict { field: i })
    } else if c.flatten && transforms > 0 {
        Some(ConfigError::FlattenWithTransform { field: i })
    } else if c.join && transforms > 0 {
        Some(ConfigError::JoinWithTransform { field: i })
    } else if c.rename.is_some() && c.flatten {
        Some(ConfigError::RenameWithFlatten { field: i })
    } else if c.rename.is_some() && c.join {
        Some(ConfigError::RenameWithJoin { field: i })
    } else if c.flatten && c.join {
        Some(ConfigError::FlattenWithJoin { field: i })
    } else if c.flatten || c.join {
        if c.target.is_wf() {
            None
        } else {
            Some(ConfigError::TargetInvalid { field: i })
        }
    } else {
        if c.target.is_scalar_like() && c.target.is_wf() {
            None
        } else {
            Some(ConfigError::TargetInvalid { field: i })
        }
    }
}

/// Build the record descriptor of a field configuration list, validating it:
/// each field's attribute combination must be lawful, and a join field may
/// stand only in the last position.
pub fn record_descriptor(configs: Vec<FieldConfig>) -> (r: Result<Descriptor, ConfigError>)
    ensures
        match spec_config_error(configs@) {
            Some(e) => r matches Err(e2) && e2 == e,
            None => r matches Ok(d) && spec_wf(d) && (d matches Descriptor::Record(fs)
                && fs@.len() == configs@.len() && (forall|i: int|
                0 <= i < configs@.len() ==> spec_built_field(fs@[i], configs@[i]))),
        },
{
    let n = configs.len();
    let mut i: usize = 0;
    while i < n
        invariant
            n == configs@.len(),
            i <= n,
            spec_fields_error(configs@, 0) == spec_fields_error(configs@, i as int),
        decreases n - i,
    {
        match check_field(&configs[i], i) {
            Some(e) => {
                return Err(e);
            },
            None => {},
        }
        i = i + 1;
    }
    if n > 0 {
        let mut j: usize = 0;
        while j < n - 1
            invariant
                n == configs@.len(),
                n > 0,
                j <= n - 1,
                spec_fields_error(configs@, 0) is None,
                spec_join_not_last(configs@, 0) == spec_join_not_last(configs@, j as int),
            decreases n - j,
        {
            if configs[j].join {
                return Err(ConfigError::JoinNotLast { field: j });
            }
            j = j + 1;
        }
    }
    let ghost cview = configs@;
    let mut fields: Vec<FieldSpec> = Vec::new();
    let mut rest = configs;
    let mut k: usize = 0;
    proof {
        assert(rest@ =~= cview.skip(0));
    }
    while rest.len() > 0
        invariant
            cview.len() == n,
            k + rest@.len() == cview.len(),
            rest@ == cview.skip(k as int),
            fields@.len() == k,
            forall|t: int| 0 <= t < k ==> spec_built_field(fields@[t], cview[t]),
            spec_fields_error(cview, 0) is None,
            spec_join_not_last(cview, 0) is None,
        decreases rest@.len(),
    {
        let c = rest.remove(0);
        proof {
            assert(cview.skip(k as int)[0] == cview[k as int]);
            assert(rest@ =~= cview.skip(k as int + 1));
            lemma_fields_error_none_at(cview, 0, k as int);
            assert(spec_field_error(cview[k as int], k as int) is None);
        }
        let field = if c.flatten {
            FieldSpec { name: None, kind: FieldKind::Flatten, target: c.target }
        } else if c.join {
            FieldSpec { name: None, kind: FieldKind::Join, target: c.target }
        } else {
            let name = match c.rename {
                Some(r) => r,
                None => c.ident,
            };
            FieldSpec { name: Some(name), kind: FieldKind::Scalar, target: c.target }
        };
        fields.push(field);
        k = k + 1;
    }
    proof {
        lemma_built_record_wf(fields@, cview, 0);
    }
    Ok(Descriptor::Record(fields))
}

/// A clean per-field scan stays clean at every later position.
proof fn lemma_fields_error_none_at(cs: Seq<FieldConfig>, i: int, t: int)
    requires
        0 <= i <= t < cs.len(),
        spec_fields_error(cs, i) is None,
    ensures
        spec_field_error(cs[t], t) is None,
    decreases t - i,
{
    if i < t {
        lemma_fields_error_none_at(cs, i + 1, t);
    }
}

/// A clean join-position scan leaves no join field before the last position.
proof fn lemma_join_not_last_none_at(cs: Seq<FieldConfig>, i: int, t: int)
    requires
        0 <= i <= t < cs.len() - 1,
        spec_join_not_last(cs, i) is None,
    ensures
        !cs[t].join,
    decreases t - i,
{
    if i < t {
        lemma_join_not_last_none_at(cs, i + 1, t);
    }
}

/// Fields built from a clean configuration list are well formed.
proof fn lemma_built_record_wf(fs: Seq<FieldSpec>, cs: Seq<FieldConfig>, i: int)
    requires
        fs.len() == cs.len(),
        0 <= i <= fs.len(),
        forall|t: int| 0 <= t < fs.len() ==> spec_built_field(fs[t], cs[t]),
        spec_fields_error(cs, 0) is None,
        spec_join_not_last(cs, 0) is None,
    ensures
        crate::descriptor::spec_wf_fields(fs, i),
    decreases fs.len() - i,
{
    if i < fs.len() {
        lemma_fields_error_none_at(cs, 0, i);
        if fs[i].kind is Join && i < fs.len() - 1 {
            lemma_join_not_last_none_at(cs, 0, i);
        }
        assert(spec_built_field(fs[i], cs[i]));
        assert(crate::descriptor::spec_wf_field(fs[i]) == match fs[i].kind {
            crate::descriptor::FieldKind::Scalar => fs[i].name is Some && spec_scalar_like(
                fs[i].target,
            ) && spec_wf(fs[i].target),
            _ => fs[i].name is None && spec_wf(fs[i].target),
        });
        if cs[i].flatten {
            assert(crate::descriptor::spec_wf_field(fs[i]));
        } else if cs[i].join {
            assert(crate::descriptor::spec_wf_field(fs[i]));
        } else {
            assert(crate::descriptor::spec_wf_field(fs[i]));
        }
        lemma_built_record_wf(fs, cs, i + 1);
    }
}

} // verus!
