//! Planning the builder type: how each field is held, which setters exist and
//! what `build` does with each field.

use vstd::prelude::*;
use vstd::string::*;
use crate::attr::{parse, parse_spec, AttrKind};
use crate::classify::{arg_type, classify_is_optional, classify_sequence, inner_type, is_optional, is_sequence};
use crate::error::{DerivationError, ShapeError};
use crate::model::{DeclKind, Field, TypeDescriptor};

verus! {

/// How the builder holds a field.
#[derive(PartialEq, Eq, Structural, Clone, Copy, Debug)]
pub enum Storage {
    /// An optional field: held as it is; unset builds as the unset value.
    Optional,
    /// A repeated field with an accumulator: held as a sequence, empty at the
    /// start; never fails to build.
    Repeated,
    /// Any other field: held wrapped in an option; unset fails the build.
    Required,
}

/// A generated setter: its name and the type (by front-end handle) it takes.
#[derive(Clone, Debug, PartialEq, Eq)]
pub struct Setter {
    pub name: String,
    pub arg_type: usize,
}

#[derive(Clone, Debug, PartialEq, Eq)]
pub struct BuilderField {
    pub name: String,
    pub storage: Storage,
    /// The handle of the field's declared type.
    pub field_type: usize,
    /// The whole-value setter, absent when the accumulator takes its name.
    pub setter: Option<Setter>,
    /// The accumulator setter of a repeated field.
    pub accumulator: Option<Setter>,
}

#[derive(Clone, Debug, PartialEq, Eq)]
pub struct BuilderPlan {
    pub record_name: String,
    pub builder_name: String,
    pub fields: Vec<BuilderField>,
}

/// The error a field raises, if any: a bad annotation first, then a shape that
/// the annotation or the type demands but the field's type lacks.
pub open spec fn field_error(f: Field, i: usize) -> Option<DerivationError> {
    match parse_spec(f.attrs@, AttrKind::Builder, i) {
        Err(e) => Some(DerivationError::Attribute(e)),
        Ok(Some(_)) => if !is_sequence(f.ty) {
            Some(DerivationError::Shape(ShapeError::EachOnNonSequence { field: i }))
        } else if arg_type(f.ty, 0) is None {
            Some(DerivationError::Shape(ShapeError::ExpectedGenericArgument { field: i }))
        } else {
            None
        },
        Ok(None) => if is_optional(f.ty) && arg_type(f.ty, 0) is None {
            Some(DerivationError::Shape(ShapeError::ExpectedGenericArgument { field: i }))
        } else {
            None
        },
    }
}

/// The first error over the fields in declaration order.
pub open spec fn first_error(fields: Seq<Field>) -> Option<DerivationError>
    decreases fields.len(),
{
    if fields.len() == 0 {
        None
    } else {
        match first_error(fields.drop_last()) {
            Some(e) => Some(e),
            None => field_error(fields.last(), (fields.len() - 1) as usize),
        }
    }
}

pub open spec fn setter_is(s: Option<Setter>, name: Seq<char>, arg_type: usize) -> bool {
    match s {
        Some(s) => s.name@ == name && s.arg_type == arg_type,
        None => false,
    }
}

/// The plan of a field without errors, following the wrapping policy.
pub open spec fn field_plan_ok(f: Field, i: usize, p: BuilderField) -> bool {
    &&& p.name@ == f.name@
    &&& p.field_type == f.ty.id
    &&& match parse_spec(f.attrs@, AttrKind::Builder, i) {
        Ok(Some(each)) => {
            &&& p.storage == Storage::Repeated
            &&& setter_is(p.accumulator, each, arg_type(f.ty, 0).unwrap().id)
            &&& if each == f.name@ {
                p.setter is None
            } else {
                setter_is(p.setter, f.name@, f.ty.id)
            }
        },
        _ => {
            &&& p.accumulator is None
            &&& if is_optional(f.ty) {
                &&& p.storage == Storage::Optional
                &&& setter_is(p.setter, f.name@, arg_type(f.ty, 0).unwrap().id)
            } else {
                &&& p.storage == Storage::Required
                &&& setter_is(p.setter, f.name@, f.ty.id)
            }
        },
    }
}

/// The builder plan of a record type whose fields raise no error.
pub open spec fn builder_plan_ok(d: TypeDescriptor, p: BuilderPlan) -> bool {
    &&& p.record_name@ == d.name@
    &&& p.builder_name@ == d.name@ + "Builder"@
    &&& p.fields@.len() == d.fields@.len()
    &&& forall|i: int| 0 <= i < d.fields@.len() ==> field_plan_ok(d.fields@[i], i as usize, #[trigger] p.fields@[i])
}

proof fn lemma_first_error_persists(fields: Seq<Field>, n: int)
    requires
        0 <= n <= fields.len(),
        first_error(fields.subrange(0, n)) is Some,
    ensures
        first_error(fields) == first_error(fields.subrange(0, n)),
    decreases fields.len(),
{
    if n == fields.len() {
        assert(fields.subrange(0, n) == fields);
    } else {
        assert(fields.drop_last().subrange(0, n) == fields.subrange(0, n));
        lemma_first_error_persists(fields.drop_last(), n);
    }
}

fn plan_field(f: &Field, i: usize) -> (r: Result<BuilderField, DerivationError>)
    ensures
        match field_error(*f, i) {
            Some(e) => r == Err::<BuilderField, DerivationError>(e),
            None => r matches Ok(p) && field_plan_ok(*f, i, p),
        },
{
    let each = match parse(&f.attrs, AttrKind::Builder, i) {
        Err(e) => {
            return Err(DerivationError::Attribute(e));
        },
        Ok(each) => each,
    };
    match each {
        Some(each) => {
            if !classify_sequence(&f.ty) {
                return Err(DerivationError::Shape(ShapeError::EachOnNonSequence { field: i }));
            }
            let elem = match inner_type(&f.ty, 0) {
                Some(t) => t.id,
                None => {
                    return Err(
                        DerivationError::Shape(ShapeError::ExpectedGenericArgument { field: i }),
                    );
                },
            };
            let setter = if each == f.name {
                None
            } else {
                Some(Setter { name: f.name.clone(), arg_type: f.ty.id })
            };
            Ok(
                BuilderField {
                    name: f.name.clone(),
                    storage: Storage::Repeated,
                    field_type: f.ty.id,
                    setter,
                    accumulator: Some(Setter { name: each, arg_type: elem }),
                },
            )
        },
        None => {
            if classify_is_optional(&f.ty) {
                let inner = match inner_type(&f.ty, 0) {
                    Some(t) => t.id,
                    None => {
                        return Err(
                            DerivationError::Shape(
                                ShapeError::ExpectedGenericArgument { field: i },
                            ),
                        );
                    },
                };
                Ok(
                    BuilderField {
                        name: f.name.clone(),
                        storage: Storage::Optional,
                        field_type: f.ty.id,
                        setter: Some(Setter { name: f.name.clone(), arg_type: inner }),
                        accumulator: None,
                    },
                )
            } else {
                Ok(
                    BuilderField {
                        name: f.name.clone(),
                        storage: Storage::Required,
                        field_type: f.ty.id,
                        setter: Some(Setter { name: f.name.clone(), arg_type: f.ty.id }),
                        accumulator: None,
                    },
                )
            }
        },
    }
}

/// Plans the builder of a record type. Every field is checked, in declaration
/// order, before a plan is returned; the first error found is the result.
pub fn derive(d: &TypeDescriptor) -> (r: Result<BuilderPlan, DerivationError>)
    ensures
        d.kind != DeclKind::Record ==> r == Err::<BuilderPlan, DerivationError>(
            DerivationError::Shape(ShapeError::UnsupportedInputKind),
        ),
        d.kind == DeclKind::Record ==> match first_error(d.fields@) {
            Some(e) => r == Err::<BuilderPlan, DerivationError>(e),
            None => r matches Ok(p) && builder_plan_ok(*d, p),
        },
{
    if let DeclKind::Other = d.kind {
        return Err(DerivationError::Shape(ShapeError::UnsupportedInputKind));
    }
    let mut fields: Vec<BuilderField> = Vec::new();
    let mut i: usize = 0;
    while i < d.fields.len()
        invariant
            i <= d.fields@.len(),
            d.kind == DeclKind::Record,
            first_error(d.fields@.subrange(0, i as int)) is None,
            fields@.len() == i,
            forall|j: int| 0 <= j < i ==> field_plan_ok(d.fields@[j], j as usize, #[trigger] fields@[j]),
        decreases d.fields@.len() - i,
    {
        assert(d.fields@.subrange(0, i + 1).drop_last() == d.fields@.subrange(0, i as int));
        match plan_field(&d.fields[i], i) {
            Err(e) => {
                proof {
                    lemma_first_error_persists(d.fields@, i + 1);
                }
                return Err(e);
            },
            Ok(p) => {
                fields.push(p);
            },
        }
        i = i + 1;
    }
    assert(d.fields@.subrange(0, d.fields@.len() as int) == d.fields@);
    let builder_name = d.name.clone().concat("Builder");
    Ok(BuilderPlan { record_name: d.name.clone(), builder_name, fields })
}

} // verus!
