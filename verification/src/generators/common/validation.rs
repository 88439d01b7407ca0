//! Which route inputs carry checks that the generated servers must run.

use vstd::prelude::*;

use crate::ir::{Field, Route, Type, Validation};

verus! {

pub open spec fn spec_field_needs_validation(field: Field) -> bool {
    field.validation is Some || field.ty is MapOf || field.ty is Union || field.ty is OneOf
        || field.ty is Nullable
}

pub fn field_needs_validation(field: &Field) -> (r: bool)
    ensures
        r == spec_field_needs_validation(*field),
{
    field.validation.is_some() || match field.ty {
        Type::MapOf(_) | Type::Union(_) | Type::OneOf(_) | Type::Nullable(_) => true,
        _ => false,
    }
}

pub open spec fn spec_has_regex(field: Field) -> bool {
    match field.validation {
        Some(v) => v.regex is Some || v.format is Some,
        None => false,
    }
}

/// Whether a value of this type must be checked against its union members
/// (or a validation is attached): unions and one-ofs anywhere inside,
/// or any validation on an object field.
pub open spec fn spec_type_needs_union_check(ty: Type, has_validation: bool) -> bool
    decreases ty,
{
    if has_validation {
        true
    } else {
        match ty {
            Type::Union(items) => exists|i: int|
                0 <= i < items@.len() && spec_type_needs_union_check(#[trigger] items@[i], false),
            Type::OneOf(items) => exists|i: int|
                0 <= i < items@.len() && spec_type_needs_union_check(#[trigger] items@[i], false),
            Type::Nullable(inner) => spec_type_needs_union_check(*inner, false),
            Type::Array(inner) => spec_type_needs_union_check(*inner, false),
            Type::MapOf(inner) => spec_type_needs_union_check(*inner, false),
            Type::Object(fields) => exists|i: int|
                0 <= i < fields@.len() && spec_type_needs_union_check(
                    #[trigger] fields@[i].ty,
                    fields@[i].validation is Some,
                ),
            _ => false,
        }
    }
}

pub open spec fn spec_field_union_check(field: Field) -> bool {
    spec_type_needs_union_check(field.ty, field.validation is Some)
}

/// The three properties asked of the fields of a route.
pub enum FieldTest {
    NeedsValidation,
    HasRegex,
    NeedsUnionCheck,
}

pub open spec fn spec_field_test(test: FieldTest, f: Field) -> bool {
    match test {
        FieldTest::NeedsValidation => spec_field_needs_validation(f),
        FieldTest::HasRegex => spec_has_regex(f),
        FieldTest::NeedsUnionCheck => spec_field_union_check(f),
    }
}

pub open spec fn spec_any_field(test: FieldTest, fields: Seq<Field>) -> bool {
    exists|i: int| 0 <= i < fields.len() && spec_field_test(test, #[trigger] fields[i])
}

/// The test applied to every input of a route: path, query, body, headers.
pub open spec fn spec_route_any(test: FieldTest, route: Route) -> bool {
    ||| spec_any_field(test, route.input.path@)
    ||| spec_any_field(test, route.input.query@)
    ||| spec_any_field(test, route.input.body@)
    ||| spec_any_field(test, route.headers@)
}

fn field_test(test: &FieldTest, f: &Field) -> (r: bool)
    ensures
        r == spec_field_test(*test, *f),
{
    match test {
        FieldTest::NeedsValidation => field_needs_validation(f),
        FieldTest::HasRegex => match &f.validation {
            Some(v) => v.regex.is_some() || v.format.is_some(),
            None => false,
        },
        FieldTest::NeedsUnionCheck => type_needs_union_check(&f.ty, f.validation.as_ref()),
    }
}

fn any_field(test: &FieldTest, fields: &Vec<Field>) -> (r: bool)
    ensures
        r == spec_any_field(*test, fields@),
{
    let mut i: usize = 0;
    while i < fields.len()
        invariant
            0 <= i <= fields@.len(),
            forall|j: int| 0 <= j < i ==> !spec_field_test(*test, #[trigger] fields@[j]),
        decreases fields@.len() - i,
    {
        if field_test(test, &fields[i]) {
            return true;
        }
        i += 1;
    }
    false
}

fn route_any(test: FieldTest, route: &Route) -> (r: bool)
    ensures
        r == spec_route_any(test, *route),
{
    any_field(&test, &route.input.path) || any_field(&test, &route.input.query) || any_field(
        &test,
        &route.input.body,
    ) || any_field(&test, &route.headers)
}

pub fn route_has_validation(route: &Route) -> (r: bool)
    ensures
        r == spec_route_any(FieldTest::NeedsValidation, *route),
{
    route_any(FieldTest::NeedsValidation, route)
}

pub fn route_has_regex(route: &Route) -> (r: bool)
    ensures
        r == spec_route_any(FieldTest::HasRegex, *route),
{
    route_any(FieldTest::HasRegex, route)
}

pub fn route_has_union_validation(route: &Route) -> (r: bool)
    ensures
        r == spec_route_any(FieldTest::NeedsUnionCheck, *route),
{
    route_any(FieldTest::NeedsUnionCheck, route)
}

#[verifier::loop_isolation(false)]
pub fn type_needs_union_check(ty: &Type, validation: Option<&Validation>) -> (r: bool)
    ensures
        r == spec_type_needs_union_check(*ty, validation is Some),
    decreases ty,
{
    if validation.is_some() {
        return true;
    }
    match ty {
        Type::Union(items) | Type::OneOf(items) => {
            let mut i: usize = 0;
            while i < items.len()
                invariant
                    0 <= i <= items@.len(),
                    forall|j: int|
                        0 <= j < i ==> !spec_type_needs_union_check(#[trigger] items@[j], false),
                decreases items@.len() - i,
            {
                if type_needs_union_check(&items[i], None) {
                    return true;
                }
                i += 1;
            }
            false
        },
        Type::Nullable(inner) => type_needs_union_check(inner, None),
        Type::Array(inner) => type_needs_union_check(inner, None),
        Type::MapOf(inner) => type_needs_union_check(inner, None),
        Type::Object(fields) => {
            let mut i: usize = 0;
            while i < fields.len()
                invariant
                    0 <= i <= fields@.len(),
                    forall|j: int|
                        0 <= j < i ==> !spec_type_needs_union_check(
                            #[trigger] fields@[j].ty,
                            fields@[j].validation is Some,
                        ),
                decreases fields@.len() - i,
            {
                if type_needs_union_check(&fields[i].ty, fields[i].validation.as_ref()) {
                    return true;
                }
                i += 1;
            }
            false
        },
        _ => false,
    }
}

} // verus!
