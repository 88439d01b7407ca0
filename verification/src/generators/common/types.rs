//! Whether a type refers to a named schema type anywhere inside it.

use vstd::prelude::*;

use crate::ir::Type;

verus! {

pub open spec fn spec_uses_named_type(ty: Type) -> bool
    decreases ty,
{
    match ty {
        Type::Named(_) => true,
        Type::Array(inner) => spec_uses_named_type(*inner),
        Type::MapOf(inner) => spec_uses_named_type(*inner),
        Type::Nullable(inner) => spec_uses_named_type(*inner),
        Type::Object(fields) => exists|i: int|
            0 <= i < fields@.len() && spec_uses_named_type(#[trigger] fields@[i].ty),
        Type::Union(items) => exists|i: int|
            0 <= i < items@.len() && spec_uses_named_type(#[trigger] items@[i]),
        Type::OneOf(items) => exists|i: int|
            0 <= i < items@.len() && spec_uses_named_type(#[trigger] items@[i]),
        _ => false,
    }
}

#[verifier::loop_isolation(false)]
pub fn uses_named_type(ty: &Type) -> (r: bool)
    ensures
        r == spec_uses_named_type(*ty),
    decreases ty,
{
    match ty {
        Type::Named(_) => true,
        Type::Array(inner) => uses_named_type(inner),
        Type::MapOf(inner) => uses_named_type(inner),
        Type::Nullable(inner) => uses_named_type(inner),
        Type::Object(fields) => {
            let mut i: usize = 0;
            while i < fields.len()
                invariant
                    0 <= i <= fields@.len(),
                    forall|j: int| 0 <= j < i ==> !spec_uses_named_type(#[trigger] fields@[j].ty),
                decreases fields@.len() - i,
            {
                if uses_named_type(&fields[i].ty) {
                    return true;
                }
                i += 1;
            }
            false
        },
        Type::Union(items) | Type::OneOf(items) => {
            let mut i: usize = 0;
            while i < items.len()
                invariant
                    0 <= i <= items@.len(),
                    forall|j: int| 0 <= j < i ==> !spec_uses_named_type(#[trigger] items@[j]),
                decreases items@.len() - i,
            {
                if uses_named_type(&items[i]) {
                    return true;
                }
                i += 1;
            }
            false
        },
        _ => false,
    }
}

} // verus!
