//! What an input reference of a route names: the type of the value it
//! reads, whether it may be missing, and its validation.

use vstd::prelude::*;

use crate::deep::{field_list_eq, type_eq, type_name_eq};
use crate::ir::{Field, InputSource, InputRef, Route, Type, TypeDef, TypeName, Validation};
use crate::text::str_eq;

verus! {

/// A resolved argument type: a type found in the IR, or the object made
/// of a route's whole input (its fields).
pub enum RTy {
    Of(Type),
    ObjectOf(Seq<Field>),
}

/// Resolved types with the same contents.
pub open spec fn rty_eq(a: RTy, b: RTy) -> bool {
    match (a, b) {
        (RTy::Of(x), RTy::Of(y)) => type_eq(x, y),
        (RTy::ObjectOf(xs), RTy::ObjectOf(ys)) => field_list_eq(xs, ys),
        (RTy::Of(x), RTy::ObjectOf(ys)) => match x {
            Type::Object(v) => field_list_eq(v@, ys),
            _ => false,
        },
        (RTy::ObjectOf(xs), RTy::Of(y)) => match y {
            Type::Object(v) => field_list_eq(xs, v@),
            _ => false,
        },
    }
}

/// A type that is the resolved type.
pub open spec fn rty_match(t: Type, r: RTy) -> bool {
    match r {
        RTy::Of(x) => type_eq(t, x),
        RTy::ObjectOf(fs) => match t {
            Type::Object(v) => field_list_eq(v@, fs),
            _ => false,
        },
    }
}

/// The resolved type, whether the value may be missing, and its validation.
pub type Resolution = (RTy, bool, Option<Validation>);

/// The fields a route reads from an input source (none for `input`).
pub open spec fn source_fields(route: Route, src: InputSource) -> Seq<Field> {
    match src {
        InputSource::Path => route.input.path@,
        InputSource::Query => route.input.query@,
        InputSource::Body => route.input.body@,
        InputSource::Headers => route.headers@,
        InputSource::Input => Seq::empty(),
    }
}

/// The first field called `name` at or after `j`, or -1.
pub open spec fn first_field(fs: Seq<Field>, name: Seq<char>, j: int) -> int
    decreases fs.len() - j,
{
    if j < 0 || j >= fs.len() {
        -1
    } else if fs[j].name@ == name {
        j
    } else {
        first_field(fs, name, j + 1)
    }
}

/// The field `name` of a list: its type, optionality and validation, or
/// `any` when there is no such field.
pub open spec fn field_lookup(fs: Seq<Field>, name: Seq<char>) -> Resolution {
    let j = first_field(fs, name, 0);
    if j < 0 {
        (RTy::Of(Type::Any), false, None)
    } else {
        (RTy::Of(fs[j].ty), fs[j].optional, fs[j].validation)
    }
}

/// Where resolution starts: the whole input as an object, or its first
/// named field.
pub open spec fn spec_resolve_start(route: Route, input: InputRef) -> Resolution {
    let fs = source_fields(route, input.source);
    if input.path@.len() == 0 {
        (RTy::ObjectOf(fs), false, None)
    } else {
        field_lookup(fs, input.path@[0]@)
    }
}

/// The first schema type of the service with that name, or -1.
pub open spec fn first_type_def(types: Seq<TypeDef>, name: crate::ir::TypeName, j: int) -> int
    decreases types.len() - j,
{
    if j < 0 || j >= types.len() {
        -1
    } else if type_name_eq(types[j].name, name) {
        j
    } else {
        first_type_def(types, name, j + 1)
    }
}

/// A resolved type as held while resolving: a type of the IR, the fields
/// of an input, `any`, or the empty object.
pub enum RRef<'a> {
    Ty(&'a Type),
    Fields(&'a Vec<Field>),
    AnyTy,
    NoFields,
}

pub open spec fn rref_view(r: RRef) -> RTy {
    match r {
        RRef::Ty(t) => RTy::Of(*t),
        RRef::Fields(v) => RTy::ObjectOf(v@),
        RRef::AnyTy => RTy::Of(Type::Any),
        RRef::NoFields => RTy::ObjectOf(Seq::empty()),
    }
}

pub open spec fn opt_ref_view(v: Option<&Validation>) -> Option<Validation> {
    match v {
        Some(x) => Some(*x),
        None => None,
    }
}

pub fn find_field<'a>(fs: &'a Vec<Field>, name: &str) -> (r: Option<&'a Field>)
    ensures
        match r {
            Some(f) => first_field(fs@, name@, 0) >= 0 && *f == fs@[first_field(fs@, name@, 0)],
            None => first_field(fs@, name@, 0) < 0,
        },
{
    let mut j: usize = 0;
    while j < fs.len()
        invariant
            0 <= j <= fs@.len(),
            first_field(fs@, name@, 0) == first_field(fs@, name@, j as int),
        decreases fs@.len() - j,
    {
        if str_eq(fs[j].name.as_str(), name) {
            return Some(&fs[j]);
        }
        j += 1;
    }
    None
}

pub fn lookup<'a>(fs: &'a Vec<Field>, name: &str) -> (r: (RRef<'a>, bool, Option<&'a Validation>))
    ensures
        (rref_view(r.0), r.1, opt_ref_view(r.2)) == field_lookup(fs@, name@),
{
    match find_field(fs, name) {
        None => (RRef::AnyTy, false, None),
        Some(f) => (RRef::Ty(&f.ty), f.optional, f.validation.as_ref()),
    }
}

pub fn source_fields_of<'a>(route: &'a Route, src: InputSource) -> (r: Option<&'a Vec<Field>>)
    ensures
        match r {
            Some(v) => v@ == source_fields(*route, src),
            None => src is Input && source_fields(*route, src) == Seq::<Field>::empty(),
        },
{
    match src {
        InputSource::Path => Some(&route.input.path),
        InputSource::Query => Some(&route.input.query),
        InputSource::Body => Some(&route.input.body),
        InputSource::Headers => Some(&route.headers),
        InputSource::Input => None,
    }
}

pub fn find_type_def<'a>(types: &'a Vec<TypeDef>, name: &crate::ir::TypeName) -> (r: Option<&'a TypeDef>)
    ensures
        match r {
            Some(d) => first_type_def(types@, *name, 0) >= 0 && *d == types@[first_type_def(types@, *name, 0)],
            None => first_type_def(types@, *name, 0) < 0,
        },
{
    let mut j: usize = 0;
    while j < types.len()
        invariant
            0 <= j <= types@.len(),
            first_type_def(types@, *name, 0) == first_type_def(types@, *name, j as int),
        decreases types@.len() - j,
    {
        let d = &types[j];
        let same = str_eq(d.name.name.as_str(), name.name.as_str()) && match (d.name.version, name.version) {
            (Some(a), Some(b)) => a == b,
            (None, None) => true,
            _ => false,
        };
        if same {
            return Some(d);
        }
        j += 1;
    }
    None
}

} // verus!
