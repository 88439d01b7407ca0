//! Equality and copies of schema types and fields, compared by their
//! contents: what the derived `PartialEq` and `Clone` of these types do.

use vstd::prelude::*;

use crate::ir::{Field, Type, TypeName, Validation};
use crate::text::str_eq;

verus! {

pub open spec fn opt_text(o: Option<String>) -> Option<Seq<char>> {
    match o {
        Some(s) => Some(s@),
        None => None,
    }
}

pub open spec fn text_pairs(v: Seq<(String, String)>) -> Seq<(Seq<char>, Seq<char>)> {
    v.map_values(|e: (String, String)| (e.0@, e.1@))
}

pub open spec fn type_name_eq(a: TypeName, b: TypeName) -> bool {
    a.name@ == b.name@ && a.version == b.version
}

pub open spec fn validation_eq(a: Validation, b: Validation) -> bool {
    &&& a.min == b.min
    &&& a.max == b.max
    &&& a.min_len == b.min_len
    &&& a.max_len == b.max_len
    &&& a.min_items == b.min_items
    &&& a.max_items == b.max_items
    &&& opt_text(a.regex) == opt_text(b.regex)
    &&& opt_text(a.format) == opt_text(b.format)
    &&& text_pairs(a.constraints@) == text_pairs(b.constraints@)
}

pub open spec fn opt_validation_eq(a: Option<Validation>, b: Option<Validation>) -> bool {
    match (a, b) {
        (Some(x), Some(y)) => validation_eq(x, y),
        (None, None) => true,
        _ => false,
    }
}

/// Two types with the same contents.
pub open spec fn type_eq(a: Type, b: Type) -> bool
    decreases a, 0nat,
{
    match (a, b) {
        (Type::String, Type::String) => true,
        (Type::Int, Type::Int) => true,
        (Type::Float, Type::Float) => true,
        (Type::Bool, Type::Bool) => true,
        (Type::Void, Type::Void) => true,
        (Type::Any, Type::Any) => true,
        (Type::Named(x), Type::Named(y)) => type_name_eq(x, y),
        (Type::Array(x), Type::Array(y)) => type_eq(*x, *y),
        (Type::MapOf(x), Type::MapOf(y)) => type_eq(*x, *y),
        (Type::Nullable(x), Type::Nullable(y)) => type_eq(*x, *y),
        (Type::Union(xs), Type::Union(ys)) => xs@.len() == ys@.len() && types_eq(xs@, ys@, xs@.len()),
        (Type::OneOf(xs), Type::OneOf(ys)) => xs@.len() == ys@.len() && types_eq(xs@, ys@, xs@.len()),
        (Type::Object(xs), Type::Object(ys)) => xs@.len() == ys@.len() && fields_eq(
            xs@,
            ys@,
            xs@.len(),
        ),
        _ => false,
    }
}

/// The first `n` types of both lists have the same contents.
pub open spec fn types_eq(xs: Seq<Type>, ys: Seq<Type>, n: nat) -> bool
    decreases xs, n,
{
    if n == 0 {
        true
    } else {
        n <= xs.len() && n <= ys.len() && types_eq(xs, ys, (n - 1) as nat) && type_eq(
            xs[n - 1],
            ys[n - 1],
        )
    }
}

/// The first `n` fields of both lists have the same contents.
pub open spec fn fields_eq(xs: Seq<Field>, ys: Seq<Field>, n: nat) -> bool
    decreases xs, n,
{
    if n == 0 {
        true
    } else {
        n <= xs.len() && n <= ys.len() && fields_eq(xs, ys, (n - 1) as nat) && field_eq(
            xs[n - 1],
            ys[n - 1],
        )
    }
}

pub open spec fn field_eq(a: Field, b: Field) -> bool
    decreases a, 0nat,
{
    a.name@ == b.name@ && type_eq(a.ty, b.ty) && a.optional == b.optional && opt_validation_eq(
        a.validation,
        b.validation,
    )
}

/// Two field lists with the same contents.
pub open spec fn field_list_eq(xs: Seq<Field>, ys: Seq<Field>) -> bool {
    xs.len() == ys.len() && fields_eq(xs, ys, xs.len())
}

fn opt_text_equal(a: &Option<String>, b: &Option<String>) -> (r: bool)
    ensures
        r == (opt_text(*a) == opt_text(*b)),
{
    match (a, b) {
        (Some(x), Some(y)) => str_eq(x.as_str(), y.as_str()),
        (None, None) => true,
        _ => false,
    }
}

fn opt_i64_equal(a: Option<i64>, b: Option<i64>) -> (r: bool)
    ensures
        r == (a == b),
{
    match (a, b) {
        (Some(x), Some(y)) => x == y,
        (None, None) => true,
        _ => false,
    }
}

fn opt_u32_equal(a: Option<u32>, b: Option<u32>) -> (r: bool)
    ensures
        r == (a == b),
{
    match (a, b) {
        (Some(x), Some(y)) => x == y,
        (None, None) => true,
        _ => false,
    }
}

fn pairs_equal(a: &Vec<(String, String)>, b: &Vec<(String, String)>) -> (r: bool)
    ensures
        r == (text_pairs(a@) == text_pairs(b@)),
{
    if a.len() != b.len() {
        assert(text_pairs(a@).len() != text_pairs(b@).len());
        return false;
    }
    let mut i: usize = 0;
    while i < a.len()
        invariant
            0 <= i <= a@.len() == b@.len(),
            forall|j: int| 0 <= j < i ==> text_pairs(a@)[j] == text_pairs(b@)[j],
        decreases a@.len() - i,
    {
        assert(text_pairs(a@)[i as int] == (a@[i as int].0@, a@[i as int].1@));
        assert(text_pairs(b@)[i as int] == (b@[i as int].0@, b@[i as int].1@));
        if !str_eq(a[i].0.as_str(), b[i].0.as_str()) || !str_eq(a[i].1.as_str(), b[i].1.as_str()) {
            return false;
        }
        i += 1;
    }
    assert(text_pairs(a@) =~= text_pairs(b@));
    true
}

pub fn validation_equal(a: &Validation, b: &Validation) -> (r: bool)
    ensures
        r == validation_eq(*a, *b),
{
    opt_i64_equal(a.min, b.min) && opt_i64_equal(a.max, b.max) && opt_i64_equal(a.min_len, b.min_len)
        && opt_i64_equal(a.max_len, b.max_len) && opt_i64_equal(a.min_items, b.min_items)
        && opt_i64_equal(a.max_items, b.max_items) && opt_text_equal(&a.regex, &b.regex)
        && opt_text_equal(&a.format, &b.format) && pairs_equal(&a.constraints, &b.constraints)
}

pub fn opt_validation_equal(a: &Option<Validation>, b: &Option<Validation>) -> (r: bool)
    ensures
        r == opt_validation_eq(*a, *b),
{
    match (a, b) {
        (Some(x), Some(y)) => validation_equal(x, y),
        (None, None) => true,
        _ => false,
    }
}

pub fn type_equal(a: &Type, b: &Type) -> (r: bool)
    ensures
        r == type_eq(*a, *b),
    decreases a, 0nat,
{
    match (a, b) {
        (Type::String, Type::String) => true,
        (Type::Int, Type::Int) => true,
        (Type::Float, Type::Float) => true,
        (Type::Bool, Type::Bool) => true,
        (Type::Void, Type::Void) => true,
        (Type::Any, Type::Any) => true,
        (Type::Named(x), Type::Named(y)) => str_eq(x.name.as_str(), y.name.as_str())
            && opt_u32_equal(x.version, y.version),
        (Type::Array(x), Type::Array(y)) => type_equal(x, y),
        (Type::MapOf(x), Type::MapOf(y)) => type_equal(x, y),
        (Type::Nullable(x), Type::Nullable(y)) => type_equal(x, y),
        (Type::Union(xs), Type::Union(ys)) => xs.len() == ys.len() && types_equal(xs, ys),
        (Type::OneOf(xs), Type::OneOf(ys)) => xs.len() == ys.len() && types_equal(xs, ys),
        (Type::Object(xs), Type::Object(ys)) => xs.len() == ys.len() && fields_equal(xs, ys),
        _ => false,
    }
}

fn types_equal(xs: &Vec<Type>, ys: &Vec<Type>) -> (r: bool)
    requires
        xs@.len() == ys@.len(),
    ensures
        r == types_eq(xs@, ys@, xs@.len()),
    decreases xs, 1nat,
{
    let mut i: usize = 0;
    while i < xs.len()
        invariant
            0 <= i <= xs@.len() == ys@.len(),
            types_eq(xs@, ys@, i as nat),
        decreases xs@.len() - i,
    {
        assert(decreases_to!(xs => xs@[i as int]));
        if !type_equal(&xs[i], &ys[i]) {
            proof {
                if types_eq(xs@, ys@, xs@.len()) {
                    lemma_types_eq_prefix(xs@, ys@, (i + 1) as nat, xs@.len());
                }
            }
            return false;
        }
        i += 1;
    }
    true
}

proof fn lemma_types_eq_prefix(xs: Seq<Type>, ys: Seq<Type>, i: nat, n: nat)
    requires
        i <= n,
        types_eq(xs, ys, n),
    ensures
        types_eq(xs, ys, i),
    decreases n - i,
{
    if i < n {
        lemma_types_eq_prefix(xs, ys, i, (n - 1) as nat);
    }
}

proof fn lemma_fields_eq_prefix(xs: Seq<Field>, ys: Seq<Field>, i: nat, n: nat)
    requires
        i <= n,
        fields_eq(xs, ys, n),
    ensures
        fields_eq(xs, ys, i),
    decreases n - i,
{
    if i < n {
        lemma_fields_eq_prefix(xs, ys, i, (n - 1) as nat);
    }
}

fn fields_equal(xs: &Vec<Field>, ys: &Vec<Field>) -> (r: bool)
    requires
        xs@.len() == ys@.len(),
    ensures
        r == fields_eq(xs@, ys@, xs@.len()),
    decreases xs, 1nat,
{
    let mut i: usize = 0;
    while i < xs.len()
        invariant
            0 <= i <= xs@.len() == ys@.len(),
            fields_eq(xs@, ys@, i as nat),
        decreases xs@.len() - i,
    {
        assert(decreases_to!(xs => xs@[i as int]));
        if !field_equal(&xs[i], &ys[i]) {
            proof {
                if fields_eq(xs@, ys@, xs@.len()) {
                    lemma_fields_eq_prefix(xs@, ys@, (i + 1) as nat, xs@.len());
                }
            }
            return false;
        }
        i += 1;
    }
    true
}

pub fn field_equal(a: &Field, b: &Field) -> (r: bool)
    ensures
        r == field_eq(*a, *b),
    decreases a, 0nat,
{
    str_eq(a.name.as_str(), b.name.as_str()) && type_equal(&a.ty, &b.ty) && a.optional == b.optional
        && opt_validation_equal(&a.validation, &b.validation)
}

/// Two field lists with the same contents.
pub fn field_lists_equal(xs: &Vec<Field>, ys: &Vec<Field>) -> (r: bool)
    ensures
        r == field_list_eq(xs@, ys@),
{
    xs.len() == ys.len() && fields_equal(xs, ys)
}

// ---------------------------------------------------------------------------
// Copies
// ---------------------------------------------------------------------------

pub fn copy_validation(v: &Validation) -> (r: Validation)
    ensures
        validation_eq(r, *v),
{
    let mut constraints: Vec<(String, String)> = Vec::new();
    let mut i: usize = 0;
    while i < v.constraints.len()
        invariant
            0 <= i <= v.constraints@.len(),
            text_pairs(constraints@) == text_pairs(v.constraints@.take(i as int)),
        decreases v.constraints@.len() - i,
    {
        let ghost before = text_pairs(constraints@);
        let e = (v.constraints[i].0.clone(), v.constraints[i].1.clone());
        let ghost ev = (e.0@, e.1@);
        assert(ev == (v.constraints@[i as int].0@, v.constraints@[i as int].1@));
        constraints.push(e);
        assert(text_pairs(constraints@) =~= before.push(ev));
        assert(v.constraints@.take(i + 1) =~= v.constraints@.take(i as int).push(v.constraints@[i as int]));
        assert(text_pairs(v.constraints@.take(i + 1)) =~= text_pairs(v.constraints@.take(i as int)).push(ev));
        i += 1;
    }
    assert(v.constraints@.take(v.constraints@.len() as int) =~= v.constraints@);
    Validation {
        min: v.min,
        max: v.max,
        min_len: v.min_len,
        max_len: v.max_len,
        min_items: v.min_items,
        max_items: v.max_items,
        regex: match &v.regex {
            Some(s) => Some(s.clone()),
            None => None,
        },
        format: match &v.format {
            Some(s) => Some(s.clone()),
            None => None,
        },
        constraints,
    }
}

pub fn copy_opt_validation(v: &Option<Validation>) -> (r: Option<Validation>)
    ensures
        opt_validation_eq(r, *v),
{
    match v {
        Some(x) => Some(copy_validation(x)),
        None => None,
    }
}

pub fn copy_type(t: &Type) -> (r: Type)
    ensures
        type_eq(r, *t),
    decreases t, 0nat,
{
    match t {
        Type::String => Type::String,
        Type::Int => Type::Int,
        Type::Float => Type::Float,
        Type::Bool => Type::Bool,
        Type::Void => Type::Void,
        Type::Any => Type::Any,
        Type::Named(n) => Type::Named(TypeName { name: n.name.clone(), version: n.version }),
        Type::Array(x) => Type::Array(Box::new(copy_type(x))),
        Type::MapOf(x) => Type::MapOf(Box::new(copy_type(x))),
        Type::Nullable(x) => Type::Nullable(Box::new(copy_type(x))),
        Type::Union(xs) => Type::Union(copy_types(xs)),
        Type::OneOf(xs) => Type::OneOf(copy_types(xs)),
        Type::Object(xs) => Type::Object(copy_fields(xs)),
    }
}

fn copy_types(xs: &Vec<Type>) -> (r: Vec<Type>)
    ensures
        r@.len() == xs@.len(),
        types_eq(r@, xs@, xs@.len()),
    decreases xs, 1nat,
{
    let mut out: Vec<Type> = Vec::new();
    let mut i: usize = 0;
    while i < xs.len()
        invariant
            0 <= i <= xs@.len(),
            out@.len() == i,
            types_eq(out@, xs@, i as nat),
        decreases xs@.len() - i,
    {
        assert(decreases_to!(xs => xs@[i as int]));
        let c = copy_type(&xs[i]);
        let ghost before = out@;
        out.push(c);
        proof {
            lemma_types_eq_extend(before, xs@, i as nat, c);
        }
        i += 1;
    }
    out
}

proof fn lemma_types_eq_extend(xs: Seq<Type>, ys: Seq<Type>, n: nat, x: Type)
    requires
        xs.len() == n,
        n < ys.len(),
        types_eq(xs, ys, n),
        type_eq(x, ys[n as int]),
    ensures
        types_eq(xs.push(x), ys, n + 1),
{
    lemma_types_eq_push(xs, ys, n, x);
}

proof fn lemma_types_eq_push(xs: Seq<Type>, ys: Seq<Type>, n: nat, x: Type)
    requires
        n <= xs.len(),
        types_eq(xs, ys, n),
    ensures
        types_eq(xs.push(x), ys, n),
    decreases n,
{
    if n > 0 {
        lemma_types_eq_push(xs, ys, (n - 1) as nat, x);
        assert(xs.push(x)[n - 1] == xs[n - 1]);
    }
}

proof fn lemma_fields_eq_push(xs: Seq<Field>, ys: Seq<Field>, n: nat, x: Field)
    requires
        n <= xs.len(),
        fields_eq(xs, ys, n),
    ensures
        fields_eq(xs.push(x), ys, n),
    decreases n,
{
    if n > 0 {
        lemma_fields_eq_push(xs, ys, (n - 1) as nat, x);
        assert(xs.push(x)[n - 1] == xs[n - 1]);
    }
}

pub fn copy_fields(xs: &Vec<Field>) -> (r: Vec<Field>)
    ensures
        field_list_eq(r@, xs@),
    decreases xs, 1nat,
{
    let mut out: Vec<Field> = Vec::new();
    let mut i: usize = 0;
    while i < xs.len()
        invariant
            0 <= i <= xs@.len(),
            out@.len() == i,
            fields_eq(out@, xs@, i as nat),
        decreases xs@.len() - i,
    {
        assert(decreases_to!(xs => xs@[i as int]));
        let c = copy_field(&xs[i]);
        let ghost before = out@;
        out.push(c);
        proof {
            lemma_fields_eq_push(before, xs@, i as nat, c);
            assert(out@[i as int] == c);
        }
        i += 1;
    }
    out
}

pub fn copy_field(f: &Field) -> (r: Field)
    ensures
        field_eq(r, *f),
    decreases f, 0nat,
{
    Field {
        name: f.name.clone(),
        ty: copy_type(&f.ty),
        optional: f.optional,
        validation: copy_opt_validation(&f.validation),
    }
}

} // verus!
