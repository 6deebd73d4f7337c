use vstd::prelude::*;
use crate::common::utils::chars::{append_decimal, decimal};
use crate::ast::GenericSyntax;

verus! {

/// The size of a pointer in bytes.
pub const SIZE_POINTER: usize = 8;

/// A type as written in a program.
#[derive(Debug)]
pub enum Type {
    Typename(String),
    Generic { name: String, params: Vec<Type> },
    Reference(Box<Type>),
    Pointer(Box<Type>),
    Slice(Box<Type>),
    Array { ty: Box<Type>, size: usize },
    FnPtr { ret: Box<Type>, params: Vec<Type> },
}


pub type TypeSyntax = GenericSyntax<Type>;

/// A type as plain values, lists as sequences.
pub enum TypeV {
    Typename(String),
    Generic(String, Seq<TypeV>),
    Reference(Box<TypeV>),
    Pointer(Box<TypeV>),
    Slice(Box<TypeV>),
    Array(Box<TypeV>, usize),
    FnPtr(Box<TypeV>, Seq<TypeV>),
}

pub open spec fn types_view(ts: Seq<Type>) -> Seq<TypeV>
    decreases ts,
{
    if ts.len() == 0 {
        Seq::empty()
    } else {
        types_view(ts.drop_last()).push(type_view(ts.last()))
    }
}

/// The type as plain values.
pub open spec fn type_view(t: Type) -> TypeV
    decreases t,
{
    match t {
        Type::Typename(n) => TypeV::Typename(n),
        Type::Generic { name, params } => TypeV::Generic(name, types_view(params@)),
        Type::Reference(inner) => TypeV::Reference(Box::new(type_view(*inner))),
        Type::Pointer(inner) => TypeV::Pointer(Box::new(type_view(*inner))),
        Type::Slice(inner) => TypeV::Slice(Box::new(type_view(*inner))),
        Type::Array { ty, size } => TypeV::Array(Box::new(type_view(*ty)), size),
        Type::FnPtr { ret, params } => TypeV::FnPtr(Box::new(type_view(*ret)), types_view(params@)),
    }
}

pub proof fn lemma_types_view_push(ts: Seq<Type>, t: Type)
    ensures
        types_view(ts.push(t)) == types_view(ts).push(type_view(t)),
{
    assert(ts.push(t).drop_last() =~= ts);
}

/// The types, as plain values, written with `, ` between them.
pub open spec fn paramsv_text(ps: Seq<TypeV>) -> Seq<char>
    decreases ps,
{
    if ps.len() == 0 {
        Seq::empty()
    } else if ps.len() == 1 {
        typev_text(ps[0])
    } else {
        paramsv_text(ps.drop_last()) + ", "@ + typev_text(ps.last())
    }
}

/// How a type, as plain values, is written (see `type_text`).
pub open spec fn typev_text(t: TypeV) -> Seq<char>
    decreases t,
{
    match t {
        TypeV::Typename(n) => n@,
        TypeV::Generic(name, params) => name@ + "<"@ + paramsv_text(params) + ">"@,
        TypeV::Reference(inner) => typev_text(*inner) + "&"@,
        TypeV::Pointer(inner) => typev_text(*inner) + "*"@,
        TypeV::Slice(inner) => typev_text(*inner) + "[]"@,
        TypeV::Array(ty, size) => typev_text(*ty) + "["@ + decimal(size as nat) + "]"@,
        TypeV::FnPtr(ret, params) => typev_text(*ret) + "("@ + paramsv_text(params) + ")"@,
    }
}

pub proof fn lemma_types_view(ts: Seq<Type>)
    ensures
        types_view(ts).len() == ts.len(),
        forall|i: int| 0 <= i < ts.len() ==> #[trigger] types_view(ts)[i] == type_view(ts[i]),
    decreases ts.len(),
{
    if ts.len() > 0 {
        lemma_types_view(ts.drop_last());
    }
}

/// A type is written the same way as its plain value.
pub proof fn lemma_type_text(t: Type)
    ensures
        type_text(t) == typev_text(type_view(t)),
    decreases t, 1nat,
{
    match t {
        Type::Generic { name, params } => {
            lemma_params_text(params@);
        },
        Type::FnPtr { ret, params } => {
            lemma_type_text(*ret);
            lemma_params_text(params@);
        },
        Type::Reference(inner) => lemma_type_text(*inner),
        Type::Pointer(inner) => lemma_type_text(*inner),
        Type::Slice(inner) => lemma_type_text(*inner),
        Type::Array { ty, size } => lemma_type_text(*ty),
        Type::Typename(_) => {},
    }
}

proof fn lemma_params_text(ps: Seq<Type>)
    ensures
        params_text(ps) == paramsv_text(types_view(ps)),
    decreases ps, 0nat,
{
    lemma_types_view(ps);
    if ps.len() == 1 {
        assert(decreases_to!(ps => ps[0]));
        lemma_type_text(ps[0]);
    } else if ps.len() > 1 {
        assert(decreases_to!(ps => ps.last()));
        lemma_type_text(ps.last());
        assert(types_view(ps).drop_last() =~= types_view(ps.drop_last())) by {
            lemma_types_view(ps.drop_last());
        }
        lemma_params_text(ps.drop_last());
    }
}

/// The mangled names of the parameters, each after a `_`.
pub open spec fn params_mangle(ps: Seq<Type>) -> Seq<char>
    decreases ps,
{
    if ps.len() == 0 {
        Seq::empty()
    } else {
        params_mangle(ps.drop_last()) + "_"@ + mangle(ps.last())
    }
}

/// The mangled name of a type: a stable string that tells types apart.
pub open spec fn mangle(t: Type) -> Seq<char>
    decreases t,
{
    match t {
        Type::Typename(n) => n@,
        Type::Reference(inner) => mangle(*inner) + "_ref"@,
        Type::Pointer(inner) => mangle(*inner) + "_ptr"@,
        Type::Slice(inner) => mangle(*inner) + "_slice"@,
        Type::Array { ty, size } => mangle(*ty) + "_array_"@ + decimal(size as nat),
        Type::Generic { name, params } => name@ + params_mangle(params@),
        Type::FnPtr { ret, params } => "fn_"@ + mangle(*ret) + params_mangle(params@),
    }
}

/// The types written one after another with `, ` between them.
pub open spec fn params_text(ps: Seq<Type>) -> Seq<char>
    decreases ps,
{
    if ps.len() == 0 {
        Seq::empty()
    } else if ps.len() == 1 {
        type_text(ps[0])
    } else {
        params_text(ps.drop_last()) + ", "@ + type_text(ps.last())
    }
}

/// How a type is written: modifiers after the type they modify.
pub open spec fn type_text(t: Type) -> Seq<char>
    decreases t,
{
    match t {
        Type::Typename(n) => n@,
        Type::Generic { name, params } => name@ + "<"@ + params_text(params@) + ">"@,
        Type::Reference(inner) => type_text(*inner) + "&"@,
        Type::Pointer(inner) => type_text(*inner) + "*"@,
        Type::Slice(inner) => type_text(*inner) + "[]"@,
        Type::Array { ty, size } => type_text(*ty) + "["@ + decimal(size as nat) + "]"@,
        Type::FnPtr { ret, params } => type_text(*ret) + "("@ + params_text(params@) + ")"@,
    }
}

/// Appends the types written with `, ` between them.
fn append_params_text(s: &mut String, params: &Vec<Type>)
    ensures
        final(s)@ == old(s)@ + params_text(params@),
    decreases params@, 1int,
{
    let mut i: usize = 0;
    while i < params.len()
        invariant
            i <= params@.len(),
            s@ == old(s)@ + params_text(params@.subrange(0, i as int)),
        decreases params@.len() - i,
    {
        assert(params@.subrange(0, i + 1).drop_last() =~= params@.subrange(0, i as int));
        assert(decreases_to!(params@ => params@[i as int]));
        let t = params[i].describe();
        if i > 0 {
            s.append(", ");
        }
        s.append(t.as_str());
        i = i + 1;
    }
    assert(params@.subrange(0, params@.len() as int) =~= params@);
}

/// Appends the mangled names of `params`, each after a `_`.
fn append_params(s: &mut String, params: &Vec<Type>)
    ensures
        final(s)@ == old(s)@ + params_mangle(params@),
    decreases params@, 1int,
{
    let mut i: usize = 0;
    while i < params.len()
        invariant
            i <= params@.len(),
            s@ == old(s)@ + params_mangle(params@.subrange(0, i as int)),
        decreases params@.len() - i,
    {
        assert(params@.subrange(0, i + 1).drop_last() =~= params@.subrange(0, i as int));
        assert(decreases_to!(params@ => params@[i as int]));
        let m = params[i].mangle_name();
        s.append("_");
        s.append(m.as_str());
        i = i + 1;
    }
    assert(params@.subrange(0, params@.len() as int) =~= params@);
}

impl Type {
    /// A stable string for the type, for use as a prefix of mangled names.
    pub fn mangle_name(&self) -> (r: String)
        ensures
            r@ == mangle(*self),
        decreases *self, 0int,
    {
        match self {
            Type::Typename(n) => n.clone(),
            Type::Reference(t) => t.mangle_name().concat("_ref"),
            Type::Pointer(t) => t.mangle_name().concat("_ptr"),
            Type::Slice(t) => t.mangle_name().concat("_slice"),
            Type::Array { ty, size } => {
                let mut s = ty.mangle_name().concat("_array_");
                append_decimal(&mut s, *size as u128);
                s
            },
            Type::Generic { name, params } => {
                let mut s = name.clone();
                append_params(&mut s, params);
                s
            },
            Type::FnPtr { ret, params } => {
                let mut s = String::from_str("fn_");
                let m = ret.mangle_name();
                s.append(m.as_str());
                append_params(&mut s, params);
                s
            },
        }
    }

    /// The type as it is written (see `type_text`).
    pub fn describe(&self) -> (r: String)
        ensures
            r@ == type_text(*self),
        decreases *self, 0int,
    {
        match self {
            Type::Typename(n) => n.clone(),
            Type::Generic { name, params } => {
                let mut s = name.clone();
                s.append("<");
                append_params_text(&mut s, params);
                s.append(">");
                s
            },
            Type::Reference(t) => t.describe().concat("&"),
            Type::Pointer(t) => t.describe().concat("*"),
            Type::Slice(t) => t.describe().concat("[]"),
            Type::Array { ty, size } => {
                let mut s = ty.describe().concat("[");
                append_decimal(&mut s, *size as u128);
                s.append("]");
                s
            },
            Type::FnPtr { ret, params } => {
                let mut s = ret.describe().concat("(");
                append_params_text(&mut s, params);
                s.append(")");
                s
            },
        }
    }

    /// The size of the type in bytes where it is known without resolving
    /// names: pointers, references and function pointers are one pointer,
    /// a slice is two.
    pub fn try_get_size(&self) -> (r: Option<usize>)
        ensures
            r == (match *self {
                Type::Reference(_) => Some(SIZE_POINTER),
                Type::Pointer(_) => Some(SIZE_POINTER),
                Type::Slice(_) => Some((SIZE_POINTER * 2) as usize),
                Type::FnPtr { .. } => Some(SIZE_POINTER),
                _ => None,
            }),
    {
        match self {
            Type::Typename(_) => None,
            Type::Generic { .. } => None,
            Type::Reference(_) => Some(SIZE_POINTER),
            Type::Pointer(_) => Some(SIZE_POINTER),
            Type::Slice(_) => Some(SIZE_POINTER * 2),
            Type::Array { .. } => None,
            Type::FnPtr { .. } => Some(SIZE_POINTER),
        }
    }
}

} // verus!
