//! Deep views and copies of source types and literals.
use vstd::prelude::*;
use crate::ast::{Literal, Type};

verus! {

/// The mathematical form of a source type.
pub enum TypeV {
    Int,
    Float,
    Bool,
    String,
    Mixed,
    Void,
    Null,
    Named(Seq<char>),
    Qualified(Seq<Seq<char>>),
    Array(Box<TypeV>),
    Dict(Box<TypeV>, Box<TypeV>),
    Union(Seq<TypeV>),
    Function { ret_ty: Box<TypeV>, param_tys: Seq<TypeV> },
    Generic { name: Seq<char>, args: Seq<TypeV> },
    Message(Box<TypeV>),
}

/// The mathematical form of a source type.
pub open spec fn type_view(t: Type) -> TypeV
    decreases t,
{
    match t {
        Type::Int => TypeV::Int,
        Type::Float => TypeV::Float,
        Type::Bool => TypeV::Bool,
        Type::String => TypeV::String,
        Type::Mixed => TypeV::Mixed,
        Type::Void => TypeV::Void,
        Type::Null => TypeV::Null,
        Type::Named(n) => TypeV::Named(n@),
        Type::Qualified(ps) => TypeV::Qualified(Seq::new(ps@.len(), |i: int| ps@[i]@)),
        Type::Array(b) => TypeV::Array(Box::new(type_view(*b))),
        Type::Dict(k, v) => TypeV::Dict(Box::new(type_view(*k)), Box::new(type_view(*v))),
        Type::Union(ms) => TypeV::Union(Seq::new(ms@.len(), |i: int|
            if 0 <= i < ms@.len() { type_view(ms@[i]) } else { TypeV::Void })),
        Type::Function { ret_ty, param_tys } => TypeV::Function {
            ret_ty: Box::new(type_view(*ret_ty)),
            param_tys: Seq::new(param_tys@.len(), |i: int|
                if 0 <= i < param_tys@.len() { type_view(param_tys@[i]) } else { TypeV::Void }),
        },
        Type::Generic { name, args } => TypeV::Generic {
            name: name@,
            args: Seq::new(args@.len(), |i: int|
                if 0 <= i < args@.len() { type_view(args@[i]) } else { TypeV::Void }),
        },
        Type::Message(b) => TypeV::Message(Box::new(type_view(*b))),
    }
}

impl DeepView for Type {
    type V = TypeV;

    open spec fn deep_view(&self) -> TypeV {
        type_view(*self)
    }
}

/// Copies of a list of types, element by element.
pub fn copy_types(ts: &Vec<Type>) -> (r: Vec<Type>)
    ensures
        r@.len() == ts@.len(),
        forall|i: int| 0 <= i < ts@.len() ==> type_view(#[trigger] r@[i]) == type_view(ts@[i]),
    decreases ts, 0nat,
{
    let mut out: Vec<Type> = Vec::new();
    let mut i: usize = 0;
    while i < ts.len()
        invariant
            i <= ts@.len(),
            out@.len() == i,
            forall|j: int| 0 <= j < i ==> type_view(#[trigger] out@[j]) == type_view(ts@[j]),
        decreases ts@.len() - i,
    {
        proof {
            assert(decreases_to!(*ts => ts@));
            assert(decreases_to!(ts@ => ts@[i as int]));
        }
        out.push(copy_type(&ts[i]));
        i = i + 1;
    }
    out
}

fn copy_strings(ss: &Vec<String>) -> (r: Vec<String>)
    ensures
        r@ == ss@,
{
    let mut out: Vec<String> = Vec::new();
    let mut i: usize = 0;
    while i < ss.len()
        invariant
            i <= ss@.len(),
            out@ == ss@.subrange(0, i as int),
        decreases ss@.len() - i,
    {
        out.push(ss[i].clone());
        i = i + 1;
        assert(out@ =~= ss@.subrange(0, i as int));
    }
    assert(ss@.subrange(0, ss@.len() as int) =~= ss@);
    out
}

/// A copy of `t`, equal to it up to its deep view.
pub fn copy_type(t: &Type) -> (r: Type)
    ensures
        type_view(r) == type_view(*t),
    decreases t, 1nat,
{
    match t {
        Type::Int => Type::Int,
        Type::Float => Type::Float,
        Type::Bool => Type::Bool,
        Type::String => Type::String,
        Type::Mixed => Type::Mixed,
        Type::Void => Type::Void,
        Type::Null => Type::Null,
        Type::Named(n) => Type::Named(n.clone()),
        Type::Qualified(ps) => {
            let c = copy_strings(ps);
            let r = Type::Qualified(c);
            assert(type_view(r)->Qualified_0 =~= type_view(*t)->Qualified_0);
            r
        },
        Type::Array(b) => Type::Array(Box::new(copy_type(b))),
        Type::Dict(k, v) => Type::Dict(Box::new(copy_type(k)), Box::new(copy_type(v))),
        Type::Union(ms) => {
            let c = copy_types(ms);
            let r = Type::Union(c);
            assert(type_view(r)->Union_0 =~= type_view(*t)->Union_0);
            r
        },
        Type::Function { ret_ty, param_tys } => {
            let rt = copy_type(ret_ty);
            let ps = copy_types(param_tys);
            let r = Type::Function { ret_ty: Box::new(rt), param_tys: ps };
            assert(type_view(r)->param_tys =~= type_view(*t)->param_tys);
            r
        },
        Type::Generic { name, args } => {
            let a = copy_types(args);
            let r = Type::Generic { name: name.clone(), args: a };
            assert(type_view(r)->args =~= type_view(*t)->args);
            r
        },
        Type::Message(b) => Type::Message(Box::new(copy_type(b))),
    }
}

/// A copy of a literal.
pub fn copy_literal(l: &Literal) -> (r: Literal)
    ensures
        r == *l,
{
    match l {
        Literal::Int(n) => Literal::Int(*n),
        Literal::Float(b) => Literal::Float(*b),
        Literal::Bool(b) => Literal::Bool(*b),
        Literal::String(s) => Literal::String(s.clone()),
        Literal::Null => Literal::Null,
    }
}

} // verus!
