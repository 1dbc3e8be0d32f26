//! Ownership classes of source types and type-name resolution shared by the
//! lowering of declarations, loops and fields.
use vstd::prelude::*;
use crate::ast::Type;
use crate::text::{str_eq, concat};

verus! {

/// How a value of a source type is owned and released.
#[derive(Clone, Copy, Debug, PartialEq, Eq, Structural)]
pub enum OwnershipClass {
    /// Heap values with a generic destructor (strings, arrays, maps, objects).
    Value,
    /// Handles closed by a dedicated call (mutexes, database connections, HTTP handles).
    Resource,
    /// Threads, released by `join`/`detach`.
    Thread,
    /// Everything else: behaves like a plain `var`.
    Unsupported,
}

/// Names of the resource classes.
pub open spec fn is_resource_name(n: Seq<char>) -> bool {
    n == "Mutex"@ || n == "SQLite"@ || n == "MySQL"@ || n == "MariaDB"@
        || n == "HTTPRequest"@ || n == "HTTPResponse"@
}

/// Ownership class of a source type.
pub open spec fn ownership_class_spec(t: Type) -> OwnershipClass {
    match t {
        Type::String | Type::Array(_) | Type::Dict(_, _) => OwnershipClass::Value,
        Type::Named(n) => if is_resource_name(n@) {
            OwnershipClass::Resource
        } else if n@ == "Thread"@ {
            OwnershipClass::Thread
        } else {
            OwnershipClass::Value
        },
        _ => OwnershipClass::Unsupported,
    }
}

/// True when `n` names a resource class.
pub fn is_resource_class_name(n: &str) -> (r: bool)
    ensures
        r == is_resource_name(n@),
{
    str_eq(n, "Mutex") || str_eq(n, "SQLite") || str_eq(n, "MySQL") || str_eq(n, "MariaDB")
        || str_eq(n, "HTTPRequest") || str_eq(n, "HTTPResponse")
}

/// Ownership class of a source type.
pub fn ownership_class(t: &Type) -> (r: OwnershipClass)
    ensures
        r == ownership_class_spec(*t),
{
    match t {
        Type::String | Type::Array(_) | Type::Dict(_, _) => OwnershipClass::Value,
        Type::Named(n) => {
            if is_resource_class_name(n.as_str()) {
                OwnershipClass::Resource
            } else if str_eq(n.as_str(), "Thread") {
                OwnershipClass::Thread
            } else {
                OwnershipClass::Value
            }
        },
        _ => OwnershipClass::Unsupported,
    }
}

/// Class named by a type, looking through a union: the first `Named` member
/// of `T|null`-like unions, or the type itself when it is `Named`.
pub open spec fn union_named_class_spec(t: Type) -> Option<Seq<char>> {
    match t {
        Type::Named(n) => Some(n@),
        Type::Union(ms) => first_named(ms@, 0),
        _ => None,
    }
}

/// First `Named` member of `ms` at or after `i`.
pub open spec fn first_named(ms: Seq<Type>, i: int) -> Option<Seq<char>>
    decreases ms.len() - i,
{
    if i < 0 || i >= ms.len() {
        None
    } else {
        match ms[i] {
            Type::Named(n) => Some(n@),
            _ => first_named(ms, i + 1),
        }
    }
}

/// Class named by `t`, looking through unions (see `union_named_class_spec`).
pub fn union_named_class(t: &Type) -> (r: Option<String>)
    ensures
        match r {
            Some(s) => union_named_class_spec(*t) == Some(s@),
            None => union_named_class_spec(*t) is None,
        },
{
    match t {
        Type::Named(n) => Some(n.clone()),
        Type::Union(ms) => {
            let mut i: usize = 0;
            while i < ms.len()
                invariant
                    i <= ms@.len(),
                    union_named_class_spec(*t) == first_named(ms@, i as int),
                decreases ms@.len() - i,
            {
                match &ms[i] {
                    Type::Named(n) => {
                        assert(first_named(ms@, i as int) == Some(n@));
                        return Some(n.clone());
                    },
                    _ => {
                        assert(first_named(ms@, i as int) == first_named(ms@, i + 1));
                    },
                }
                i = i + 1;
            }
            None
        },
        _ => None,
    }
}

/// Name of the specialisation of a generic class for its type arguments:
/// `Box<int>` becomes `Box__int`, each argument appended after `__`.
pub open spec fn monomorphized_name_spec(name: Seq<char>, args: Seq<Type>) -> Seq<char>
    decreases args.len(),
{
    if args.len() == 0 {
        name
    } else {
        monomorphized_name_spec(name, args.drop_last()) + "__"@ + type_tag(args.last())
    }
}

/// Short tag of a type argument used in specialised names.
pub open spec fn type_tag(t: Type) -> Seq<char> {
    match t {
        Type::Int => "int"@,
        Type::Float => "float"@,
        Type::Bool => "bool"@,
        Type::String => "string"@,
        Type::Mixed => "mixed"@,
        Type::Void => "void"@,
        Type::Null => "null"@,
        Type::Named(n) => n@,
        Type::Array(_) => "array"@,
        Type::Dict(_, _) => "map"@,
        Type::Union(_) => "union"@,
        Type::Function { .. } => "function"@,
        Type::Generic { name, .. } => name@,
        Type::Qualified(_) => "qualified"@,
        Type::Message(_) => "message"@,
    }
}

fn type_tag_string(t: &Type) -> (r: String)
    ensures
        r@ == type_tag(*t),
{
    match t {
        Type::Int => "int".to_owned(),
        Type::Float => "float".to_owned(),
        Type::Bool => "bool".to_owned(),
        Type::String => "string".to_owned(),
        Type::Mixed => "mixed".to_owned(),
        Type::Void => "void".to_owned(),
        Type::Null => "null".to_owned(),
        Type::Named(n) => n.clone(),
        Type::Array(_) => "array".to_owned(),
        Type::Dict(_, _) => "map".to_owned(),
        Type::Union(_) => "union".to_owned(),
        Type::Function { .. } => "function".to_owned(),
        Type::Generic { name, .. } => name.clone(),
        Type::Qualified(_) => "qualified".to_owned(),
        Type::Message(_) => "message".to_owned(),
    }
}

/// Name of the specialisation of generic class `name` for `args`.
pub fn monomorphized_name(name: &str, args: &Vec<Type>) -> (r: String)
    ensures
        r@ == monomorphized_name_spec(name@, args@),
{
    let mut out = name.to_owned();
    let mut i: usize = 0;
    while i < args.len()
        invariant
            i <= args@.len(),
            out@ == monomorphized_name_spec(name@, args@.subrange(0, i as int)),
        decreases args@.len() - i,
    {
        let tag = type_tag_string(&args[i]);
        let with_sep = concat(out.as_str(), "__");
        out = concat(with_sep.as_str(), tag.as_str());
        proof {
            let s = args@.subrange(0, i + 1);
            assert(s.drop_last() =~= args@.subrange(0, i as int));
            assert(s.last() == args@[i as int]);
        }
        i = i + 1;
    }
    assert(args@.subrange(0, args@.len() as int) =~= args@);
    out
}

} // verus!
