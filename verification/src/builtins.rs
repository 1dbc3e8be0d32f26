//! Signatures of the runtime's built-in functions and methods, as far as the
//! lowering consults them.
use vstd::prelude::*;
use crate::ir::IrType;
use crate::names::NameMap;
use crate::text::str_eq;

verus! {

/// Parameter types of built-in methods, keyed `Class_method`, each written
/// in its static form: an instance method lists its receiver first.
pub open spec fn builtin_params_spec(m: Seq<char>) -> Option<Seq<IrType>> {
    if m == "Array_get"@ { Some(seq![IrType::Ptr, IrType::I64]) }
    else if m == "Array_slice"@ { Some(seq![IrType::Ptr, IrType::I64, IrType::I64]) }
    else if m == "Array_push"@ { Some(seq![IrType::Ptr, IrType::Ptr]) }
    else if m == "Array_pop"@ { Some(seq![IrType::Ptr]) }
    else if m == "Array_len"@ { Some(seq![IrType::Ptr]) }
    else if m == "Array_first"@ { Some(seq![IrType::Ptr]) }
    else if m == "Array_last"@ { Some(seq![IrType::Ptr]) }
    else if m == "Array_join"@ { Some(seq![IrType::Ptr, IrType::Ptr]) }
    else if m == "Array_sort"@ { Some(seq![IrType::Ptr]) }
    else if m == "Array_reverse"@ { Some(seq![IrType::Ptr]) }
    else if m == "Array_contains"@ { Some(seq![IrType::Ptr, IrType::Ptr]) }
    else if m == "Map_get"@ { Some(seq![IrType::Ptr, IrType::Ptr]) }
    else if m == "Map_set"@ { Some(seq![IrType::Ptr, IrType::Ptr, IrType::Ptr]) }
    else if m == "Map_has"@ { Some(seq![IrType::Ptr, IrType::Ptr]) }
    else if m == "Map_remove"@ { Some(seq![IrType::Ptr, IrType::Ptr]) }
    else if m == "Map_keys"@ { Some(seq![IrType::Ptr]) }
    else if m == "Map_values"@ { Some(seq![IrType::Ptr]) }
    else if m == "String_len"@ { Some(seq![IrType::Ptr]) }
    else if m == "String_upper"@ { Some(seq![IrType::Ptr]) }
    else if m == "String_lower"@ { Some(seq![IrType::Ptr]) }
    else if m == "String_trim"@ { Some(seq![IrType::Ptr]) }
    else if m == "String_split"@ { Some(seq![IrType::Ptr, IrType::Ptr]) }
    else if m == "String_replace"@ { Some(seq![IrType::Ptr, IrType::Ptr, IrType::Ptr]) }
    else if m == "String_contains"@ { Some(seq![IrType::Ptr, IrType::Ptr]) }
    else if m == "IO_write"@ { Some(seq![IrType::Ptr]) }
    else if m == "IO_writeln"@ { Some(seq![IrType::Ptr]) }
    else if m == "Math_abs"@ { Some(seq![IrType::I64]) }
    else if m == "Math_sqrt"@ { Some(seq![IrType::F64]) }
    else if m == "Math_pow"@ { Some(seq![IrType::F64, IrType::F64]) }
    else if m == "Convert_toString"@ { Some(seq![IrType::Ptr]) }
    else if m == "UnitTest_assertTrue"@ { Some(seq![IrType::Ptr]) }
    else if m == "UnitTest_assertFalse"@ { Some(seq![IrType::Ptr]) }
    else if m == "UnitTest_assertEquals"@ { Some(seq![IrType::Ptr, IrType::Ptr]) }
    else { None }
}

/// The names listed in `builtin_params_spec`.
pub open spec fn builtin_method_names_spec() -> Seq<Seq<char>> {
    seq!["Array_get"@, "Array_slice"@, "Array_push"@, "Array_pop"@, "Array_len"@, "Array_first"@,
        "Array_last"@, "Array_join"@, "Array_sort"@, "Array_reverse"@, "Array_contains"@, "Map_get"@,
        "Map_set"@, "Map_has"@, "Map_remove"@, "Map_keys"@, "Map_values"@, "String_len"@,
        "String_upper"@, "String_lower"@, "String_trim"@, "String_split"@, "String_replace"@,
        "String_contains"@, "IO_write"@, "IO_writeln"@, "Math_abs"@, "Math_sqrt"@, "Math_pow"@,
        "Convert_toString"@, "UnitTest_assertTrue"@, "UnitTest_assertFalse"@, "UnitTest_assertEquals"@]
}

fn types1(a: IrType) -> (r: Vec<IrType>)
    ensures
        r@ == seq![a],
{
    let mut v: Vec<IrType> = Vec::new();
    v.push(a);
    v
}

fn types2(a: IrType, b: IrType) -> (r: Vec<IrType>)
    ensures
        r@ == seq![a, b],
{
    let mut v: Vec<IrType> = Vec::new();
    v.push(a);
    v.push(b);
    v
}

fn types3(a: IrType, b: IrType, c: IrType) -> (r: Vec<IrType>)
    ensures
        r@ == seq![a, b, c],
{
    let mut v: Vec<IrType> = Vec::new();
    v.push(a);
    v.push(b);
    v.push(c);
    v
}

/// Parameter types of built-in method `m` (static form).
pub fn builtin_method_params(m: &str) -> (r: Option<Vec<IrType>>)
    ensures
        match r {
            Some(v) => builtin_params_spec(m@) == Some(v@),
            None => builtin_params_spec(m@) is None,
        },
{
    if str_eq(m, "Array_get") { Some(types2(IrType::Ptr, IrType::I64)) }
    else if str_eq(m, "Array_slice") { Some(types3(IrType::Ptr, IrType::I64, IrType::I64)) }
    else if str_eq(m, "Array_push") { Some(types2(IrType::Ptr, IrType::Ptr)) }
    else if str_eq(m, "Array_pop") { Some(types1(IrType::Ptr)) }
    else if str_eq(m, "Array_len") { Some(types1(IrType::Ptr)) }
    else if str_eq(m, "Array_first") { Some(types1(IrType::Ptr)) }
    else if str_eq(m, "Array_last") { Some(types1(IrType::Ptr)) }
    else if str_eq(m, "Array_join") { Some(types2(IrType::Ptr, IrType::Ptr)) }
    else if str_eq(m, "Array_sort") { Some(types1(IrType::Ptr)) }
    else if str_eq(m, "Array_reverse") { Some(types1(IrType::Ptr)) }
    else if str_eq(m, "Array_contains") { Some(types2(IrType::Ptr, IrType::Ptr)) }
    else if str_eq(m, "Map_get") { Some(types2(IrType::Ptr, IrType::Ptr)) }
    else if str_eq(m, "Map_set") { Some(types3(IrType::Ptr, IrType::Ptr, IrType::Ptr)) }
    else if str_eq(m, "Map_has") { Some(types2(IrType::Ptr, IrType::Ptr)) }
    else if str_eq(m, "Map_remove") { Some(types2(IrType::Ptr, IrType::Ptr)) }
    else if str_eq(m, "Map_keys") { Some(types1(IrType::Ptr)) }
    else if str_eq(m, "Map_values") { Some(types1(IrType::Ptr)) }
    else if str_eq(m, "String_len") { Some(types1(IrType::Ptr)) }
    else if str_eq(m, "String_upper") { Some(types1(IrType::Ptr)) }
    else if str_eq(m, "String_lower") { Some(types1(IrType::Ptr)) }
    else if str_eq(m, "String_trim") { Some(types1(IrType::Ptr)) }
    else if str_eq(m, "String_split") { Some(types2(IrType::Ptr, IrType::Ptr)) }
    else if str_eq(m, "String_replace") { Some(types3(IrType::Ptr, IrType::Ptr, IrType::Ptr)) }
    else if str_eq(m, "String_contains") { Some(types2(IrType::Ptr, IrType::Ptr)) }
    else if str_eq(m, "IO_write") { Some(types1(IrType::Ptr)) }
    else if str_eq(m, "IO_writeln") { Some(types1(IrType::Ptr)) }
    else if str_eq(m, "Math_abs") { Some(types1(IrType::I64)) }
    else if str_eq(m, "Math_sqrt") { Some(types1(IrType::F64)) }
    else if str_eq(m, "Math_pow") { Some(types2(IrType::F64, IrType::F64)) }
    else if str_eq(m, "Convert_toString") { Some(types1(IrType::Ptr)) }
    else if str_eq(m, "UnitTest_assertTrue") { Some(types1(IrType::Ptr)) }
    else if str_eq(m, "UnitTest_assertFalse") { Some(types1(IrType::Ptr)) }
    else if str_eq(m, "UnitTest_assertEquals") { Some(types2(IrType::Ptr, IrType::Ptr)) }
    else { None }
}

fn builtin_method_names() -> (r: Vec<&'static str>)
    ensures
        r@.len() == builtin_method_names_spec().len(),
        forall|i: int| 0 <= i < r@.len() ==> #[trigger] r@[i]@ == builtin_method_names_spec()[i],
{
    let v = vec!["Array_get", "Array_slice", "Array_push", "Array_pop", "Array_len", "Array_first",
        "Array_last", "Array_join", "Array_sort", "Array_reverse", "Array_contains", "Map_get",
        "Map_set", "Map_has", "Map_remove", "Map_keys", "Map_values", "String_len",
        "String_upper", "String_lower", "String_trim", "String_split", "String_replace",
        "String_contains", "IO_write", "IO_writeln", "Math_abs", "Math_sqrt", "Math_pow",
        "Convert_toString", "UnitTest_assertTrue", "UnitTest_assertFalse", "UnitTest_assertEquals"];
    v
}

/// The table of built-in method parameter types, keyed `Class_method`
/// (static form: an instance method's receiver comes first).
pub fn builtin_method_param_types() -> (r: NameMap<Vec<IrType>>)
    ensures
        forall|k: Seq<char>| #[trigger] r@.contains_key(k) ==> builtin_params_spec(k) == Some(r@[k]@),
        forall|i: int| 0 <= i < builtin_method_names_spec().len()
            ==> r@.contains_key(#[trigger] builtin_method_names_spec()[i]),
{
    let names = builtin_method_names();
    let mut map: NameMap<Vec<IrType>> = NameMap::new();
    let mut i: usize = 0;
    while i < names.len()
        invariant
            i <= names@.len(),
            names@.len() == builtin_method_names_spec().len(),
            forall|j: int| 0 <= j < names@.len() ==> #[trigger] names@[j]@ == builtin_method_names_spec()[j],
            forall|k: Seq<char>| #[trigger] map@.contains_key(k) ==> builtin_params_spec(k) == Some(map@[k]@),
            forall|j: int| 0 <= j < i ==> map@.contains_key(#[trigger] builtin_method_names_spec()[j]),
        decreases names@.len() - i,
    {
        let name = names[i];
        match builtin_method_params(name) {
            Some(ps) => {
                map.insert(name.to_owned(), ps);
            },
            None => {},
        }
        proof {
            assert(names@[i as int]@ == builtin_method_names_spec()[i as int]);
            assert(builtin_params_spec(builtin_method_names_spec()[i as int]) is Some);
        }
        i = i + 1;
    }
    map
}

/// Runtime functions: number of parameters and whether the function
/// returns nothing. `Name_0`, `Name_1`... are the variants of a function
/// with optional trailing parameters, called with that many arguments.
pub open spec fn runtime_builtin_spec(n: Seq<char>) -> Option<(nat, bool)> {
    if n == "IO_write"@ || n == "IO_writeln"@ { Some((1, true)) }
    else if n == "IO_writeInt"@ || n == "IO_writelnInt"@ || n == "IO_writeFloat"@
        || n == "IO_writelnFloat"@ || n == "IO_writeBool"@ || n == "IO_writelnBool"@ { Some((1, true)) }
    else if n == "Array_push"@ { Some((2, true)) }
    else if n == "Map_set"@ { Some((3, true)) }
    else if n == "Thread_join"@ || n == "Thread_detach"@ { Some((1, true)) }
    else if n == "Mutex_lock"@ || n == "Mutex_unlock"@ || n == "Mutex_destroy"@ { Some((1, true)) }
    else if n == "UnitTest_assertTrue"@ || n == "UnitTest_assertFalse"@ { Some((1, true)) }
    else if n == "UnitTest_assertEquals"@ { Some((2, true)) }
    else if n == "System_exit"@ { Some((1, true)) }
    else if n == "Math_round"@ { Some((2, false)) }
    else if n == "Math_round_0"@ { Some((0, false)) }
    else if n == "Math_round_1"@ { Some((1, false)) }
    else if n == "String_split"@ { Some((2, false)) }
    else if n == "Array_get"@ || n == "Map_get"@ { Some((2, false)) }
    else if n == "Array_len"@ || n == "String_len"@ { Some((1, false)) }
    else { None }
}

/// Number of parameters and void-ness of runtime function `n`.
pub fn runtime_builtin(n: &str) -> (r: Option<(usize, bool)>)
    ensures
        match r {
            Some((k, v)) => runtime_builtin_spec(n@) == Some((k as nat, v)),
            None => runtime_builtin_spec(n@) is None,
        },
{
    if str_eq(n, "IO_write") || str_eq(n, "IO_writeln") { Some((1, true)) }
    else if str_eq(n, "IO_writeInt") || str_eq(n, "IO_writelnInt") || str_eq(n, "IO_writeFloat")
        || str_eq(n, "IO_writelnFloat") || str_eq(n, "IO_writeBool") || str_eq(n, "IO_writelnBool") { Some((1, true)) }
    else if str_eq(n, "Array_push") { Some((2, true)) }
    else if str_eq(n, "Map_set") { Some((3, true)) }
    else if str_eq(n, "Thread_join") || str_eq(n, "Thread_detach") { Some((1, true)) }
    else if str_eq(n, "Mutex_lock") || str_eq(n, "Mutex_unlock") || str_eq(n, "Mutex_destroy") { Some((1, true)) }
    else if str_eq(n, "UnitTest_assertTrue") || str_eq(n, "UnitTest_assertFalse") { Some((1, true)) }
    else if str_eq(n, "UnitTest_assertEquals") { Some((2, true)) }
    else if str_eq(n, "System_exit") { Some((1, true)) }
    else if str_eq(n, "Math_round") { Some((2, false)) }
    else if str_eq(n, "Math_round_0") { Some((0, false)) }
    else if str_eq(n, "Math_round_1") { Some((1, false)) }
    else if str_eq(n, "String_split") { Some((2, false)) }
    else if str_eq(n, "Array_get") || str_eq(n, "Map_get") { Some((2, false)) }
    else if str_eq(n, "Array_len") || str_eq(n, "String_len") { Some((1, false)) }
    else { None }
}

} // verus!
