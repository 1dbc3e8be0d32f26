//! Lowering of a whole program into an IR module.
use vstd::prelude::*;
use crate::ast::{ClassDecl, ClassMember, EnumDecl, EnumVariant, Expr, FuncDecl, Literal, ModuleDecl, Param, Program, Type};
use crate::astcopy::{copy_literal, copy_type};
use crate::builder::functions_grow;
use crate::class_dispatch::{compute_classes_with_subclasses, generate_class_dispatchers, has_child, transitive_descendants};
use crate::class_ownership::generate_class_ownership_functions;
use crate::classes::{emitted_after, lower_class, member_function_name};
use crate::functions::{lower_const_global, lower_func, FunctionTables};
use crate::interfaces::{generate_interface_dispatchers, implementers, is_implemented};
use crate::ir::{IrModule, IrType};
use crate::message_gen::{is_message_func, lower_message_func, register_all_message_funcs};
use crate::names::{NameMap, NameSet};
use crate::runtime::lower_runtime_blocks;
use crate::text::{concat, concat3, mangle, mangle_spec, str_eq};
use crate::wrappers::{generate_async_wrapper, generate_wrapper};

verus! {

/// Some function of module `m` is named `name`.
pub open spec fn has_function_named(m: IrModule, name: Seq<char>) -> bool {
    exists|j: int| 0 <= j < m.functions@.len() && (#[trigger] m.functions@[j]).name@ == name
}

/// The function that stands for function `f` once lowered: its own name,
/// or its resume function for a generator.
pub open spec fn lowered_name(f: FuncDecl) -> Seq<char> {
    if f.ret_ty is Message { f.name@ + "__resume"@ } else { f.name@ }
}

/// Functions of `before` named as the first `n` functions of the program
/// stay present when the module only grows.
proof fn lemma_lowered_kept(program: &Program, n: int, before: IrModule, after: IrModule)
    requires
        functions_grow(before, after),
        forall|i: int| 0 <= i < n ==> has_function_named(before, lowered_name(#[trigger] program.functions@[i])),
    ensures
        forall|i: int| 0 <= i < n ==> has_function_named(after, lowered_name(#[trigger] program.functions@[i])),
{
    assert forall|i: int| 0 <= i < n implies has_function_named(after, lowered_name(#[trigger] program.functions@[i])) by {
        let nm = lowered_name(program.functions@[i]);
        assert(has_function_named(before, nm));
        let j = choose|j: int| 0 <= j < before.functions@.len() && (#[trigger] before.functions@[j]).name@ == nm;
        assert(after.functions@[j] == before.functions@[j]);
    }
}

/// The default values of `params`, as references into them.
fn param_defaults<'a>(params: &'a Vec<Param>) -> (r: Vec<Option<&'a Expr>>)
    ensures
        r@.len() == params@.len(),
        forall|i: int| 0 <= i < params@.len() ==> match (#[trigger] params@[i]).default_value {
            Some(e) => r@[i] == Some(&e),
            None => r@[i] is None,
        },
{
    let mut out: Vec<Option<&'a Expr>> = Vec::new();
    let mut i: usize = 0;
    while i < params.len()
        invariant
            i <= params@.len(),
            out@.len() == i,
            forall|k: int| 0 <= k < i ==> match (#[trigger] params@[k]).default_value {
                Some(e) => out@[k] == Some(&e),
                None => out@[k] is None,
            },
        decreases params@.len() - i,
    {
        match &params[i].default_value {
            Some(e) => out.push(Some(e)),
            None => out.push(None),
        }
        i = i + 1;
    }
    out
}

/// The IR types of `params`.
fn param_types(params: &Vec<Param>) -> (r: Vec<IrType>)
    ensures
        r@.len() == params@.len(),
        forall|i: int| 0 <= i < params@.len() ==> r@[i] == crate::ir::ir_type_of((#[trigger] params@[i]).ty),
{
    let mut out: Vec<IrType> = Vec::new();
    let mut i: usize = 0;
    while i < params.len()
        invariant
            i <= params@.len(),
            out@.len() == i,
            forall|k: int| 0 <= k < i ==> out@[k] == crate::ir::ir_type_of((#[trigger] params@[k]).ty),
        decreases params@.len() - i,
    {
        out.push(IrType::from_ast(&params[i].ty));
        i = i + 1;
    }
    out
}

/// The names of `params`.
fn param_names(params: &Vec<Param>) -> (r: Vec<String>)
    ensures
        r@.len() == params@.len(),
{
    let mut out: Vec<String> = Vec::new();
    let mut i: usize = 0;
    while i < params.len()
        invariant
            i <= params@.len(),
            out@.len() == i,
        decreases params@.len() - i,
    {
        out.push(params[i].name.clone());
        i = i + 1;
    }
    out
}

/// `(number of fixed parameters, element type)` when the last parameter
/// of `params` is variadic.
fn variadic_info(params: &Vec<Param>) -> (r: Option<(usize, IrType)>)
    ensures
        match r {
            Some((n, t)) => params@.len() > 0 && params@.last().is_variadic && n == params@.len() - 1
                && t == crate::ir::ir_type_of(params@.last().ty),
            None => params@.len() == 0 || !params@.last().is_variadic,
        },
{
    let n = params.len();
    if n > 0 && params[n - 1].is_variadic {
        Some((n - 1, IrType::from_ast(&params[n - 1].ty)))
    } else {
        None
    }
}

/// The tables describing the program's functions and methods.
pub struct SignatureTables<'a> {
    pub fn_ret_types: NameMap<IrType>,
    pub fn_param_types: NameMap<Vec<IrType>>,
    pub fn_param_names: NameMap<Vec<String>>,
    pub fn_variadic_info: NameMap<(usize, IrType)>,
    pub func_default_args: NameMap<Vec<Option<&'a Expr>>>,
    pub async_funcs: NameSet,
}

/// Return types, parameter types and names, variadic shapes and default
/// values of the free functions and of the static methods (under
/// `Class_method`), default values of the instance methods, and the async
/// free functions.
fn collect_signatures<'a>(program: &'a Program) -> (r: SignatureTables<'a>)
    ensures
        forall|i: int| 0 <= i < program.functions@.len() ==>
            r.fn_ret_types@.contains_key((#[trigger] program.functions@[i]).name@),
        forall|i: int| 0 <= i < program.functions@.len() && (#[trigger] program.functions@[i]).is_async ==>
            r.async_funcs@.contains(program.functions@[i].name@),
{
    let mut t = SignatureTables {
        fn_ret_types: NameMap::new(),
        fn_param_types: NameMap::new(),
        fn_param_names: NameMap::new(),
        fn_variadic_info: NameMap::new(),
        func_default_args: NameMap::new(),
        async_funcs: NameSet::new(),
    };
    let mut i: usize = 0;
    while i < program.functions.len()
        invariant
            i <= program.functions@.len(),
            forall|k: int| 0 <= k < i ==> t.fn_ret_types@.contains_key((#[trigger] program.functions@[k]).name@),
            forall|k: int| 0 <= k < i && (#[trigger] program.functions@[k]).is_async ==>
                t.async_funcs@.contains(program.functions@[k].name@),
        decreases program.functions@.len() - i,
    {
        let f = &program.functions[i];
        t.fn_ret_types.insert(f.name.clone(), IrType::from_ast(&f.ret_ty));
        if f.is_async {
            t.async_funcs.insert(f.name.clone());
        }
        t.fn_param_types.insert(f.name.clone(), param_types(&f.params));
        t.fn_param_names.insert(f.name.clone(), param_names(&f.params));
        t.func_default_args.insert(f.name.clone(), param_defaults(&f.params));
        match variadic_info(&f.params) {
            Some(v) => t.fn_variadic_info.insert(f.name.clone(), v),
            None => {},
        }
        i = i + 1;
    }
    let mut c: usize = 0;
    while c < program.classes.len()
        invariant
            forall|k: int| 0 <= k < program.functions@.len() ==>
                t.fn_ret_types@.contains_key((#[trigger] program.functions@[k]).name@),
            forall|k: int| 0 <= k < program.functions@.len() && (#[trigger] program.functions@[k]).is_async ==>
                t.async_funcs@.contains(program.functions@[k].name@),
        decreases program.classes@.len() - c,
    {
        let class = &program.classes[c];
        let mut m: usize = 0;
        while m < class.members.len()
            invariant
                forall|k: int| 0 <= k < program.functions@.len() ==>
                    t.fn_ret_types@.contains_key((#[trigger] program.functions@[k]).name@),
                forall|k: int| 0 <= k < program.functions@.len() && (#[trigger] program.functions@[k]).is_async ==>
                    t.async_funcs@.contains(program.functions@[k].name@),
            decreases class.members@.len() - m,
        {
            match &class.members[m] {
                ClassMember::Method { decl, is_static, .. } => {
                    let mangled = mangle(class.name.as_str(), decl.name.as_str());
                    if *is_static {
                        t.fn_param_types.insert(mangled.clone(), param_types(&decl.params));
                        t.fn_param_names.insert(mangled.clone(), param_names(&decl.params));
                        t.func_default_args.insert(mangled.clone(), param_defaults(&decl.params));
                        match variadic_info(&decl.params) {
                            Some(v) => t.fn_variadic_info.insert(mangled, v),
                            None => {},
                        }
                    } else {
                        t.func_default_args.insert(mangled, param_defaults(&decl.params));
                    }
                },
                _ => {},
            }
            m = m + 1;
        }
        c = c + 1;
    }
    t
}

/// Index of the first class named `name`.
fn class_index(classes: &Vec<ClassDecl>, name: &str) -> (r: Option<usize>)
    ensures
        match r {
            Some(i) => i < classes@.len() && classes@[i as int].name@ == name@,
            None => forall|i: int| 0 <= i < classes@.len() ==> (#[trigger] classes@[i]).name@ != name@,
        },
{
    let mut i: usize = 0;
    while i < classes.len()
        invariant
            i <= classes@.len(),
            forall|k: int| 0 <= k < i ==> (#[trigger] classes@[k]).name@ != name@,
        decreases classes@.len() - i,
    {
        if str_eq(classes[i].name.as_str(), name) {
            return Some(i);
        }
        i = i + 1;
    }
    None
}

fn has_field(fields: &Vec<(String, Type)>, name: &str) -> (r: bool)
    ensures
        r == exists|k: int| 0 <= k < fields@.len() && (#[trigger] fields@[k]).0@ == name@,
{
    let mut i: usize = 0;
    while i < fields.len()
        invariant
            i <= fields@.len(),
            forall|k: int| 0 <= k < i ==> (#[trigger] fields@[k]).0@ != name@,
        decreases fields@.len() - i,
    {
        if str_eq(fields[i].0.as_str(), name) {
            return true;
        }
        i = i + 1;
    }
    false
}

/// Appends the fields declared in `members` whose name is not yet in
/// `fields`.
fn push_member_fields(members: &Vec<ClassMember>, fields: &mut Vec<(String, Type)>)
{
    let mut k: usize = 0;
    while k < members.len()
        decreases members@.len() - k,
    {
        match &members[k] {
            ClassMember::Field { name, ty, .. } => {
                if !has_field(fields, name.as_str()) {
                    fields.push((name.clone(), copy_type(ty)));
                }
            },
            _ => {},
        }
        k = k + 1;
    }
}

/// The fields of class `class_name` with their source types, in layout
/// order: those of its ancestors first (outermost first), then for each
/// class those of the modules it uses, then its own; a name already present
/// is skipped. Unknown classes have no fields; the walk up the chain is
/// bounded by the number of classes.
fn collect_fields(classes: &Vec<ClassDecl>, modules: &Vec<ModuleDecl>, class_name: &str) -> (r: Vec<(String, Type)>)
{
    let mut chain: Vec<usize> = Vec::new();
    let mut current: Option<usize> = class_index(classes, class_name);
    let mut fuel: usize = classes.len();
    while fuel > 0
        invariant
            forall|k: int| 0 <= k < chain@.len() ==> (#[trigger] chain@[k]) < classes@.len(),
            match current { Some(c) => c < classes@.len(), None => true },
        decreases fuel,
    {
        fuel = fuel - 1;
        let ci = match current {
            Some(ci) => ci,
            None => {
                break;
            },
        };
        chain.push(ci);
        current = match &classes[ci].extends {
            Some(p) => class_index(classes, p.as_str()),
            None => None,
        };
    }
    let mut fields: Vec<(String, Type)> = Vec::new();
    let mut k: usize = chain.len();
    while k > 0
        invariant
            k <= chain@.len(),
            forall|q: int| 0 <= q < chain@.len() ==> (#[trigger] chain@[q]) < classes@.len(),
        decreases k,
    {
        k = k - 1;
        let class = &classes[chain[k]];
        let mut mi: usize = 0;
        while mi < class.modules.len()
            decreases class.modules@.len() - mi,
        {
            let mut d: usize = 0;
            let mut found: Option<usize> = None;
            while d < modules.len()
                invariant
                    mi < class.modules@.len(),
                    match found { Some(f) => f < modules@.len(), None => true },
                decreases modules@.len() - d,
            {
                if str_eq(modules[d].name.as_str(), class.modules[mi].as_str()) {
                    found = Some(d);
                    break;
                }
                d = d + 1;
            }
            match found {
                Some(f) => push_member_fields(&modules[f].members, &mut fields),
                None => {},
            }
            mi = mi + 1;
        }
        push_member_fields(&class.members, &mut fields);
    }
    fields
}

/// The IR layout of `fields`.
fn layout_of(fields: &Vec<(String, Type)>) -> (r: Vec<(String, IrType)>)
    ensures
        r@.len() == fields@.len(),
        forall|i: int| 0 <= i < fields@.len() ==> (#[trigger] r@[i]).0@ == fields@[i].0@
            && r@[i].1 == crate::ir::ir_type_of(fields@[i].1),
{
    let mut out: Vec<(String, IrType)> = Vec::new();
    let mut i: usize = 0;
    while i < fields.len()
        invariant
            i <= fields@.len(),
            out@.len() == i,
            forall|k: int| 0 <= k < i ==> (#[trigger] out@[k]).0@ == fields@[k].0@
                && out@[k].1 == crate::ir::ir_type_of(fields@[k].1),
        decreases fields@.len() - i,
    {
        out.push((fields[i].0.clone(), IrType::from_ast(&fields[i].1)));
        i = i + 1;
    }
    out
}

/// The names of the map-typed fields of `fields`.
fn map_fields_of(fields: &Vec<(String, Type)>) -> (r: NameSet)
{
    let mut out = NameSet::new();
    let mut i: usize = 0;
    while i < fields.len()
        decreases fields@.len() - i,
    {
        match &fields[i].1 {
            Type::Dict(_, _) => {
                out.insert(fields[i].0.clone());
            },
            _ => {},
        }
        i = i + 1;
    }
    out
}

/// The layout shared by the built-in exception classes: `message`,
/// `code`, `source`.
fn exception_layout() -> (r: Vec<(String, IrType)>)
    ensures
        r@.len() == 3,
{
    let mut v: Vec<(String, IrType)> = Vec::new();
    v.push(("message".to_owned(), IrType::Ptr));
    v.push(("code".to_owned(), IrType::I64));
    v.push(("source".to_owned(), IrType::Ptr));
    v
}

/// The value after `x` in the auto-numbering of enum variants (wrapping).
pub open spec fn next_enum_value(x: i64) -> i64 {
    if x == i64::MAX { i64::MIN } else { (x + 1) as i64 }
}

/// The value of variant `v` of an enum: its explicit value, else one more
/// than the variant before it, else 0 for the first.
pub open spec fn enum_value(variants: Seq<EnumVariant>, v: int) -> i64
    decreases v,
{
    if v < 0 {
        0
    } else {
        match variants[v].value {
            Some(x) => x,
            None => if v == 0 { 0 } else { next_enum_value(enum_value(variants, v - 1)) },
        }
    }
}

/// Key of variant `v` of enum `e` in the table of class constants.
pub open spec fn enum_key(e: EnumDecl, v: int) -> Seq<char> {
    e.name@ + "__"@ + e.variants@[v].name@
}

/// No other variant of the enums has the key of variant `v` of enum `e`.
pub open spec fn enum_key_unique(enums: Seq<EnumDecl>, e: int, v: int) -> bool {
    forall|e2: int, v2: int| 0 <= e2 < enums.len() && 0 <= v2 < enums[e2].variants@.len() && (e2 != e || v2 != v)
        ==> enum_key(enums[e2], v2) != enum_key(enums[e], v)
}

/// Variant `v` of enum `e` is recorded with its value as an integer
/// constant in `consts`.
pub open spec fn enum_recorded(consts: Map<Seq<char>, (IrType, Literal)>, enums: Seq<EnumDecl>, e: int, v: int) -> bool {
    &&& consts.contains_key(enum_key(enums[e], v))
    &&& consts[enum_key(enums[e], v)] == (IrType::I64, Literal::Int(enum_value(enums[e].variants@, v)))
}

/// Records the class information of the program in the module: parents,
/// layouts and field types (with the map-typed fields), the layouts of the
/// built-in exceptions, constructor parameter types, instance method
/// parameter types, inlinable class constants and enum variants, the
/// identity of each class (1, 2, ... in declaration order), and the
/// identities that satisfy `is Name` for each class (itself and its
/// descendants) and each implemented interface (its direct implementers).
fn record_classes(module: &mut IrModule, program: &Program)
    ensures
        forall|e: int, v: int| 0 <= e < program.enums@.len() && 0 <= v < program.enums@[e].variants@.len()
            && enum_key_unique(program.enums@, e, v)
            ==> #[trigger] enum_recorded(final(module).class_consts@, program.enums@, e, v),
        final(module).functions == old(module).functions,
        final(module).try_counter == old(module).try_counter,
        final(module).source_file == old(module).source_file,
        forall|i: int| 0 <= i < program.classes@.len() ==>
            final(module).class_layouts@.contains_key((#[trigger] program.classes@[i]).name@),
        forall|i: int| 0 <= i < program.classes@.len() ==>
            final(module).class_ids@.contains_key((#[trigger] program.classes@[i]).name@),
{
    let mut c: usize = 0;
    while c < program.classes.len()
        invariant
            module.functions == old(module).functions,
            module.try_counter == old(module).try_counter,
            module.source_file == old(module).source_file,
        decreases program.classes@.len() - c,
    {
        match &program.classes[c].extends {
            Some(p) => module.class_parents.insert(program.classes[c].name.clone(), p.clone()),
            None => {},
        }
        c = c + 1;
    }
    let mut c: usize = 0;
    while c < program.classes.len()
        invariant
            c <= program.classes@.len(),
            module.functions == old(module).functions,
            module.try_counter == old(module).try_counter,
            module.source_file == old(module).source_file,
            forall|i: int| 0 <= i < c ==> module.class_layouts@.contains_key((#[trigger] program.classes@[i]).name@),
        decreases program.classes@.len() - c,
    {
        let name = &program.classes[c].name;
        let fields = collect_fields(&program.classes, &program.modules, name.as_str());
        module.class_layouts.insert(name.clone(), layout_of(&fields));
        module.class_map_fields.insert(name.clone(), map_fields_of(&fields));
        module.class_field_types.insert(name.clone(), fields);
        c = c + 1;
    }
    let exceptions: [&str; 16] = ["Exception", "FileException", "DirectoryException", "IOException",
        "SystemException", "ArrayException", "MapException", "MathException", "ConvertException",
        "RegexException", "DateTimeException", "DateException", "TimeException", "ThreadException",
        "MutexException", "UnitTestException"];
    let mut e: usize = 0;
    while e < 16
        invariant
            module.functions == old(module).functions,
            module.try_counter == old(module).try_counter,
            module.source_file == old(module).source_file,
            forall|i: int| 0 <= i < program.classes@.len() ==> module.class_layouts@.contains_key((#[trigger] program.classes@[i]).name@),
        decreases 16 - e,
    {
        module.class_layouts.insert(exceptions[e].to_owned(), exception_layout());
        e = e + 1;
    }
    let mut c: usize = 0;
    while c < program.classes.len()
        invariant
            c <= program.classes@.len(),
            module.functions == old(module).functions,
            module.try_counter == old(module).try_counter,
            module.source_file == old(module).source_file,
            forall|i: int| 0 <= i < program.classes@.len() ==> module.class_layouts@.contains_key((#[trigger] program.classes@[i]).name@),
            forall|i: int| 0 <= i < c ==> module.class_ids@.contains_key((#[trigger] program.classes@[i]).name@),
        decreases program.classes@.len() - c,
    {
        let class = &program.classes[c];
        let id: i64 = if c < 0x7fff_ffff { (c + 1) as i64 } else { 0x7fff_ffff };
        module.class_ids.insert(class.name.clone(), id);
        let mut ctor_done = false;
        let mut m: usize = 0;
        while m < class.members.len()
            invariant
                module.functions == old(module).functions,
                module.try_counter == old(module).try_counter,
                module.source_file == old(module).source_file,
                forall|i: int| 0 <= i < program.classes@.len() ==> module.class_layouts@.contains_key((#[trigger] program.classes@[i]).name@),
                forall|i: int| 0 <= i <= c ==> module.class_ids@.contains_key((#[trigger] program.classes@[i]).name@),
            decreases class.members@.len() - m,
        {
            match &class.members[m] {
                ClassMember::Constructor { params, .. } => {
                    if !ctor_done {
                        module.ctor_param_types.insert(class.name.clone(), param_types(params));
                        ctor_done = true;
                    }
                },
                ClassMember::Method { decl, is_static, .. } => {
                    if !*is_static {
                        let mangled = mangle(class.name.as_str(), decl.name.as_str());
                        module.method_param_types.insert(mangled, param_types(&decl.params));
                    }
                },
                ClassMember::Const { name, ty, value, .. } => {
                    match value {
                        Expr::Literal(lit, _) => {
                            let key = concat3(class.name.as_str(), "__", name.as_str());
                            module.class_consts.insert(key, (IrType::from_ast(ty), copy_literal(lit)));
                        },
                        _ => {},
                    }
                },
                _ => {},
            }
            m = m + 1;
        }
        c = c + 1;
    }
    let mut en: usize = 0;
    while en < program.enums.len()
        invariant
            en <= program.enums@.len(),
            forall|e: int, w: int| 0 <= e < en && 0 <= w < program.enums@[e].variants@.len()
                && enum_key_unique(program.enums@, e, w)
                ==> #[trigger] enum_recorded(module.class_consts@, program.enums@, e, w),
            module.functions == old(module).functions,
            module.try_counter == old(module).try_counter,
            module.source_file == old(module).source_file,
            forall|i: int| 0 <= i < program.classes@.len() ==> module.class_layouts@.contains_key((#[trigger] program.classes@[i]).name@),
            forall|i: int| 0 <= i < program.classes@.len() ==> module.class_ids@.contains_key((#[trigger] program.classes@[i]).name@),
        decreases program.enums@.len() - en,
    {
        let decl = &program.enums[en];
        let mut next_val: i64 = 0;
        let mut v: usize = 0;
        while v < decl.variants.len()
            invariant
                en < program.enums@.len(),
                *decl == program.enums@[en as int],
                v <= decl.variants@.len(),
                next_val == (if v == 0 { 0 } else { next_enum_value(enum_value(decl.variants@, v - 1)) }),
                forall|e: int, w: int| 0 <= e < en && 0 <= w < program.enums@[e].variants@.len()
                    && enum_key_unique(program.enums@, e, w)
                    ==> #[trigger] enum_recorded(module.class_consts@, program.enums@, e, w),
                forall|w: int| 0 <= w < v && enum_key_unique(program.enums@, en as int, w)
                    ==> #[trigger] enum_recorded(module.class_consts@, program.enums@, en as int, w),
                module.functions == old(module).functions,
                module.try_counter == old(module).try_counter,
                module.source_file == old(module).source_file,
                forall|i: int| 0 <= i < program.classes@.len() ==> module.class_layouts@.contains_key((#[trigger] program.classes@[i]).name@),
                forall|i: int| 0 <= i < program.classes@.len() ==> module.class_ids@.contains_key((#[trigger] program.classes@[i]).name@),
            decreases decl.variants@.len() - v,
        {
            let val = match decl.variants[v].value {
                Some(x) => x,
                None => next_val,
            };
            assert(val == enum_value(decl.variants@, v as int));
            next_val = val.wrapping_add(1);
            let key = concat3(decl.name.as_str(), "__", decl.variants[v].name.as_str());
            let ghost before_ins = module.class_consts@;
            module.class_consts.insert(key, (IrType::I64, Literal::Int(val)));
            proof {
                assert(key@ == enum_key(program.enums@[en as int], v as int));
                assert forall|e: int, w: int| 0 <= e < en && 0 <= w < program.enums@[e].variants@.len()
                    && enum_key_unique(program.enums@, e, w)
                    implies #[trigger] enum_recorded(module.class_consts@, program.enums@, e, w) by {
                    assert(enum_recorded(before_ins, program.enums@, e, w));
                    assert(enum_key(program.enums@[en as int], v as int) != enum_key(program.enums@[e], w));
                }
                assert forall|w: int| 0 <= w < v + 1 && enum_key_unique(program.enums@, en as int, w)
                    implies #[trigger] enum_recorded(module.class_consts@, program.enums@, en as int, w) by {
                    if w < v {
                        assert(enum_recorded(before_ins, program.enums@, en as int, w));
                        assert(enum_key(program.enums@[en as int], v as int) != enum_key(program.enums@[en as int], w));
                    }
                }
            }
            v = v + 1;
        }
        en = en + 1;
    }
    let ghost enum_consts = module.class_consts;
    let mut c: usize = 0;
    while c < program.classes.len()
        invariant
            module.functions == old(module).functions,
            module.try_counter == old(module).try_counter,
            module.class_consts == enum_consts,
            forall|e: int, w: int| 0 <= e < program.enums@.len() && 0 <= w < program.enums@[e].variants@.len()
                && enum_key_unique(program.enums@, e, w)
                ==> #[trigger] enum_recorded(enum_consts@, program.enums@, e, w),
            module.source_file == old(module).source_file,
            forall|i: int| 0 <= i < program.classes@.len() ==> module.class_layouts@.contains_key((#[trigger] program.classes@[i]).name@),
            forall|i: int| 0 <= i < program.classes@.len() ==> module.class_ids@.contains_key((#[trigger] program.classes@[i]).name@),
        decreases program.classes@.len() - c,
    {
        let name = &program.classes[c].name;
        let mut ids: Vec<i64> = Vec::new();
        ids.push(class_id_of(module, name.as_str()));
        let descendants = transitive_descendants(name.as_str(), &program.classes);
        let mut d: usize = 0;
        while d < descendants.len()
            decreases descendants@.len() - d,
        {
            ids.push(class_id_of(module, descendants[d].as_str()));
            d = d + 1;
        }
        module.is_check_candidates.insert(name.clone(), ids);
        c = c + 1;
    }
    let mut f: usize = 0;
    while f < program.interfaces.len()
        invariant
            module.functions == old(module).functions,
            module.try_counter == old(module).try_counter,
            module.class_consts == enum_consts,
            forall|e: int, w: int| 0 <= e < program.enums@.len() && 0 <= w < program.enums@[e].variants@.len()
                && enum_key_unique(program.enums@, e, w)
                ==> #[trigger] enum_recorded(enum_consts@, program.enums@, e, w),
            module.source_file == old(module).source_file,
            forall|i: int| 0 <= i < program.classes@.len() ==> module.class_layouts@.contains_key((#[trigger] program.classes@[i]).name@),
            forall|i: int| 0 <= i < program.classes@.len() ==> module.class_ids@.contains_key((#[trigger] program.classes@[i]).name@),
        decreases program.interfaces@.len() - f,
    {
        let iname = &program.interfaces[f].name;
        let impls = implementers(program, iname.as_str());
        if impls.len() > 0 {
            let mut ids: Vec<i64> = Vec::new();
            let mut k: usize = 0;
            while k < impls.len()
                decreases impls@.len() - k,
            {
                ids.push(class_id_of(module, impls[k].as_str()));
                k = k + 1;
            }
            module.is_check_candidates.insert(iname.clone(), ids);
        }
        f = f + 1;
    }
}

/// The identity of class `name` (0 when unknown).
fn class_id_of(module: &IrModule, name: &str) -> (r: i64)
    ensures
        module.class_ids@.contains_key(name@) ==> r == module.class_ids@[name@],
        !module.class_ids@.contains_key(name@) ==> r == 0,
{
    match module.class_ids.get(name) {
        Some(id) => *id,
        None => 0,
    }
}

/// Return types of the class methods (`Class_method`), of the built-in
/// methods of strings, arrays and maps, and of the methods a class inherits
/// from its direct parent without redefining them.
fn record_method_return_types(program: &Program, fn_ret_types: &mut NameMap<IrType>)
    ensures
        forall|k: Seq<char>| #[trigger] old(fn_ret_types)@.contains_key(k) ==> final(fn_ret_types)@.contains_key(k),
{
    let mut c: usize = 0;
    while c < program.classes.len()
        invariant
            forall|k: Seq<char>| #[trigger] old(fn_ret_types)@.contains_key(k) ==> fn_ret_types@.contains_key(k),
        decreases program.classes@.len() - c,
    {
        let class = &program.classes[c];
        let mut m: usize = 0;
        while m < class.members.len()
            invariant
                forall|k: Seq<char>| #[trigger] old(fn_ret_types)@.contains_key(k) ==> fn_ret_types@.contains_key(k),
            decreases class.members@.len() - m,
        {
            match &class.members[m] {
                ClassMember::Method { decl, .. } => {
                    fn_ret_types.insert(mangle(class.name.as_str(), decl.name.as_str()), IrType::from_ast(&decl.ret_ty));
                },
                _ => {},
            }
            m = m + 1;
        }
        c = c + 1;
    }
    let builtins: [(&str, IrType); 32] = [
        ("String_len", IrType::I64), ("String_upper", IrType::Ptr), ("String_lower", IrType::Ptr),
        ("String_capitalize", IrType::Ptr), ("String_trim", IrType::Ptr), ("String_replace", IrType::Ptr),
        ("String_split", IrType::Ptr), ("String_explode", IrType::Ptr), ("String_between", IrType::Ptr),
        ("String_empty", IrType::Bool),
        ("Array_len", IrType::I64), ("Array_push", IrType::Void), ("Array_pop", IrType::Ptr),
        ("Array_first", IrType::Ptr), ("Array_last", IrType::Ptr), ("Array_contains", IrType::Bool),
        ("Array_indexOf", IrType::I64), ("Array_reverse", IrType::Ptr), ("Array_slice", IrType::Ptr),
        ("Array_join", IrType::Ptr), ("Array_sort", IrType::Ptr), ("Array_get", IrType::Ptr),
        ("Array_set", IrType::Void),
        ("Map_size", IrType::I64), ("Map_has", IrType::Bool), ("Map_get", IrType::Ptr),
        ("Map_set", IrType::Void), ("Map_remove", IrType::Void), ("Map_keys", IrType::Ptr),
        ("Map_values", IrType::Ptr), ("Map_merge", IrType::Ptr), ("Map_isEmpty", IrType::Bool),
    ];
    let mut b: usize = 0;
    while b < 32
        invariant
            forall|k: Seq<char>| #[trigger] old(fn_ret_types)@.contains_key(k) ==> fn_ret_types@.contains_key(k),
        decreases 32 - b,
    {
        fn_ret_types.insert(builtins[b].0.to_owned(), builtins[b].1);
        b = b + 1;
    }
    let mut c: usize = 0;
    while c < program.classes.len()
        invariant
            forall|k: Seq<char>| #[trigger] old(fn_ret_types)@.contains_key(k) ==> fn_ret_types@.contains_key(k),
        decreases program.classes@.len() - c,
    {
        let class = &program.classes[c];
        match &class.extends {
            Some(parent_name) => {
                match class_index(&program.classes, parent_name.as_str()) {
                    Some(pi) => {
                        let parent = &program.classes[pi];
                        let own = own_method_names(class);
                        let mut m: usize = 0;
                        while m < parent.members.len()
                            invariant
                                forall|k: Seq<char>| #[trigger] old(fn_ret_types)@.contains_key(k) ==> fn_ret_types@.contains_key(k),
                            decreases parent.members@.len() - m,
                        {
                            match &parent.members[m] {
                                ClassMember::Method { decl, .. } => {
                                    if !own.contains(decl.name.as_str()) {
                                        let parent_key = mangle(parent_name.as_str(), decl.name.as_str());
                                        match fn_ret_types.get_copy(parent_key.as_str()) {
                                            Some(t) => {
                                                fn_ret_types.insert(mangle(class.name.as_str(), decl.name.as_str()), t);
                                            },
                                            None => {},
                                        }
                                    }
                                },
                                _ => {},
                            }
                            m = m + 1;
                        }
                    },
                    None => {},
                }
            },
            None => {},
        }
        c = c + 1;
    }
}

/// The names of the methods `class` declares.
fn own_method_names(class: &ClassDecl) -> (r: NameSet)
{
    let mut names = NameSet::new();
    let mut m: usize = 0;
    while m < class.members.len()
        decreases class.members@.len() - m,
    {
        match &class.members[m] {
            ClassMember::Method { decl, .. } => {
                names.insert(decl.name.clone());
            },
            _ => {},
        }
        m = m + 1;
    }
    names
}

/// `__fn_wrap_<f>` for every function and static method whose parameter
/// types are known (under its latest binding), so that it can be used as a
/// value; its return type is the recorded one (a word when unknown).
fn generate_function_wrappers(module: &mut IrModule, fn_param_types: &NameMap<Vec<IrType>>, fn_ret_types: &NameMap<IrType>)
    ensures
        functions_grow(*old(module), *final(module)),
{
    let n = fn_param_types.entries.len();
    let mut i: usize = 0;
    while i < n
        invariant
            n == fn_param_types.entries@.len(),
            functions_grow(*old(module), *module),
        decreases n - i,
    {
        let name = &fn_param_types.entries[i].0;
        let mut later = false;
        let mut j: usize = i + 1;
        while j < n
            invariant
                n == fn_param_types.entries@.len(),
            decreases n - j,
        {
            if str_eq(fn_param_types.entries[j].0.as_str(), name.as_str()) {
                later = true;
            }
            j = j + 1;
        }
        if !later {
            let ret_ty = match fn_ret_types.get(name.as_str()) {
                Some(t) => *t,
                None => IrType::I64,
            };
            let wrapper_name = concat("__fn_wrap_", name.as_str());
            generate_wrapper(module, name.as_str(), wrapper_name.as_str(), &fn_param_types.entries[i].1, ret_ty, fn_ret_types);
        }
        i = i + 1;
    }
}

/// Lowers `program` (read from `source_file`) into the module
/// `ocara_module`: the imported module names, the global constants, the
/// class information, then a wrapper for every function usable as a
/// value, every free function (a generator as its two functions; an async
/// function with its task wrapper), every class, the `main` assembled from
/// the runtime blocks, and finally the dispatchers of classes with
/// subclasses and of implemented interfaces and the destructors and
/// copiers of the classes. Every free function of the program is lowered
/// under its name (a generator under its resume function), every method
/// and constructor of a class under `Class_method` / `Class_init` (see
/// `member_function_name`), the runtime blocks as `main`, and every method
/// of an interface that some class implements has its dispatcher
/// `Interface_method`. The module keeps the source file name, and every
/// enum variant is an integer class constant `Enum__Variant` (numbered as
/// `enum_value` says) unless another variant has the same key.
pub fn lower_program(program: &Program, source_file: &str) -> (r: IrModule)
    ensures
        r.source_file@ == source_file@,
        forall|e: int, v: int| 0 <= e < program.enums@.len() && 0 <= v < program.enums@[e].variants@.len()
            && enum_key_unique(program.enums@, e, v)
            ==> #[trigger] enum_recorded(r.class_consts@, program.enums@, e, v),
        forall|i: int| 0 <= i < program.functions@.len() ==>
            has_function_named(r, lowered_name(#[trigger] program.functions@[i])),
        forall|c: int, i: int| 0 <= c < program.classes@.len() && 0 <= i < program.classes@[c].members@.len()
            && member_function_name(program.classes@[c].name@, program.classes@[c].members@[i]) is Some
            ==> has_function_named(r, #[trigger] member_function_name(program.classes@[c].name@,
                program.classes@[c].members@[i]).unwrap()),
        program.runtime_blocks@.len() > 0 ==> has_function_named(r, "main"@),
        forall|f: int, m: int| 0 <= f < program.interfaces@.len() && 0 <= m < program.interfaces@[f].methods@.len()
            && is_implemented(program.classes@, program.interfaces@[f].name@)
            ==> has_function_named(r, #[trigger] mangle_spec(program.interfaces@[f].name@,
                program.interfaces@[f].methods@[m].name@)),
{
    let mut module = IrModule::new("ocara_module");
    module.source_file = source_file.to_owned();
    let mut k: usize = 0;
    while k < program.imports.len()
        invariant
            module.source_file@ == source_file@,
        decreases program.imports@.len() - k,
    {
        let path = &program.imports[k].path;
        if path.len() > 0 {
            module.imports.push(path[path.len() - 1].clone());
        }
        k = k + 1;
    }
    let mut c: usize = 0;
    while c < program.consts.len()
        invariant
            module.source_file@ == source_file@,
        decreases program.consts@.len() - c,
    {
        lower_const_global(&mut module, &program.consts[c]);
        c = c + 1;
    }
    let mut sig = collect_signatures(program);
    record_classes(&mut module, program);
    let ghost recorded = module.class_consts;
    record_method_return_types(program, &mut sig.fn_ret_types);
    register_all_message_funcs(&mut module, program);
    compute_classes_with_subclasses(&mut module, program);
    generate_function_wrappers(&mut module, &sig.fn_param_types, &sig.fn_ret_types);
    let tables = FunctionTables {
        fn_ret_types: &sig.fn_ret_types,
        fn_param_types: &sig.fn_param_types,
        fn_param_names: &sig.fn_param_names,
        fn_variadic_info: &sig.fn_variadic_info,
        async_funcs: &sig.async_funcs,
        consts: &program.consts,
    };
    let mut defaults = sig.func_default_args;
    let mut i: usize = 0;
    while i < program.functions.len()
        invariant
            module.source_file@ == source_file@,
            module.class_consts == recorded,
            forall|e: int, v: int| 0 <= e < program.enums@.len() && 0 <= v < program.enums@[e].variants@.len()
                && enum_key_unique(program.enums@, e, v)
                ==> #[trigger] enum_recorded(recorded@, program.enums@, e, v),
            i <= program.functions@.len(),
            forall|q: int| 0 <= q < i ==> has_function_named(module, lowered_name(#[trigger] program.functions@[q])),
        decreases program.functions@.len() - i,
    {
        let ghost before = module;
        let func = &program.functions[i];
        if is_message_func(&func.ret_ty) {
            lower_message_func(&mut module, func, &tables);
        } else {
            lower_func(&mut module, func, &tables, &mut defaults, None, None);
            let ghost mid = module;
            proof {
                assert(mid.functions@[mid.functions@.len() - 1].name@ == lowered_name(program.functions@[i as int]));
            }
            if func.is_async {
                let param_tys = param_types(&func.params);
                let ret_ty = IrType::from_ast(&func.ret_ty);
                let wrapper_name = concat("__async_wrap_", func.name.as_str());
                generate_async_wrapper(&mut module, func.name.as_str(), wrapper_name.as_str(), &param_tys, ret_ty,
                    &sig.fn_ret_types);
                proof {
                    assert(module.functions@[mid.functions@.len() - 1] == mid.functions@[mid.functions@.len() - 1]);
                }
            }
            proof {
                assert(has_function_named(module, lowered_name(program.functions@[i as int]))) by {
                    let j = mid.functions@.len() - 1;
                    assert(module.functions@[j] == mid.functions@[j]);
                }
            }
        }
        proof {
            if is_message_func_spec(program.functions@[i as int]) {
                assert(has_function_named(module, lowered_name(program.functions@[i as int]))) by {
                    let j = module.functions@.len() - 1;
                    assert(module.functions@[j].name@ == lowered_name(program.functions@[i as int]));
                }
            }
            lemma_lowered_kept(program, i as int, before, module);
        }
        i = i + 1;
    }
    let mut c: usize = 0;
    while c < program.classes.len()
        invariant
            module.source_file@ == source_file@,
            module.class_consts == recorded,
            forall|e: int, v: int| 0 <= e < program.enums@.len() && 0 <= v < program.enums@[e].variants@.len()
                && enum_key_unique(program.enums@, e, v)
                ==> #[trigger] enum_recorded(recorded@, program.enums@, e, v),
            c <= program.classes@.len(),
            forall|q: int| 0 <= q < program.functions@.len() ==>
                has_function_named(module, lowered_name(#[trigger] program.functions@[q])),
            forall|c2: int, i: int| 0 <= c2 < c && 0 <= i < program.classes@[c2].members@.len()
                && member_function_name(program.classes@[c2].name@, program.classes@[c2].members@[i]) is Some
                ==> has_function_named(module, #[trigger] member_function_name(program.classes@[c2].name@,
                    program.classes@[c2].members@[i]).unwrap()),
        decreases program.classes@.len() - c,
    {
        let ghost before = module;
        lower_class(&mut module, &program.classes[c], &program.classes, &program.modules, &tables, &mut defaults);
        proof {
            lemma_lowered_kept(program, program.functions@.len() as int, before, module);
            assert forall|c2: int, i: int| 0 <= c2 < c + 1 && 0 <= i < program.classes@[c2].members@.len()
                && member_function_name(program.classes@[c2].name@, program.classes@[c2].members@[i]) is Some
                implies has_function_named(module, #[trigger] member_function_name(program.classes@[c2].name@,
                    program.classes@[c2].members@[i]).unwrap()) by {
                let nm = member_function_name(program.classes@[c2].name@, program.classes@[c2].members@[i]).unwrap();
                if c2 < c {
                    lemma_has_function_grows(before, module, nm);
                } else {
                    let j = choose|j: int| before.functions@.len() <= j < module.functions@.len()
                        && (#[trigger] module.functions@[j]).name@ == nm;
                }
            }
        }
        c = c + 1;
    }
    let ghost m1 = module;
    lower_runtime_blocks(&mut module, program, &tables, &mut defaults);
    let ghost m2 = module;
    generate_class_dispatchers(&mut module, program);
    let ghost m3 = module;
    generate_interface_dispatchers(&mut module, program);
    let ghost m4 = module;
    generate_class_ownership_functions(&mut module, program);
    proof {
        lemma_lowered_kept(program, program.functions@.len() as int, m1, m2);
        lemma_lowered_kept(program, program.functions@.len() as int, m2, m3);
        lemma_lowered_kept(program, program.functions@.len() as int, m3, m4);
        lemma_lowered_kept(program, program.functions@.len() as int, m4, module);
        assert forall|c2: int, i: int| 0 <= c2 < program.classes@.len() && 0 <= i < program.classes@[c2].members@.len()
            && member_function_name(program.classes@[c2].name@, program.classes@[c2].members@[i]) is Some
            implies has_function_named(module, #[trigger] member_function_name(program.classes@[c2].name@,
                program.classes@[c2].members@[i]).unwrap()) by {
            let nm = member_function_name(program.classes@[c2].name@, program.classes@[c2].members@[i]).unwrap();
            lemma_has_function_grows(m1, m2, nm);
            lemma_has_function_grows(m2, m3, nm);
            lemma_has_function_grows(m3, m4, nm);
            lemma_has_function_grows(m4, module, nm);
        }
        if program.runtime_blocks@.len() > 0 {
            reveal_strlit("main");
            assert(m2.functions@[m2.functions@.len() - 1].name@ == "main"@);
            assert(has_function_named(m2, "main"@));
            lemma_has_function_grows(m2, m3, "main"@);
            lemma_has_function_grows(m3, m4, "main"@);
            lemma_has_function_grows(m4, module, "main"@);
        }
        assert forall|f: int, m: int| 0 <= f < program.interfaces@.len() && 0 <= m < program.interfaces@[f].methods@.len()
            && is_implemented(program.classes@, program.interfaces@[f].name@)
            implies has_function_named(module, #[trigger] mangle_spec(program.interfaces@[f].name@,
                program.interfaces@[f].methods@[m].name@)) by {
            let nm = mangle_spec(program.interfaces@[f].name@, program.interfaces@[f].methods@[m].name@);
            assert(emitted_after(m3.functions@.len() as int, m4, nm));
            lemma_has_function_grows(m4, module, nm);
        }
    }
    module
}

/// A function of the module stays in it when functions are only added.
proof fn lemma_has_function_grows(a: IrModule, b: IrModule, name: Seq<char>)
    requires
        has_function_named(a, name),
        functions_grow(a, b),
    ensures
        has_function_named(b, name),
{
    let j = choose|j: int| 0 <= j < a.functions@.len() && (#[trigger] a.functions@[j]).name@ == name;
    assert(b.functions@[j] == a.functions@[j]);
}

/// `f` is a generator.
pub open spec fn is_message_func_spec(f: FuncDecl) -> bool {
    f.ret_ty is Message
}

} // verus!
