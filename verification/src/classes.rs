//! Lowering of classes: their methods, constructor and constants, the
//! methods mixed in from modules, and the methods inherited along the
//! `extends` chain.
use vstd::prelude::*;
use crate::ast::{ClassDecl, ClassMember, Expr, ModuleDecl, Type};
use crate::builder::functions_grow;
use crate::functions::{const_bytes, const_bytes_spec, lower_func_parts, FunctionTables};
use crate::ir::{IrGlobal, IrModule};
use crate::message_gen::{is_message_func, lower_message_func_parts};
use crate::names::{Duplicate, NameMap, NameSet};
use crate::text::{mangle, mangle_spec, str_eq};

verus! {

/// Some function at position `before_len` or later is named `name`.
pub open spec fn emitted_after(before_len: int, m: IrModule, name: Seq<char>) -> bool {
    exists|j: int| before_len <= j < m.functions@.len() && (#[trigger] m.functions@[j]).name@ == name
}

/// Function name that member `member` of class `class` is lowered under,
/// if it is a method that is not a generator, or the constructor.
pub open spec fn member_function_name(class: Seq<char>, member: ClassMember) -> Option<Seq<char>> {
    match member {
        ClassMember::Method { decl, .. } => if decl.ret_ty is Message {
            Some(mangle_spec(class, decl.name@) + "__resume"@)
        } else {
            Some(mangle_spec(class, decl.name@))
        },
        ClassMember::Constructor { .. } => Some(mangle_spec(class, "init"@)),
        _ => None,
    }
}

/// The index of the first class named `name` in `classes`.
fn find_class(classes: &Vec<ClassDecl>, name: &str) -> (r: Option<usize>)
    ensures
        match r {
            Some(i) => i < classes@.len() && classes@[i as int].name@ == name@
                && forall|k: int| 0 <= k < i ==> (#[trigger] classes@[k]).name@ != name@,
            None => forall|i: int| 0 <= i < classes@.len() ==> (#[trigger] classes@[i]).name@ != name@,
        },
{
    let mut i: usize = 0;
    while i < classes.len()
        invariant
            i <= classes@.len(),
            forall|k: int| 0 <= k < i ==> (#[trigger] classes@[k]).name@ != name@,
        decreases classes@.len() - i,
    {
        if str_eq(classes[i].name.as_str(), name) {
            return Some(i);
        }
        i = i + 1;
    }
    None
}

/// The index of the first module named `name` in `modules`.
fn find_module(modules: &Vec<ModuleDecl>, name: &str) -> (r: Option<usize>)
    ensures
        match r {
            Some(i) => i < modules@.len() && modules@[i as int].name@ == name@,
            None => forall|i: int| 0 <= i < modules@.len() ==> (#[trigger] modules@[i]).name@ != name@,
        },
{
    let mut i: usize = 0;
    while i < modules.len()
        invariant
            i <= modules@.len(),
            forall|k: int| 0 <= k < i ==> (#[trigger] modules@[k]).name@ != name@,
        decreases modules@.len() - i,
    {
        if str_eq(modules[i].name.as_str(), name) {
            return Some(i);
        }
        i = i + 1;
    }
    None
}

/// Adds class constant `Class::NAME` as global `Class__NAME` with its
/// initial bytes (nothing for `null`).
fn lower_class_const(module: &mut IrModule, class_name: &str, name: &str, value: &Expr)
    ensures
        final(module).functions == old(module).functions,
        final(module).try_counter == old(module).try_counter,
        final(module).source_file == old(module).source_file,
        final(module).class_consts == old(module).class_consts,
        final(module).globals@.len() == old(module).globals@.len() + 1,
        final(module).globals@.last().name@ == class_name@ + "__"@ + name@,
        final(module).globals@.last().bytes@ == const_bytes_spec(*value, false),
{
    let bytes = const_bytes(value, false);
    let gname = crate::text::concat3(class_name, "__", name);
    module.add_global(IrGlobal { name: gname, bytes });
}

/// `member` is a method (static or not) named `m`.
pub open spec fn method_named(member: ClassMember, m: Seq<char>) -> bool {
    member is Method && member->Method_decl.name@ == m
}

/// `members` declares a method named `m`.
pub open spec fn declares_method(members: Seq<ClassMember>, m: Seq<char>) -> bool {
    exists|i: int| 0 <= i < members.len() && #[trigger] method_named(members[i], m)
}

/// `p` is the first class of `classes` named `name`.
pub open spec fn first_class_named(classes: Seq<ClassDecl>, name: Seq<char>, p: int) -> bool {
    &&& 0 <= p < classes.len()
    &&& classes[p].name@ == name
    &&& forall|k: int| 0 <= k < p ==> (#[trigger] classes[k]).name@ != name
}

/// Every method of the parent of `class` (the first class bearing the
/// name it extends) that `class` does not declare itself was lowered as
/// `Class_method` after position `base` of `m`.
pub open spec fn inherits_parent_methods(class: ClassDecl, classes: Seq<ClassDecl>, base: int, m: IrModule) -> bool {
    forall|p: int, k: int, n: Seq<char>| class.extends is Some && first_class_named(classes, class.extends->0@, p)
        && 0 <= k < classes[p].members@.len() && #[trigger] method_named(classes[p].members@[k], n)
        && !declares_method(class.members@, n)
        ==> emitted_after(base, m, mangle_spec(class.name@, n))
}

/// Names of the methods that `members` declares.
fn method_names(members: &Vec<ClassMember>) -> (r: NameSet)
    ensures
        forall|i: int| 0 <= i < members@.len() && (#[trigger] members@[i]) is Method
            ==> r@.contains(members@[i]->Method_decl.name@),
        forall|n: Seq<char>| #[trigger] r@.contains(n) ==> declares_method(members@, n),
{
    let mut names = NameSet::new();
    let mut i: usize = 0;
    while i < members.len()
        invariant
            i <= members@.len(),
            forall|k: int| 0 <= k < i && (#[trigger] members@[k]) is Method
                ==> names@.contains(members@[k]->Method_decl.name@),
            forall|n: Seq<char>| #[trigger] names@.contains(n) ==> declares_method(members@, n),
        decreases members@.len() - i,
    {
        match &members[i] {
            ClassMember::Method { decl, .. } => {
                proof {
                    assert(method_named(members@[i as int], decl.name@));
                }
                names.insert(decl.name.clone());
            },
            _ => {},
        }
        i = i + 1;
    }
    names
}

/// Lowers class `class`: each method as `Class_method` (an instance method
/// takes `self` first; a generator becomes its two functions), the
/// constructor as `Class_init` (taking `self` first), each constant as a
/// global `Class__NAME`; then the instance and static methods of the
/// modules it uses that it does not define itself; then, walking up the
/// `extends` chain, each method of an ancestor that no closer class
/// defines, lowered for this class with `self` first. Every function
/// already in the module stays in place.
pub fn lower_class<'a>(
    module: &mut IrModule,
    class: &ClassDecl,
    all_classes: &Vec<ClassDecl>,
    all_modules: &Vec<ModuleDecl>,
    tables: &FunctionTables,
    func_default_args: &mut NameMap<Vec<Option<&'a Expr>>>,
)
    ensures
        functions_grow(*old(module), *final(module)),
        *final(func_default_args) == *old(func_default_args),
        forall|i: int| 0 <= i < class.members@.len() && member_function_name(class.name@, #[trigger] class.members@[i]) is Some
            ==> emitted_after(old(module).functions@.len() as int, *final(module),
                member_function_name(class.name@, class.members@[i]).unwrap()),
        inherits_parent_methods(*class, all_classes@, old(module).functions@.len() as int, *final(module)),
{
    let ghost m0 = *module;
    let ghost base = m0.functions@.len() as int;
    let own_methods = method_names(&class.members);
    let parent = match &class.extends {
        Some(p) => Some(p.as_str()),
        None => None,
    };
    let mut i: usize = 0;
    while i < class.members.len()
        invariant
            i <= class.members@.len(),
            functions_grow(m0, *module),
            *func_default_args == *old(func_default_args),
            base == m0.functions@.len(),
            forall|k: int| 0 <= k < i && member_function_name(class.name@, #[trigger] class.members@[k]) is Some
                ==> emitted_after(base, *module, member_function_name(class.name@, class.members@[k]).unwrap()),
        decreases class.members@.len() - i,
    {
        let ghost before = *module;
        match &class.members[i] {
            ClassMember::Method { decl, is_static, .. } => {
                let mangled = mangle(class.name.as_str(), decl.name.as_str());
                if is_message_func(&decl.ret_ty) {
                    lower_message_func_parts(module, mangled.as_str(), !*is_static, &decl.params, &decl.ret_ty,
                        &decl.body, tables);
                } else {
                    lower_func_parts(module, mangled.as_str(), !*is_static, &decl.params, &decl.ret_ty, &decl.body,
                        tables, func_default_args, Some(class.name.as_str()), parent);
                }
                proof {
                    let j = module.functions@.len() - 1;
                    assert(module.functions@[j].name@ == member_function_name(class.name@, class.members@[i as int]).unwrap());
                    assert(base <= j);
                    assert(emitted_after(base, *module, member_function_name(class.name@, class.members@[i as int]).unwrap()));
                }
            },
            ClassMember::Constructor { params, body, .. } => {
                let init_name = mangle(class.name.as_str(), "init");
                lower_func_parts(module, init_name.as_str(), true, params, &Type::Void, body, tables,
                    func_default_args, Some(class.name.as_str()), parent);
                proof {
                    reveal_strlit("init");
                    let j = module.functions@.len() - 1;
                    assert(module.functions@[j].name@ == member_function_name(class.name@, class.members@[i as int]).unwrap());
                    assert(base <= j);
                    assert(emitted_after(base, *module, member_function_name(class.name@, class.members@[i as int]).unwrap()));
                }
            },
            ClassMember::Const { name, value, .. } => {
                lower_class_const(module, class.name.as_str(), name.as_str(), value);
            },
            ClassMember::Field { .. } => {},
        }
        proof {
            assert forall|k: int| 0 <= k < i && member_function_name(class.name@, #[trigger] class.members@[k]) is Some
                implies emitted_after(base, *module, member_function_name(class.name@, class.members@[k]).unwrap()) by {
                let nm = member_function_name(class.name@, class.members@[k]).unwrap();
                assert(emitted_after(base, before, nm));
                let j = choose|j: int| base <= j < before.functions@.len() && (#[trigger] before.functions@[j]).name@ == nm;
                assert(module.functions@[j] == before.functions@[j]);
                assert(module.functions@[j].name@ == nm);
            }
        }
        i = i + 1;
    }
    let mut mi: usize = 0;
    while mi < class.modules.len()
        invariant
            functions_grow(m0, *module),
            *func_default_args == *old(func_default_args),
            base == m0.functions@.len(),
            forall|k: int| 0 <= k < class.members@.len() && member_function_name(class.name@, #[trigger] class.members@[k]) is Some
                ==> emitted_after(base, *module, member_function_name(class.name@, class.members@[k]).unwrap()),
        decreases class.modules@.len() - mi,
    {
        match find_module(all_modules, class.modules[mi].as_str()) {
            Some(idx) => {
                let mdecl = &all_modules[idx];
                let mut k: usize = 0;
                while k < mdecl.members.len()
                    invariant
                        functions_grow(m0, *module),
                        *func_default_args == *old(func_default_args),
                        base == m0.functions@.len(),
                        forall|q: int| 0 <= q < class.members@.len() && member_function_name(class.name@, #[trigger] class.members@[q]) is Some
                            ==> emitted_after(base, *module, member_function_name(class.name@, class.members@[q]).unwrap()),
                    decreases mdecl.members@.len() - k,
                {
                    let ghost before = *module;
                    match &mdecl.members[k] {
                        ClassMember::Method { decl, is_static, .. } => {
                            if !own_methods.contains(decl.name.as_str()) {
                                let mangled = mangle(class.name.as_str(), decl.name.as_str());
                                if *is_static {
                                    lower_func_parts(module, mangled.as_str(), false, &decl.params, &decl.ret_ty,
                                        &decl.body, tables, func_default_args, None, None);
                                } else {
                                    lower_func_parts(module, mangled.as_str(), true, &decl.params, &decl.ret_ty,
                                        &decl.body, tables, func_default_args, Some(class.name.as_str()), parent);
                                }
                            }
                        },
                        _ => {},
                    }
                    proof {
                        lemma_emitted_kept(class, base, before, *module);
                    }
                    k = k + 1;
                }
            },
            None => {},
        }
        mi = mi + 1;
    }
    let mut already_emitted = own_methods.duplicate();
    let mut current: Option<String> = match &class.extends {
        Some(p) => Some(p.clone()),
        None => None,
    };
    let mut fuel: usize = all_classes.len();
    proof {
        assert forall|n: Seq<char>| #[trigger] already_emitted@.contains(n) implies declares_method(class.members@, n) by {
        }
    }
    while fuel > 0
        invariant
            functions_grow(m0, *module),
            *func_default_args == *old(func_default_args),
            base == m0.functions@.len(),
            forall|k: int| 0 <= k < class.members@.len() && member_function_name(class.name@, #[trigger] class.members@[k]) is Some
                ==> emitted_after(base, *module, member_function_name(class.name@, class.members@[k]).unwrap()),
            fuel <= all_classes@.len(),
            fuel == all_classes@.len() ==> match current {
                Some(c) => class.extends is Some && c@ == class.extends->0@,
                None => class.extends is None,
            },
            forall|n: Seq<char>| #[trigger] already_emitted@.contains(n)
                ==> declares_method(class.members@, n) || emitted_after(base, *module, mangle_spec(class.name@, n)),
            fuel < all_classes@.len() ==> inherits_parent_methods(*class, all_classes@, base, *module),
        ensures
            functions_grow(m0, *module),
            forall|k: int| 0 <= k < class.members@.len() && member_function_name(class.name@, #[trigger] class.members@[k]) is Some
                ==> emitted_after(base, *module, member_function_name(class.name@, class.members@[k]).unwrap()),
            inherits_parent_methods(*class, all_classes@, base, *module),
        decreases fuel,
    {
        let ghost first = fuel == all_classes.len();
        let ghost m_it = *module;
        fuel = fuel - 1;
        let parent_name = match &current {
            Some(p) => p.clone(),
            None => {
                break;
            },
        };
        let pidx = match find_class(all_classes, parent_name.as_str()) {
            Some(x) => x,
            None => {
                break;
            },
        };
        let pdecl = &all_classes[pidx];
        let mut k: usize = 0;
        while k < pdecl.members.len()
            invariant
                functions_grow(m0, *module),
                functions_grow(m_it, *module),
                *func_default_args == *old(func_default_args),
                base == m0.functions@.len(),
                forall|q: int| 0 <= q < class.members@.len() && member_function_name(class.name@, #[trigger] class.members@[q]) is Some
                    ==> emitted_after(base, *module, member_function_name(class.name@, class.members@[q]).unwrap()),
                *pdecl == all_classes@[pidx as int],
                pidx < all_classes@.len(),
                forall|n: Seq<char>| #[trigger] already_emitted@.contains(n)
                    ==> declares_method(class.members@, n) || emitted_after(base, *module, mangle_spec(class.name@, n)),
                first ==> first_class_named(all_classes@, class.extends->0@, pidx as int) && class.extends is Some,
                first ==> forall|q: int, n: Seq<char>| 0 <= q < k && #[trigger] method_named(pdecl.members@[q], n)
                    && !declares_method(class.members@, n) ==> emitted_after(base, *module, mangle_spec(class.name@, n)),
            decreases pdecl.members@.len() - k,
        {
            let ghost before = *module;
            let ghost ae = already_emitted@;
            match &pdecl.members[k] {
                ClassMember::Method { decl, .. } => {
                    if !already_emitted.contains(decl.name.as_str()) {
                        already_emitted.insert(decl.name.clone());
                        let mangled = mangle(class.name.as_str(), decl.name.as_str());
                        lower_func_parts(module, mangled.as_str(), true, &decl.params, &decl.ret_ty, &decl.body,
                            tables, func_default_args, Some(class.name.as_str()), parent);
                        proof {
                            let j = module.functions@.len() - 1;
                            assert(module.functions@[j].name@ == mangle_spec(class.name@, decl.name@));
                            assert(emitted_after(base, *module, mangle_spec(class.name@, decl.name@)));
                        }
                    }
                },
                _ => {},
            }
            proof {
                lemma_emitted_kept(class, base, before, *module);
                assert forall|n: Seq<char>| #[trigger] already_emitted@.contains(n)
                    implies declares_method(class.members@, n) || emitted_after(base, *module, mangle_spec(class.name@, n)) by {
                    if ae.contains(n) && !declares_method(class.members@, n) {
                        lemma_emitted_after_grows(base, before, *module, mangle_spec(class.name@, n));
                    }
                }
                if first {
                    assert forall|q: int, n: Seq<char>| 0 <= q < k + 1 && #[trigger] method_named(pdecl.members@[q], n)
                        && !declares_method(class.members@, n) implies emitted_after(base, *module, mangle_spec(class.name@, n)) by {
                        if q < k {
                            lemma_emitted_after_grows(base, before, *module, mangle_spec(class.name@, n));
                        } else {
                            assert(already_emitted@.contains(n));
                        }
                    }
                }
            }
            k = k + 1;
        }
        proof {
            if first {
                assert forall|p: int, q: int, n: Seq<char>| class.extends is Some && first_class_named(all_classes@, class.extends->0@, p)
                    && 0 <= q < all_classes@[p].members@.len() && #[trigger] method_named(all_classes@[p].members@[q], n)
                    && !declares_method(class.members@, n)
                    implies emitted_after(base, *module, mangle_spec(class.name@, n)) by {
                    if p < pidx {
                        assert(all_classes@[p].name@ != class.extends->0@);
                    } else if p > pidx {
                        assert(all_classes@[pidx as int].name@ != class.extends->0@);
                    }
                }
            } else {
                assert forall|p: int, q: int, n: Seq<char>| class.extends is Some && first_class_named(all_classes@, class.extends->0@, p)
                    && 0 <= q < all_classes@[p].members@.len() && #[trigger] method_named(all_classes@[p].members@[q], n)
                    && !declares_method(class.members@, n)
                    implies emitted_after(base, *module, mangle_spec(class.name@, n)) by {
                    lemma_emitted_after_grows(base, m_it, *module, mangle_spec(class.name@, n));
                }
            }
        }
        current = match &pdecl.extends {
            Some(p) => Some(p.clone()),
            None => None,
        };
    }
}

/// A function emitted after position `base` stays when functions are only
/// added.
proof fn lemma_emitted_after_grows(base: int, a: IrModule, b: IrModule, name: Seq<char>)
    requires
        0 <= base,
        emitted_after(base, a, name),
        functions_grow(a, b),
    ensures
        emitted_after(base, b, name),
{
    let j = choose|j: int| base <= j < a.functions@.len() && (#[trigger] a.functions@[j]).name@ == name;
    assert(b.functions@[j] == a.functions@[j]);
}

/// What was emitted after position `base` stays emitted when the module's
/// functions only grow.
proof fn lemma_emitted_kept(class: &ClassDecl, base: int, before: IrModule, after: IrModule)
    requires
        base >= 0,
        functions_grow(before, after),
        forall|k: int| 0 <= k < class.members@.len() && member_function_name(class.name@, #[trigger] class.members@[k]) is Some
            ==> emitted_after(base, before, member_function_name(class.name@, class.members@[k]).unwrap()),
    ensures
        forall|k: int| 0 <= k < class.members@.len() && member_function_name(class.name@, #[trigger] class.members@[k]) is Some
            ==> emitted_after(base, after, member_function_name(class.name@, class.members@[k]).unwrap()),
{
    assert forall|k: int| 0 <= k < class.members@.len() && member_function_name(class.name@, #[trigger] class.members@[k]) is Some
        implies emitted_after(base, after, member_function_name(class.name@, class.members@[k]).unwrap()) by {
        let nm = member_function_name(class.name@, class.members@[k]).unwrap();
        assert(emitted_after(base, before, nm));
        let j = choose|j: int| base <= j < before.functions@.len() && (#[trigger] before.functions@[j]).name@ == nm;
        assert(base <= j < before.functions@.len());
        assert(after.functions@[j] == before.functions@[j]);
        assert(after.functions@[j].name@ == nm);
    }
}

} // verus!
