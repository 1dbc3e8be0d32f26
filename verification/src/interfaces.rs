//! Dynamic dispatch for interfaces: a call of `d.method(...)` on a variable
//! typed by an interface goes to `Interface_method`, which calls the
//! implementation of the class the object actually belongs to.
use vstd::prelude::*;
use crate::ast::{ClassDecl, InterfaceMethod, Program};
use crate::builder::{functions_grow, LowerBuilder};
use crate::class_dispatch::{emit_class_id_dispatch, forwards_to};
use crate::classes::emitted_after;
use crate::ir::{IrModule, IrParam, IrType, Value, ir_type_of};
use crate::text::{mangle, mangle_spec, str_eq};

verus! {

/// Class `c` declares that it implements the interface named `iface`.
pub open spec fn implements_spec(c: ClassDecl, iface: Seq<char>) -> bool {
    exists|k: int| 0 <= k < c.implements@.len() && (#[trigger] c.implements@[k])@ == iface
}

fn implements(c: &ClassDecl, iface: &str) -> (r: bool)
    ensures
        r == implements_spec(*c, iface@),
{
    let mut k: usize = 0;
    while k < c.implements.len()
        invariant
            k <= c.implements@.len(),
            forall|j: int| 0 <= j < k ==> (#[trigger] c.implements@[j])@ != iface@,
        decreases c.implements@.len() - k,
    {
        if str_eq(c.implements[k].as_str(), iface) {
            return true;
        }
        k = k + 1;
    }
    false
}

/// Some class of `classes` named `name` declares `implements iface`.
pub open spec fn is_implementer_name(classes: Seq<ClassDecl>, iface: Seq<char>, name: Seq<char>) -> bool {
    exists|i: int| 0 <= i < classes.len() && implements_spec(#[trigger] classes[i], iface) && classes[i].name@ == name
}

/// The names of the classes that declare `implements iface` themselves, in
/// declaration order (a subclass that does not repeat the declaration is
/// not a candidate: its signature was never checked against the
/// interface).
pub fn implementers(program: &Program, iface: &str) -> (r: Vec<String>)
    ensures
        r@.len() <= program.classes@.len(),
        forall|k: int| 0 <= k < r@.len() ==> is_implementer_name(program.classes@, iface@, (#[trigger] r@[k])@),
        forall|i: int| 0 <= i < program.classes@.len() && implements_spec(#[trigger] program.classes@[i], iface@)
            ==> exists|k: int| 0 <= k < r@.len() && (#[trigger] r@[k])@ == program.classes@[i].name@,
{
    let mut out: Vec<String> = Vec::new();
    let mut c: usize = 0;
    while c < program.classes.len()
        invariant
            c <= program.classes@.len(),
            out@.len() <= c,
            forall|k: int| 0 <= k < out@.len() ==> is_implementer_name(program.classes@, iface@, (#[trigger] out@[k])@),
            forall|i: int| 0 <= i < c && implements_spec(#[trigger] program.classes@[i], iface@)
                ==> exists|k: int| 0 <= k < out@.len() && (#[trigger] out@[k])@ == program.classes@[i].name@,
        decreases program.classes@.len() - c,
    {
        if implements(&program.classes[c], iface) {
            let ghost before = out@;
            out.push(program.classes[c].name.clone());
            proof {
                assert(out@[out@.len() - 1]@ == program.classes@[c as int].name@);
                assert forall|k: int| 0 <= k < out@.len() implies
                    is_implementer_name(program.classes@, iface@, (#[trigger] out@[k])@) by {
                    if k < before.len() {
                        assert(out@[k] == before[k]);
                    } else {
                        assert(implements_spec(program.classes@[c as int], iface@));
                    }
                }
                assert forall|i: int| 0 <= i < c + 1 && implements_spec(#[trigger] program.classes@[i], iface@)
                    implies exists|k: int| 0 <= k < out@.len() && (#[trigger] out@[k])@ == program.classes@[i].name@ by {
                    if i < c {
                        let k = choose|k: int| 0 <= k < before.len() && (#[trigger] before[k])@ == program.classes@[i].name@;
                        assert(out@[k] == before[k]);
                    } else {
                        assert(out@[out@.len() - 1]@ == program.classes@[i].name@);
                    }
                }
            }
        }
        c = c + 1;
    }
    out
}

/// `Interface_method(self, params...)`: calls `Class_method` for the
/// implementing class that `self` belongs to, a neutral value when none
/// matches.
fn generate_one_dispatcher(module: &mut IrModule, iface_name: &str, method: &InterfaceMethod, implementers: &Vec<String>)
    ensures
        final(module).functions@ == old(module).functions@.push(final(module).functions@.last()),
        final(module).functions@.last().name@ == mangle_spec(iface_name@, method.name@),
        final(module).functions@.last().ret_ty == ir_type_of(method.ret_ty),
        final(module).functions@.last().params@.len() == method.params@.len() + 1,
        forall|k: int| 0 <= k < implementers@.len() ==> forwards_to(final(module).functions@.last().code()[1 + 2 * k], 0,
            mangle_spec(implementers@[k]@, method.name@), final(module).functions@.last().params@[0].slot,
            method.params@.len()),
        final(module).class_ids == old(module).class_ids,
        final(module).try_counter == old(module).try_counter,
        final(module).source_file == old(module).source_file,
        final(module).class_consts == old(module).class_consts,
{
    let ret_ty = IrType::from_ast(&method.ret_ty);
    let mut b = LowerBuilder::new(IrModule::new(""), mangle(iface_name, method.name.as_str()), Vec::new(), ret_ty);
    let self_val = b.new_value();
    let mut params: Vec<IrParam> = Vec::new();
    params.push(IrParam { name: "self".to_owned(), ty: IrType::Ptr, slot: self_val });
    let mut arg_vals: Vec<Value> = Vec::new();
    let mut i: usize = 0;
    while i < method.params.len()
        invariant
            b.wf(),
            b.func.name@ == mangle_spec(iface_name@, method.name@),
            b.func.ret_ty == ret_ty,
            b.func.code().len() == 1,
            i <= method.params@.len(),
            params@.len() == i + 1,
            arg_vals@.len() == i,
            params@[0].slot == self_val,
        decreases method.params@.len() - i,
    {
        let v = b.new_value();
        params.push(IrParam { name: method.params[i].name.clone(), ty: IrType::from_ast(&method.params[i].ty), slot: v });
        arg_vals.push(v);
        i = i + 1;
    }
    b.func.params = params;
    emit_class_id_dispatch(&mut b, implementers, method.name.as_str(), &module.class_ids, self_val, &arg_vals, ret_ty);
    module.add_function(b.func);
}

/// For every interface that at least one class implements, a dispatcher
/// for each of its methods; every function already in the module stays in
/// place.
pub fn generate_interface_dispatchers(module: &mut IrModule, program: &Program)
    ensures
        functions_grow(*old(module), *final(module)),
        forall|f: int, m: int| 0 <= f < program.interfaces@.len() && 0 <= m < program.interfaces@[f].methods@.len()
            && is_implemented(program.classes@, program.interfaces@[f].name@)
            ==> #[trigger] emitted_after(old(module).functions@.len() as int, *final(module),
                mangle_spec(program.interfaces@[f].name@, program.interfaces@[f].methods@[m].name@)),
{
    let ghost n0 = old(module).functions@.len() as int;
    let mut f: usize = 0;
    while f < program.interfaces.len()
        invariant
            functions_grow(*old(module), *module),
            n0 == old(module).functions@.len(),
            f <= program.interfaces@.len(),
            forall|g: int, m: int| 0 <= g < f && 0 <= m < program.interfaces@[g].methods@.len()
                && is_implemented(program.classes@, program.interfaces@[g].name@)
                ==> #[trigger] emitted_after(n0, *module,
                    mangle_spec(program.interfaces@[g].name@, program.interfaces@[g].methods@[m].name@)),
        decreases program.interfaces@.len() - f,
    {
        let iface = &program.interfaces[f];
        let impls = implementers(program, iface.name.as_str());
        let ghost mf = *module;
        if impls.len() > 0 {
            let mut m: usize = 0;
            while m < iface.methods.len()
                invariant
                    functions_grow(*old(module), *module),
                    functions_grow(mf, *module),
                    n0 == old(module).functions@.len(),
                    m <= iface.methods@.len(),
                    forall|k: int| 0 <= k < m ==>
                        #[trigger] emitted_after(n0, *module, mangle_spec(iface.name@, iface.methods@[k].name@)),
                decreases iface.methods@.len() - m,
            {
                let ghost before = *module;
                generate_one_dispatcher(module, iface.name.as_str(), &iface.methods[m], &impls);
                proof {
                    assert forall|k: int| 0 <= k < m + 1 implies
                        #[trigger] emitted_after(n0, *module, mangle_spec(iface.name@, iface.methods@[k].name@)) by {
                        if k < m {
                            lemma_emitted_after_grows(n0, before, *module, mangle_spec(iface.name@, iface.methods@[k].name@));
                        } else {
                            assert(module.functions@[module.functions@.len() - 1].name@
                                == mangle_spec(iface.name@, iface.methods@[k].name@));
                        }
                    }
                }
                m = m + 1;
            }
        } else {
            proof {
                if is_implemented(program.classes@, iface.name@) {
                    let i = choose|i: int| 0 <= i < program.classes@.len() && #[trigger] implements_spec(program.classes@[i], iface.name@);
                    assert(exists|k: int| 0 <= k < impls@.len() && (#[trigger] impls@[k])@ == program.classes@[i].name@);
                }
            }
        }
        proof {
            assert forall|g: int, m: int| 0 <= g < f + 1 && 0 <= m < program.interfaces@[g].methods@.len()
                && is_implemented(program.classes@, program.interfaces@[g].name@)
                implies #[trigger] emitted_after(n0, *module,
                    mangle_spec(program.interfaces@[g].name@, program.interfaces@[g].methods@[m].name@)) by {
                if g < f {
                    lemma_emitted_after_grows(n0, mf, *module,
                        mangle_spec(program.interfaces@[g].name@, program.interfaces@[g].methods@[m].name@));
                }
            }
        }
        f = f + 1;
    }
}

/// Some class of `classes` declares that it implements `iface`.
pub open spec fn is_implemented(classes: Seq<ClassDecl>, iface: Seq<char>) -> bool {
    exists|i: int| 0 <= i < classes.len() && #[trigger] implements_spec(classes[i], iface)
}

/// A function emitted after position `n` stays there when functions are
/// only added.
proof fn lemma_emitted_after_grows(n: int, a: IrModule, b: IrModule, name: Seq<char>)
    requires
        0 <= n,
        emitted_after(n, a, name),
        functions_grow(a, b),
    ensures
        emitted_after(n, b, name),
{
    let j = choose|j: int| n <= j < a.functions@.len() && (#[trigger] a.functions@[j]).name@ == name;
    assert(b.functions@[j] == a.functions@[j]);
}

} // verus!
