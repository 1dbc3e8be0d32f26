//! Destructors and deep copies generated for user classes
//! (`__free_<Class>`, `__clone_<Class>`): a field holding a string, an
//! array or a map is released or copied through the value runtime; a field
//! holding another user class through that class's own functions; a field
//! holding a native resource is closed on release and never shared by a
//! copy (the copy gets 0); any other field is copied as is and not owned.
use vstd::prelude::*;
use crate::ast::{Program, Type};
use crate::builder::LowerBuilder;
use crate::ir::{BlockId, Inst, InstV, IrFunction, IrModule, IrParam, IrType, Value};
use crate::names::NameMap;
use crate::ownership::{opt_str, resource_closer_spec, resource_closer_symbol};
use crate::scope::{monomorphized_name, monomorphized_name_spec, ownership_class, ownership_class_spec, OwnershipClass};
use crate::text::concat;

verus! {

/// A user class (one whose declared field types are recorded) gets a
/// generated destructor and copier; built-in and opaque classes do not.
pub open spec fn has_destructor_spec(module: IrModule, class_name: Seq<char>) -> bool {
    module.class_field_types@.contains_key(class_name)
}

/// True when `class_name` has a generated `__free_`/`__clone_`.
pub fn has_generated_destructor(module: &IrModule, class_name: &str) -> (r: bool)
    ensures
        r == has_destructor_spec(*module, class_name@),
{
    module.class_field_types.contains_key(class_name)
}

/// What releasing or copying an object does with one of its fields.
#[derive(Debug, PartialEq, Eq)]
pub enum FieldOwnership {
    /// A string, array or map.
    Value,
    /// An object of another user class.
    Object(String),
    /// A native resource of the named type.
    Resource(String),
    /// Anything else: not owned by the field.
    Plain,
}

/// The mathematical form of a field's ownership.
pub enum FieldOwnershipV {
    Value,
    Object(Seq<char>),
    Resource(Seq<char>),
    Plain,
}

impl View for FieldOwnership {
    type V = FieldOwnershipV;

    open spec fn view(&self) -> FieldOwnershipV {
        match self {
            FieldOwnership::Value => FieldOwnershipV::Value,
            FieldOwnership::Object(n) => FieldOwnershipV::Object(n@),
            FieldOwnership::Resource(n) => FieldOwnershipV::Resource(n@),
            FieldOwnership::Plain => FieldOwnershipV::Plain,
        }
    }
}

/// How a field of type `ty` is owned, given the user classes of
/// `field_types`; a generic field is an object of its specialised class
/// when that class exists.
pub open spec fn classify_field_spec(ty: Type, field_types: Map<Seq<char>, Vec<(String, Type)>>) -> FieldOwnershipV {
    match ty {
        Type::String | Type::Array(_) | Type::Dict(_, _) => FieldOwnershipV::Value,
        Type::Named(n) => if ownership_class_spec(ty) == OwnershipClass::Resource {
            FieldOwnershipV::Resource(n@)
        } else if field_types.contains_key(n@) {
            FieldOwnershipV::Object(n@)
        } else {
            FieldOwnershipV::Plain
        },
        Type::Generic { name, args } => {
            let specialized = monomorphized_name_spec(name@, args@);
            if field_types.contains_key(specialized) {
                FieldOwnershipV::Object(specialized)
            } else {
                FieldOwnershipV::Plain
            }
        },
        _ => FieldOwnershipV::Plain,
    }
}

/// How a field of type `ty` is owned (see `classify_field_spec`).
pub fn classify_field(ty: &Type, field_types: &NameMap<Vec<(String, Type)>>) -> (r: FieldOwnership)
    ensures
        r@ == classify_field_spec(*ty, field_types@),
{
    match ty {
        Type::String | Type::Array(_) | Type::Dict(_, _) => FieldOwnership::Value,
        Type::Named(n) => {
            if ownership_class(ty) == OwnershipClass::Resource {
                FieldOwnership::Resource(n.clone())
            } else if field_types.contains_key(n.as_str()) {
                FieldOwnership::Object(n.clone())
            } else {
                FieldOwnership::Plain
            }
        },
        Type::Generic { name, args } => {
            let specialized = monomorphized_name(name.as_str(), args);
            if field_types.contains_key(specialized.as_str()) {
                FieldOwnership::Object(specialized)
            } else {
                FieldOwnership::Plain
            }
        },
        _ => FieldOwnership::Plain,
    }
}

/// Emits `if obj == 0 goto end else goto body` and returns `(body, end)`;
/// the end block is left for the caller to complete.
fn emit_null_guard(b: &mut LowerBuilder, obj: Value) -> (r: (BlockId, BlockId))
    requires
        old(b).wf(),
    ensures
        LowerBuilder::kept(old(b), final(b)),
        r.0.0 < final(b).func.code().len(),
        r.1.0 < final(b).func.code().len(),
        r.0.0 == old(b).func.code().len(),
        r.1.0 == old(b).func.code().len() + 1,
        final(b).func.code() == old(b).func.code().update(old(b).func.current as int,
            old(b).func.code()[old(b).func.current as int] + seq![
                InstV::ConstInt { dest: Value(old(b).func.next_value), value: 0 },
                InstV::CmpEq { dest: Value(crate::builder::succ(old(b).func.next_value)), lhs: obj,
                    rhs: Value(old(b).func.next_value), ty: IrType::I64 },
                InstV::Branch { cond: Value(crate::builder::succ(old(b).func.next_value)), then_bb: r.1, else_bb: r.0 },
            ]).push(Seq::<InstV>::empty()).push(Seq::<InstV>::empty()),
        final(b).func.current == old(b).func.current,
{
    let zero = b.new_value();
    b.emit(Inst::ConstInt { dest: zero, value: 0 });
    let is_null = b.new_value();
    b.emit(Inst::CmpEq { dest: is_null, lhs: obj, rhs: zero, ty: IrType::I64 });
    let body_bb = b.new_block();
    let end_bb = b.new_block();
    b.emit(Inst::Branch { cond: is_null, then_bb: end_bb, else_bb: body_bb });
    proof {
        let k = old(b).func.current as int;
        let n0 = old(b).func.next_value;
        let expected_k = old(b).func.code()[k] + seq![
            InstV::ConstInt { dest: Value(n0), value: 0 },
            InstV::CmpEq { dest: Value(crate::builder::succ(n0)), lhs: obj, rhs: Value(n0), ty: IrType::I64 },
            InstV::Branch { cond: Value(crate::builder::succ(n0)), then_bb: end_bb, else_bb: body_bb },
        ];
        assert(b.func.code()[k] =~= expected_k);
        assert(b.func.code() =~= old(b).func.code().update(k, expected_k).push(Seq::<InstV>::empty()).push(Seq::<InstV>::empty()));
    }
    (body_bb, end_bb)
}

/// The IR type of field `idx` in `layout` (a pointer past its end).
fn layout_type(layout: &Vec<(String, IrType)>, idx: usize) -> (r: IrType)
    ensures
        idx < layout@.len() ==> r == layout@[idx as int].1,
        idx >= layout@.len() ==> r == IrType::Ptr,
{
    if idx < layout.len() { layout[idx].1 } else { IrType::Ptr }
}

/// A function over one object parameter `obj` named `name`.
fn object_function(name: String, ret_ty: IrType) -> (r: (LowerBuilder<'static>, Value))
    ensures
        r.0.wf(),
        r.0.func.name == name,
        r.0.func.ret_ty == ret_ty,
        r.0.func.params@.len() == 1,
        r.0.func.params@[0].name@ == "obj"@,
        r.0.func.params@[0].ty == IrType::Ptr,
        r.0.fda_len() == 0,
        r.0.block_scope_stack@.len() == 0,
        r.0.loop_stack@.len() == 0,
        r.0.func.params@[0].slot == r.1,
        r.0.func.code() == seq![Seq::<InstV>::empty()],
        r.0.func.current == 0,
{
    let mut b = LowerBuilder::new(IrModule::new(""), name, Vec::new(), ret_ty);
    let obj = b.new_value();
    let mut params: Vec<IrParam> = Vec::new();
    params.push(IrParam { name: "obj".to_owned(), ty: IrType::Ptr, slot: obj });
    b.func.params = params;
    (b, obj)
}

/// `f` is `__free_<class>` on parameter `obj`: its entry tests `obj`
/// against 0 and branches to block 2 (null: return at once) or to block 1,
/// which releases the owned fields and ends by handing the object and its
/// number of fields `n` to `__object_free` and returning.
pub open spec fn free_shape(f: IrFunction, n: i64) -> bool {
    let obj = f.params@[0].slot;
    let entry = f.code()[0];
    let body = f.code()[1];
    let k = body.len() as int;
    &&& f.code().len() == 3
    &&& entry.len() == 3
    &&& entry[0] is ConstInt && entry[0]->ConstInt_value == 0
    &&& entry[1] == (InstV::CmpEq { dest: entry[1]->CmpEq_dest, lhs: obj, rhs: entry[0]->ConstInt_dest, ty: IrType::I64 })
    &&& entry[2] == (InstV::Branch { cond: entry[1]->CmpEq_dest, then_bb: BlockId(2), else_bb: BlockId(1) })
    &&& k >= 3
    &&& body[k - 3] is ConstInt && body[k - 3]->ConstInt_value == n
    &&& body[k - 2] == (InstV::Call { dest: None, func: "__object_free"@, args: seq![obj, body[k - 3]->ConstInt_dest],
        ret_ty: IrType::Void })
    &&& body[k - 1] == (InstV::Return { value: None })
    &&& f.code()[2] == seq![InstV::Return { value: None }]
}

/// The number of fields `__free_<class>` hands to `__object_free`: the
/// length of the class's layout (capped).
pub open spec fn free_field_count(module: IrModule, class_name: Seq<char>) -> i64 {
    let n = if module.class_layouts@.contains_key(class_name) { module.class_layouts@[class_name]@.len() } else { 0 };
    if n < 0x1000_0000 { n as i64 } else { 0x1000_0000 }
}

/// `__free_<class>(obj)`: nothing for a null object; otherwise releases
/// each owned field (see `classify_field`), then the object's block
/// itself (`__object_free` with its number of fields).
pub fn build_free_function(module: &IrModule, class_name: &str) -> (r: IrFunction)
    ensures
        r.name@ == "__free_"@ + class_name@,
        r.ret_ty == IrType::Void,
        r.params@.len() == 1,
        r.params@[0].name@ == "obj"@,
        r.params@[0].ty == IrType::Ptr,
        free_shape(r, free_field_count(*module, class_name@)),
{
    let (mut b, obj) = object_function(concat("__free_", class_name), IrType::Void);
    let ghost sig = b;
    let (body_bb, end_bb) = emit_null_guard(&mut b, obj);
    let ghost entry = b.func.code()[0];
    b.switch_to(&body_bb);
    let empty_fields: Vec<(String, Type)> = Vec::new();
    let empty_layout: Vec<(String, IrType)> = Vec::new();
    let field_types = match module.class_field_types.get(class_name) {
        Some(f) => f,
        None => &empty_fields,
    };
    let layout = match module.class_layouts.get(class_name) {
        Some(l) => l,
        None => &empty_layout,
    };
    let mut idx: usize = 0;
    while idx < field_types.len()
        invariant
            b.wf(),
            LowerBuilder::same_signature(&sig, &b),
            end_bb.0 < b.func.code().len(),
            end_bb.0 == 2,
            b.func.current == 1,
            b.func.code().len() == 3,
            b.func.code()[0] == entry,
            b.func.code()[2] == Seq::<InstV>::empty(),
        decreases field_types@.len() - idx,
    {
        let fname = &field_types[idx].0;
        let offset = crate::builder::slot_offset(idx);
        let ir_ty = layout_type(layout, idx);
        match classify_field(&field_types[idx].1, &module.class_field_types) {
            FieldOwnership::Value => {
                let v = b.new_value();
                b.emit(Inst::GetField { dest: v, obj, field: fname.clone(), ty: ir_ty, offset });
                let mut args: Vec<Value> = Vec::new();
                args.push(v);
                b.emit(Inst::Call { dest: None, func: "__value_free".to_owned(), args, ret_ty: IrType::Void });
            },
            FieldOwnership::Object(other) => {
                let v = b.new_value();
                b.emit(Inst::GetField { dest: v, obj, field: fname.clone(), ty: ir_ty, offset });
                let mut args: Vec<Value> = Vec::new();
                args.push(v);
                b.emit(Inst::Call { dest: None, func: concat("__free_", other.as_str()), args, ret_ty: IrType::Void });
            },
            FieldOwnership::Resource(ty_name) => {
                match resource_closer_symbol(ty_name.as_str()) {
                    Some(closer) => {
                        let v = b.new_value();
                        b.emit(Inst::GetField { dest: v, obj, field: fname.clone(), ty: ir_ty, offset });
                        let mut args: Vec<Value> = Vec::new();
                        args.push(v);
                        b.emit(Inst::Call { dest: None, func: closer, args, ret_ty: IrType::Void });
                    },
                    None => {},
                }
            },
            FieldOwnership::Plain => {},
        }
        idx = idx + 1;
    }
    let n_fields: i64 = if layout.len() < 0x1000_0000 { layout.len() as i64 } else { 0x1000_0000 };
    let n_val = b.new_value();
    b.emit(Inst::ConstInt { dest: n_val, value: n_fields });
    let mut args: Vec<Value> = Vec::new();
    args.push(obj);
    args.push(n_val);
    let ghost before_tail = b.func.code()[1];
    let ghost call = InstV::Call { dest: None, func: "__object_free"@, args: seq![obj, n_val], ret_ty: IrType::Void };
    proof {
        assert(args@ =~= seq![obj, n_val]);
    }
    b.emit(Inst::Call { dest: None, func: "__object_free".to_owned(), args, ret_ty: IrType::Void });
    proof {
        assert(b.func.code()[1] =~= before_tail.push(call));
    }
    b.emit(Inst::Return { value: None });
    let ghost body_done = b.func.code()[1];
    b.switch_to(&end_bb);
    b.emit(Inst::Return { value: None });
    proof {
        assert(body_done == before_tail + seq![
            InstV::Call { dest: None, func: "__object_free"@, args: seq![obj, n_val], ret_ty: IrType::Void },
            InstV::Return { value: None },
        ]);
        assert(b.func.code()[1] == body_done);
        assert(b.func.code()[2] =~= seq![InstV::Return { value: None }]);
        assert(n_fields == free_field_count(*module, class_name@));
    }
    b.func
}

/// `__clone_<class>(obj)`: 0 for a null object; otherwise a new object of
/// the class whose fields are copies of the original's (see
/// `classify_field`: owned values and objects are deep-copied, a resource
/// field starts at 0, anything else is copied as is).
pub fn build_clone_function(module: &IrModule, class_name: &str) -> (r: IrFunction)
    ensures
        r.name@ == "__clone_"@ + class_name@,
        r.ret_ty == IrType::Ptr,
        r.params@.len() == 1,
        r.params@[0].name@ == "obj"@,
        r.params@[0].ty == IrType::Ptr,
{
    let (mut b, obj) = object_function(concat("__clone_", class_name), IrType::Ptr);
    let ghost sig = b;
    let (body_bb, end_bb) = emit_null_guard(&mut b, obj);
    b.switch_to(&body_bb);
    let new_obj = b.new_value();
    b.emit(Inst::Alloc { dest: new_obj, class: class_name.to_owned() });
    let empty_fields: Vec<(String, Type)> = Vec::new();
    let empty_layout: Vec<(String, IrType)> = Vec::new();
    let field_types = match module.class_field_types.get(class_name) {
        Some(f) => f,
        None => &empty_fields,
    };
    let layout = match module.class_layouts.get(class_name) {
        Some(l) => l,
        None => &empty_layout,
    };
    let mut idx: usize = 0;
    while idx < field_types.len()
        invariant
            b.wf(),
            LowerBuilder::same_signature(&sig, &b),
            end_bb.0 < b.func.code().len(),
        decreases field_types@.len() - idx,
    {
        let fname = &field_types[idx].0;
        let offset = crate::builder::slot_offset(idx);
        let ir_ty = layout_type(layout, idx);
        let src = b.new_value();
        b.emit(Inst::GetField { dest: src, obj, field: fname.clone(), ty: ir_ty, offset });
        let to_store = match classify_field(&field_types[idx].1, &module.class_field_types) {
            FieldOwnership::Value => {
                let cloned = b.new_value();
                let mut args: Vec<Value> = Vec::new();
                args.push(src);
                b.emit(Inst::Call { dest: Some(cloned), func: "__value_clone".to_owned(), args, ret_ty: IrType::Ptr });
                cloned
            },
            FieldOwnership::Object(other) => {
                let cloned = b.new_value();
                let mut args: Vec<Value> = Vec::new();
                args.push(src);
                b.emit(Inst::Call { dest: Some(cloned), func: concat("__clone_", other.as_str()), args, ret_ty: IrType::Ptr });
                cloned
            },
            FieldOwnership::Resource(_) => {
                let zero = b.new_value();
                b.emit(Inst::ConstInt { dest: zero, value: 0 });
                zero
            },
            FieldOwnership::Plain => src,
        };
        b.emit(Inst::SetField { obj: new_obj, field: fname.clone(), src: to_store, offset });
        idx = idx + 1;
    }
    b.emit(Inst::Return { value: Some(new_obj) });
    b.switch_to(&end_bb);
    let zero_ret = b.new_value();
    b.emit(Inst::ConstInt { dest: zero_ret, value: 0 });
    b.emit(Inst::Return { value: Some(zero_ret) });
    b.func
}

/// Adds `__free_<C>` then `__clone_<C>` for each class `C` of the program,
/// in order, after the module's functions; each `__free_<C>` has the shape
/// `free_shape` describes. The class layouts and field types must already
/// be recorded for every class.
pub fn generate_class_ownership_functions(module: &mut IrModule, program: &Program)
    ensures
        final(module).functions@.len() == old(module).functions@.len() + 2 * program.classes@.len(),
        crate::builder::functions_grow(*old(module), *final(module)),
        forall|i: int| 0 <= i < program.classes@.len() ==> {
            &&& (#[trigger] final(module).functions@[old(module).functions@.len() + 2 * i]).name@
                == "__free_"@ + program.classes@[i].name@
            &&& free_shape(final(module).functions@[old(module).functions@.len() + 2 * i],
                free_field_count(*old(module), program.classes@[i].name@))
            &&& final(module).functions@[old(module).functions@.len() + 2 * i + 1].name@
                == "__clone_"@ + program.classes@[i].name@
        },
{
    let ghost base = old(module).functions@.len() as int;
    let mut c: usize = 0;
    while c < program.classes.len()
        invariant
            c <= program.classes@.len(),
            base == old(module).functions@.len(),
            module.functions@.len() == base + 2 * c,
            crate::builder::functions_grow(*old(module), *module),
            module.class_field_types == old(module).class_field_types,
            module.class_layouts == old(module).class_layouts,
            forall|i: int| 0 <= i < c ==> {
                &&& (#[trigger] module.functions@[base + 2 * i]).name@ == "__free_"@ + program.classes@[i].name@
                &&& free_shape(module.functions@[base + 2 * i], free_field_count(*old(module), program.classes@[i].name@))
                &&& module.functions@[base + 2 * i + 1].name@ == "__clone_"@ + program.classes@[i].name@
            },
        decreases program.classes@.len() - c,
    {
        let ghost before = module.functions@;
        let free_fn = build_free_function(module, program.classes[c].name.as_str());
        module.add_function(free_fn);
        let clone_fn = build_clone_function(module, program.classes[c].name.as_str());
        module.add_function(clone_fn);
        proof {
            assert forall|i: int| 0 <= i < c + 1 implies {
                &&& (#[trigger] module.functions@[base + 2 * i]).name@ == "__free_"@ + program.classes@[i].name@
                &&& free_shape(module.functions@[base + 2 * i], free_field_count(*old(module), program.classes@[i].name@))
                &&& module.functions@[base + 2 * i + 1].name@ == "__clone_"@ + program.classes@[i].name@
            } by {
                if i < c {
                    assert(module.functions@[base + 2 * i] == before[base + 2 * i]);
                    assert(module.functions@[base + 2 * i + 1] == before[base + 2 * i + 1]);
                }
            }
        }
        c = c + 1;
    }
}

} // verus!
