//! `ui.handler(name, Class::method)` and `ui.handlers({name: Class::method,
//! ...})` on a Tauri window: for each handler, a trampoline
//! `__tauri_handler_<n>(json) -> ptr` that checks that the JSON object it
//! receives has a value of the right type under each parameter's name,
//! decodes them, calls the method and wraps its result (`{"ok":true,...}`),
//! or answers `{"ok":false,"error":...}` without calling it; the call site
//! registers the trampoline under the name. Supported parameter and result
//! types: int, float, bool, string (and void results).
use vstd::prelude::*;
use crate::ast::{Expr, Stmt};
use crate::builder::{functions_grow, LowerBuilder};
use crate::ir::{Inst, IrFunction, IrModule, IrParam, IrType, Value};
use crate::lower::lower_expr;
use crate::text::{concat, concat3, decimal_spec, mangle, str_eq, with_number};

verus! {

/// Types a JS handler can take or return.
pub open spec fn is_supported_handler_type_spec(t: IrType) -> bool {
    t == IrType::I64 || t == IrType::F64 || t == IrType::Bool || t == IrType::Ptr
}

fn is_supported_handler_type(t: IrType) -> (r: bool)
    ensures
        r == is_supported_handler_type_spec(t),
{
    match t {
        IrType::I64 | IrType::F64 | IrType::Bool | IrType::Ptr => true,
        _ => false,
    }
}

/// The JSON array of the parameter names, `["a","b"]` (names are plain
/// identifiers: nothing to escape).
pub open spec fn string_array_json_spec(names: Seq<String>) -> Seq<char>
    decreases names.len(),
{
    if names.len() == 0 {
        "[]"@
    } else {
        "["@ + json_items_spec(names) + "]"@
    }
}

/// `"a","b"` for a non-empty list of names.
pub open spec fn json_items_spec(names: Seq<String>) -> Seq<char>
    decreases names.len(),
{
    if names.len() <= 1 {
        if names.len() == 1 { "\""@ + names[0]@ + "\""@ } else { Seq::empty() }
    } else {
        json_items_spec(names.drop_last()) + ","@ + "\""@ + names.last()@ + "\""@
    }
}

/// The JSON array of the parameter names (see `string_array_json_spec`).
pub fn serde_json_like_string_array(names: &Vec<String>) -> (r: String)
    ensures
        r@ == string_array_json_spec(names@),
{
    if names.len() == 0 {
        return "[]".to_owned();
    }
    let mut items = concat3("\"", names[0].as_str(), "\"");
    let mut i: usize = 1;
    while i < names.len()
        invariant
            1 <= i <= names@.len(),
            items@ == json_items_spec(names@.subrange(0, i as int)),
        decreases names@.len() - i,
    {
        let quoted = concat3("\"", names[i].as_str(), "\"");
        let with_comma = concat(items.as_str(), ",");
        items = concat(with_comma.as_str(), quoted.as_str());
        proof {
            let s = names@.subrange(0, i + 1);
            assert(s.drop_last() =~= names@.subrange(0, i as int));
            assert(s.last() == names@[i as int]);
            assert(items@ =~= json_items_spec(s));
        }
        i = i + 1;
    }
    proof {
        assert(names@.subrange(0, names@.len() as int) =~= names@);
    }
    concat3("[", items.as_str(), "]")
}

/// The runtime functions testing and reading a JSON value of type `t`.
pub open spec fn is_getter_fn_spec(t: IrType) -> (Seq<char>, Seq<char>) {
    match t {
        IrType::I64 => ("__tauri_obj_is_int"@, "__tauri_obj_get_int"@),
        IrType::F64 => ("__tauri_obj_is_float"@, "__tauri_obj_get_float"@),
        IrType::Bool => ("__tauri_obj_is_bool"@, "__tauri_obj_get_bool"@),
        _ => ("__tauri_obj_is_string"@, "__tauri_obj_get_string"@),
    }
}

fn is_getter_fn(t: IrType) -> (r: (&'static str, &'static str))
    ensures
        (r.0@, r.1@) == is_getter_fn_spec(t),
{
    match t {
        IrType::I64 => ("__tauri_obj_is_int", "__tauri_obj_get_int"),
        IrType::F64 => ("__tauri_obj_is_float", "__tauri_obj_get_float"),
        IrType::Bool => ("__tauri_obj_is_bool", "__tauri_obj_get_bool"),
        _ => ("__tauri_obj_is_string", "__tauri_obj_get_string"),
    }
}

/// The runtime function wrapping a successful result of type `t`.
pub open spec fn ok_fn_spec(t: IrType) -> Seq<char> {
    match t {
        IrType::I64 => "__tauri_ok_int"@,
        IrType::F64 => "__tauri_ok_float"@,
        IrType::Bool => "__tauri_ok_bool"@,
        _ => "__tauri_ok_string"@,
    }
}

fn ok_fn_for(t: IrType) -> (r: &'static str)
    ensures
        r@ == ok_fn_spec(t),
{
    match t {
        IrType::I64 => "__tauri_ok_int",
        IrType::F64 => "__tauri_ok_float",
        IrType::Bool => "__tauri_ok_bool",
        _ => "__tauri_ok_string",
    }
}

/// The name of type `t` in error messages.
pub open spec fn type_label_spec(t: IrType) -> Seq<char> {
    match t {
        IrType::I64 => "int"@,
        IrType::F64 => "float"@,
        IrType::Bool => "bool"@,
        _ => "string"@,
    }
}

fn ir_type_label(t: IrType) -> (r: &'static str)
    ensures
        r@ == type_label_spec(t),
{
    match t {
        IrType::I64 => "int",
        IrType::F64 => "float",
        IrType::Bool => "bool",
        _ => "string",
    }
}

/// Returns the error envelope of message `msg`.
fn emit_error_return(tb: &mut LowerBuilder, msg: &str)
    requires
        old(tb).wf(),
    ensures
        LowerBuilder::kept(old(tb), final(tb)),
        final(tb).module.functions == old(tb).module.functions,
        final(tb).module.try_counter == old(tb).module.try_counter,
        final(tb).module.source_file == old(tb).module.source_file,
        final(tb).module.class_consts == old(tb).module.class_consts,
{
    let idx = tb.module.intern_string(msg);
    let msg_val = tb.new_value();
    tb.emit(Inst::ConstStr { dest: msg_val, idx });
    let err_val = tb.new_value();
    let mut args: Vec<Value> = Vec::new();
    args.push(msg_val);
    tb.emit(Inst::Call { dest: Some(err_val), func: "__tauri_err".to_owned(), args, ret_ty: IrType::Ptr });
    tb.emit(Inst::Return { value: Some(err_val) });
}

/// The trampoline `trampoline_name(__json) -> ptr` of `target_fn` (see the
/// module's documentation); the module only gains interned strings.
fn generate_trampoline(
    module: &mut IrModule,
    trampoline_name: String,
    target_fn: &str,
    param_types: &Vec<IrType>,
    param_names: &Vec<String>,
    ret_ty: IrType,
) -> (r: IrFunction)
    requires
        param_types@.len() == param_names@.len(),
    ensures
        r.name == trampoline_name,
        r.ret_ty == IrType::Ptr,
        r.params@.len() == 1,
        r.params@[0].name@ == "__json"@,
        r.params@[0].ty == IrType::Ptr,
        final(module).functions == old(module).functions,
        final(module).try_counter == old(module).try_counter,
        final(module).source_file == old(module).source_file,
        final(module).class_consts == old(module).class_consts,
{
    let mut ir_params: Vec<IrParam> = Vec::new();
    ir_params.push(IrParam { name: "__json".to_owned(), ty: IrType::Ptr, slot: Value(0) });
    let mut placeholder = IrModule::new("");
    std::mem::swap(module, &mut placeholder);
    let ghost m0 = placeholder;
    let mut tb = LowerBuilder::new(placeholder, trampoline_name, ir_params, IrType::Ptr);
    let json_slot = tb.declare_local("__json", IrType::Ptr, false);
    let json_recv = tb.new_value();
    tb.emit(Inst::Store { ptr: json_slot, src: json_recv });
    let mut params: Vec<IrParam> = Vec::new();
    params.push(IrParam { name: "__json".to_owned(), ty: IrType::Ptr, slot: json_recv });
    tb.func.params = params;
    let ghost sig = tb;
    let mut type_ok = tb.new_value();
    tb.emit(Inst::ConstInt { dest: type_ok, value: 1 });
    let mut i: usize = 0;
    while i < param_names.len()
        invariant
            param_types@.len() == param_names@.len(),
            tb.wf(),
            LowerBuilder::same_signature(&sig, &tb),
            tb.module.functions == m0.functions,
            tb.module.try_counter == m0.try_counter,
            tb.module.source_file == m0.source_file,
            tb.module.class_consts == m0.class_consts,
        decreases param_names@.len() - i,
    {
        let key_idx = tb.module.intern_string(param_names[i].as_str());
        let key_val = tb.new_value();
        tb.emit(Inst::ConstStr { dest: key_val, idx: key_idx });
        let (is_fn, _get) = is_getter_fn(param_types[i]);
        let check = tb.new_value();
        let mut args: Vec<Value> = Vec::new();
        args.push(json_recv);
        args.push(key_val);
        tb.emit(Inst::Call { dest: Some(check), func: is_fn.to_owned(), args, ret_ty: IrType::I64 });
        let new_acc = tb.new_value();
        tb.emit(Inst::And { dest: new_acc, lhs: type_ok, rhs: check });
        type_ok = new_acc;
        i = i + 1;
    }
    let zero = tb.new_value();
    tb.emit(Inst::ConstInt { dest: zero, value: 0 });
    let types_ok_flag = tb.new_value();
    tb.emit(Inst::CmpNe { dest: types_ok_flag, lhs: type_ok, rhs: zero, ty: IrType::I64 });
    let call_bb = tb.new_block();
    let type_err_bb = tb.new_block();
    tb.emit(Inst::Branch { cond: types_ok_flag, then_bb: call_bb, else_bb: type_err_bb });
    tb.switch_to(&type_err_bb);
    let mut expected = String::new();
    let mut k: usize = 0;
    while k < param_names.len()
        invariant
            param_types@.len() == param_names@.len(),
        decreases param_names@.len() - k,
    {
        if k > 0 {
            expected = concat(expected.as_str(), ", ");
        }
        let item = concat3(param_names[k].as_str(), ":", ir_type_label(param_types[k]));
        expected = concat(expected.as_str(), item.as_str());
        k = k + 1;
    }
    let head = concat3(target_fn, " attend {", expected.as_str());
    let msg = concat(head.as_str(), "} (argument manquant ou mal typé)");
    emit_error_return(&mut tb, msg.as_str());
    tb.switch_to(&call_bb);
    let mut call_args: Vec<Value> = Vec::new();
    let mut j: usize = 0;
    while j < param_names.len()
        invariant
            param_types@.len() == param_names@.len(),
            tb.wf(),
            LowerBuilder::same_signature(&sig, &tb),
            tb.module.functions == m0.functions,
            tb.module.try_counter == m0.try_counter,
            tb.module.source_file == m0.source_file,
            tb.module.class_consts == m0.class_consts,
        decreases param_names@.len() - j,
    {
        let key_idx = tb.module.intern_string(param_names[j].as_str());
        let key_val = tb.new_value();
        tb.emit(Inst::ConstStr { dest: key_val, idx: key_idx });
        let (_is, get_fn) = is_getter_fn(param_types[j]);
        let val = tb.new_value();
        let mut args: Vec<Value> = Vec::new();
        args.push(json_recv);
        args.push(key_val);
        tb.emit(Inst::Call { dest: Some(val), func: get_fn.to_owned(), args, ret_ty: param_types[j] });
        call_args.push(val);
        j = j + 1;
    }
    if ret_ty == IrType::Void {
        tb.emit(Inst::Call { dest: None, func: target_fn.to_owned(), args: call_args, ret_ty: IrType::Void });
        let encoded = tb.new_value();
        tb.emit(Inst::Call { dest: Some(encoded), func: "__tauri_ok_void".to_owned(), args: Vec::new(), ret_ty: IrType::Ptr });
        tb.emit(Inst::Return { value: Some(encoded) });
    } else {
        let result = tb.new_value();
        tb.emit(Inst::Call { dest: Some(result), func: target_fn.to_owned(), args: call_args, ret_ty });
        let encoded = tb.new_value();
        let mut args: Vec<Value> = Vec::new();
        args.push(result);
        tb.emit(Inst::Call { dest: Some(encoded), func: ok_fn_for(ret_ty).to_owned(), args, ret_ty: IrType::Ptr });
        tb.emit(Inst::Return { value: Some(encoded) });
    }
    std::mem::swap(module, &mut tb.module);
    tb.func
}

/// Checks handler target `target` (a static method reference
/// `Class::method`, `<self>`/`<parent>` standing for the current class and
/// its parent) and creates its trampoline `__tauri_handler_<n>` (`n` the
/// number of functions of the module), returning its name and the JSON
/// array of the method's parameter names. On a target that is not a
/// method reference, on unknown parameter names, or on an unsupported
/// parameter or result type, the error is recorded and `None` returned.
fn prepare_handler(builder: &mut LowerBuilder, target: &Expr) -> (r: Option<(String, String)>)
    requires
        old(builder).wf(),
    ensures
        LowerBuilder::kept(old(builder), final(builder)),
        r is None ==> final(builder).module.diagnostics@.len() == old(builder).module.diagnostics@.len() + 1,
        r is Some ==> {
            &&& final(builder).module.functions@.len() == old(builder).module.functions@.len() + 1
            &&& final(builder).module.functions@.last().name@ == r.unwrap().0@
            &&& r.unwrap().0@ == "__tauri_handler_"@ + decimal_spec(old(builder).module.functions@.len() as nat)
        },
{
    let (target_class, target_method) = match target {
        Expr::StaticConst { class, name, .. } => {
            let resolved = if str_eq(class.as_str(), "<self>") {
                match &builder.current_class {
                    Some(c) => c.clone(),
                    None => String::new(),
                }
            } else if str_eq(class.as_str(), "<parent>") {
                match &builder.parent_class {
                    Some(c) => c.clone(),
                    None => String::new(),
                }
            } else {
                class.clone()
            };
            (resolved, name.clone())
        },
        _ => {
            builder.module.report("error: ui.handler() attend une référence de méthode statique en second argument (ex: MaClasse::maMethode), pas un appel ni une expression calculée".to_owned());
            return None;
        },
    };
    let method_key = mangle(target_class.as_str(), target_method.as_str());
    let param_types: Vec<IrType> = match builder.fn_param_types.get(method_key.as_str()) {
        Some(t) => crate::names::Duplicate::duplicate(t),
        None => Vec::new(),
    };
    let param_names: Vec<String> = match builder.fn_param_names.get(method_key.as_str()) {
        Some(n) => crate::names::Duplicate::duplicate(n),
        None => Vec::new(),
    };
    let ret_ty = match builder.fn_ret_types.get(method_key.as_str()) {
        Some(t) => *t,
        None => IrType::Ptr,
    };
    if param_names.len() != param_types.len() {
        let a = concat3("error: ui.handler(\"", target_method.as_str(), "\"): impossible de résoudre les noms de paramètres de ");
        let msg = concat3(a.as_str(), method_key.as_str(), " (méthode introuvable ou non statique ?)");
        builder.module.report(msg);
        return None;
    }
    let mut i: usize = 0;
    while i < param_types.len()
        invariant
            i <= param_types@.len(),
            *builder == *old(builder),
            old(builder).wf(),
            forall|k: int| 0 <= k < i ==> is_supported_handler_type_spec(#[trigger] param_types@[k]),
        decreases param_types@.len() - i,
    {
        if !is_supported_handler_type(param_types[i]) {
            let msg = concat3("error: ui.handler(\"", target_method.as_str(),
                "\"): un handler JS ne peut avoir que des paramètres int/float/bool/string (Array/Map pas encore supportés)");
            builder.module.report(msg);
            return None;
        }
        i = i + 1;
    }
    if ret_ty != IrType::Void && !is_supported_handler_type(ret_ty) {
        let msg = concat3("error: ui.handler(\"", target_method.as_str(),
            "\"): un handler JS ne peut retourner que void/int/float/bool/string (Array/Map pas encore supportés)");
        builder.module.report(msg);
        return None;
    }
    let trampoline_id = builder.module.functions.len();
    let trampoline_name = with_number("__tauri_handler_", trampoline_id);
    let tramp = generate_trampoline(&mut builder.module, trampoline_name.clone(), method_key.as_str(),
        &param_types, &param_names, ret_ty);
    builder.module.add_function(tramp);
    Some((trampoline_name, serde_json_like_string_array(&param_names)))
}

/// Registers trampoline `trampoline` under name `name_val` on window
/// `obj_val` (with the JSON array of its parameter names), and yields a
/// dummy value: the call is `void` for the program.
fn register_handler(builder: &mut LowerBuilder, obj_val: Value, name_val: Value, trampoline: String, names_json: &str) -> (r: Value)
    requires
        old(builder).wf(),
    ensures
        LowerBuilder::kept(old(builder), final(builder)),
{
    let func_addr = builder.new_value();
    builder.emit(Inst::FuncAddr { dest: func_addr, func: trampoline });
    let names_idx = builder.module.intern_string(names_json);
    let names_val = builder.new_value();
    builder.emit(Inst::ConstStr { dest: names_val, idx: names_idx });
    let mut args: Vec<Value> = Vec::new();
    args.push(obj_val);
    args.push(name_val);
    args.push(func_addr);
    args.push(names_val);
    builder.emit(Inst::Call { dest: None, func: "Tauri_handler_register".to_owned(), args, ret_ty: IrType::Void });
    let dummy = builder.new_value();
    builder.emit(Inst::ConstInt { dest: dummy, value: 0 });
    dummy
}

/// A dummy value for a handler call that could not be lowered (its error
/// is recorded).
fn dummy_value(builder: &mut LowerBuilder) -> (r: Value)
    requires
        old(builder).wf(),
    ensures
        LowerBuilder::kept(old(builder), final(builder)),
        final(builder).module == old(builder).module,
{
    let dummy = builder.new_value();
    builder.emit(Inst::ConstInt { dest: dummy, value: 0 });
    dummy
}

/// `object.handler(name, Class::method)` on a `Tauri` receiver: creates the
/// handler's trampoline, then evaluates the name and the window and
/// registers it (see the module's documentation); `None` for any other
/// call. Without exactly two arguments, or on an invalid target, the error
/// is recorded and a dummy value returned.
pub fn try_lower_tauri_handler_call(
    builder: &mut LowerBuilder,
    class_name: &Option<String>,
    field: &str,
    object: &Expr,
    args: &Vec<Expr>,
    Ghost(node): Ghost<Expr>,
) -> (r: Option<Value>)
    requires
        old(builder).wf(),
        decreases_to!(node => *object),
        decreases_to!(node => *args),
    ensures
        LowerBuilder::kept(old(builder), final(builder)),
        !(field@ == "handler"@ && crate::helpers::opt_view(*class_name) == Some("Tauri"@)) ==> r is None
            && *final(builder) == *old(builder),
        field@ == "handler"@ && crate::helpers::opt_view(*class_name) == Some("Tauri"@) ==> r is Some,
        field@ == "handler"@ && crate::helpers::opt_view(*class_name) == Some("Tauri"@) && args@.len() != 2 ==>
            final(builder).module.diagnostics@.len() == old(builder).module.diagnostics@.len() + 1,
    decreases old(builder).fda_len(), node, 0nat,
{
    let is_tauri = match class_name {
        Some(c) => str_eq(c.as_str(), "Tauri"),
        None => false,
    };
    if !str_eq(field, "handler") || !is_tauri {
        return None;
    }
    if args.len() != 2 {
        builder.module.report("error: ui.handler(name, methode) attend exactement 2 arguments".to_owned());
        return Some(dummy_value(builder));
    }
    match prepare_handler(builder, &args[1]) {
        Some((trampoline, names_json)) => {
            proof {
                assert(decreases_to!(*args => args@));
                assert(decreases_to!(args@ => args@[0]));
            }
            let name_val = lower_expr(builder, &args[0]);
            let obj_val = lower_expr(builder, object);
            Some(register_handler(builder, obj_val, name_val, trampoline, names_json.as_str()))
        },
        None => Some(dummy_value(builder)),
    }
}

/// `object.handlers({name: Class::method, ...})` on a `Tauri` receiver:
/// each entry of the map literal is registered as by `handler`, in order;
/// the result is that of the last one (a dummy value for an empty map);
/// `None` for any other call. Without exactly one argument, with an
/// argument that is not a map literal, or on an invalid entry, the error
/// is recorded and a dummy value returned.
pub fn try_lower_tauri_handlers_call(
    builder: &mut LowerBuilder,
    class_name: &Option<String>,
    field: &str,
    object: &Expr,
    args: &Vec<Expr>,
    Ghost(node): Ghost<Expr>,
) -> (r: Option<Value>)
    requires
        old(builder).wf(),
        decreases_to!(node => *object),
        decreases_to!(node => *args),
    ensures
        LowerBuilder::kept(old(builder), final(builder)),
        !(field@ == "handlers"@ && crate::helpers::opt_view(*class_name) == Some("Tauri"@)) ==> r is None
            && *final(builder) == *old(builder),
        field@ == "handlers"@ && crate::helpers::opt_view(*class_name) == Some("Tauri"@) ==> r is Some,
        field@ == "handlers"@ && crate::helpers::opt_view(*class_name) == Some("Tauri"@)
            && (args@.len() != 1 || !(args@[0] is Dict)) ==>
            final(builder).module.diagnostics@.len() == old(builder).module.diagnostics@.len() + 1,
    decreases old(builder).fda_len(), node, 0nat,
{
    let is_tauri = match class_name {
        Some(c) => str_eq(c.as_str(), "Tauri"),
        None => false,
    };
    if !str_eq(field, "handlers") || !is_tauri {
        return None;
    }
    if args.len() != 1 {
        builder.module.report("error: ui.handlers(map) attend exactement 1 argument (un littéral map)".to_owned());
        return Some(dummy_value(builder));
    }
    let entries = match &args[0] {
        Expr::Dict { entries, .. } => entries,
        _ => {
            builder.module.report("error: ui.handlers() attend un littéral map {\"nom\": Classe::methode, ...}, pas une expression calculée".to_owned());
            return Some(dummy_value(builder));
        },
    };
    proof {
        assert(decreases_to!(*args => args@));
        assert(decreases_to!(args@ => args@[0]));
        assert(decreases_to!(args@[0] => *entries));
    }
    let mut last: Option<Value> = None;
    let mut i: usize = 0;
    while i < entries.len()
        invariant
            LowerBuilder::kept(old(builder), builder),
            builder.fda_len() == old(builder).fda_len(),
            decreases_to!(node => *entries),
            decreases_to!(node => *object),
            field@ == "handlers"@ && crate::helpers::opt_view(*class_name) == Some("Tauri"@),
            args@.len() == 1 && args@[0] is Dict,
        decreases entries@.len() - i,
    {
        proof {
            assert(decreases_to!(*entries => entries@));
            assert(decreases_to!(entries@ => entries@[i as int]));
            assert(decreases_to!(entries@[i as int] => entries@[i as int].0));
        }
        match prepare_handler(builder, &entries[i].1) {
            Some((trampoline, names_json)) => {
                let name_val = lower_expr(builder, &entries[i].0);
                let obj_val = lower_expr(builder, object);
                last = Some(register_handler(builder, obj_val, name_val, trampoline, names_json.as_str()));
            },
            None => {
                return Some(dummy_value(builder));
            },
        }
        i = i + 1;
    }
    match last {
        Some(v) => Some(v),
        None => Some(dummy_value(builder)),
    }
}

} // verus!
