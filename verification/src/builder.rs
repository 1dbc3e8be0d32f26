//! The per-function lowering context and its primitive operations.
use vstd::prelude::*;
use crate::ast::{Expr, Type, VarKind};
use crate::astcopy::{copy_type, type_view, TypeV};
use crate::names::Duplicate;
use crate::ir::{BlockId, Inst, InstV, IrFunction, IrModule, IrParam, IrType, Value};
use crate::names::{NameMap, NameSet};
use crate::scope::OwnershipClass;
use crate::text::with_number;

verus! {

/// Ownership metadata of a `scoped`/`consumed` local (or of a `var` proved
/// never to escape).
#[derive(Debug)]
pub struct OwnedLocalInfo {
    pub kind: VarKind,
    pub class: OwnershipClass,
    pub ty: Type,
    /// Set once the value has been released, so that it is released once.
    pub dropped: bool,
    /// Loop nesting depth at the declaration.
    pub declared_loop_depth: usize,
}

impl DeepView for OwnedLocalInfo {
    type V = (VarKind, OwnershipClass, TypeV, bool, usize);

    open spec fn deep_view(&self) -> Self::V {
        (self.kind, self.class, type_view(self.ty), self.dropped, self.declared_loop_depth)
    }
}

impl Duplicate for OwnedLocalInfo {
    fn duplicate(&self) -> (r: Self) {
        OwnedLocalInfo {
            kind: self.kind,
            class: self.class,
            ty: copy_type(&self.ty),
            dropped: self.dropped,
            declared_loop_depth: self.declared_loop_depth,
        }
    }
}

/// Lowering context of one function: the module being built (owned for the
/// duration of the function and handed back afterwards), the IR function
/// being filled, and the symbol tables that guide the lowering.
#[derive(Debug)]
pub struct LowerBuilder<'a> {
    pub module: IrModule,
    pub func: IrFunction,
    /// Local name to (slot, type, mutable).
    pub locals: NameMap<(Value, IrType, bool)>,
    /// Return types of functions and methods.
    pub fn_ret_types: NameMap<IrType>,
    /// Parameter types of user functions and static methods.
    pub fn_param_types: NameMap<Vec<IrType>>,
    /// Parameter names of user functions and static methods.
    pub fn_param_names: NameMap<Vec<String>>,
    /// Variadic functions: (number of fixed parameters, element type).
    pub fn_variadic_info: NameMap<(usize, IrType)>,
    /// Element IR type of array/map variables.
    pub elem_types: NameMap<IrType>,
    /// Element source type of array/map variables.
    pub elem_ast_types: NameMap<Type>,
    /// Variables holding maps.
    pub map_vars: NameSet,
    /// Class of object variables.
    pub var_class: NameMap<String>,
    /// Class whose method is being lowered.
    pub current_class: Option<String>,
    /// Parent of that class.
    pub parent_class: Option<String>,
    /// Enclosing loops: (continue target, break target, scope depth at entry).
    pub loop_stack: Vec<(BlockId, BlockId, usize)>,
    /// Loop nesting depth.
    pub loop_depth: usize,
    /// Variables holding function values.
    pub func_vars: NameSet,
    /// Return type of function-valued variables.
    pub func_ret_types: NameMap<IrType>,
    /// Variables captured by the closure being lowered: (env, index, type).
    pub captured_vars: NameMap<(Value, usize, IrType)>,
    /// Variables living in a generator frame: (frame, index, type).
    pub frame_vars: NameMap<(Value, usize, IrType)>,
    /// Locals moved to a heap cell to be shared with closures.
    pub heap_promoted: NameSet,
    /// Functions lowered as tasks.
    pub async_funcs: NameSet,
    /// Return type of the task held by a variable.
    pub async_var_ret: NameMap<IrType>,
    /// Variadic parameters of the current function.
    pub variadic_params: NameSet,
    /// Default values of parameters, per function.
    pub func_default_args: NameMap<Vec<Option<&'a Expr>>>,
    /// Parameter count of function-valued variables.
    pub func_var_param_count: NameMap<usize>,
    /// Owned locals of the current function.
    pub owned_locals: NameMap<OwnedLocalInfo>,
    /// Owned locals declared directly in each open block, innermost last.
    pub block_scope_stack: Vec<Vec<String>>,
    /// `var`s proved never to escape, released like `scoped` ones.
    pub auto_freeable_vars: NameSet,
    /// Exit label of a `main` assembled from runtime blocks.
    pub runtime_exit_bb: Option<BlockId>,
    /// Resume points of the generator being lowered.
    pub message_resume_blocks: Vec<BlockId>,
}

/// `after` only added code to `before`: no block disappeared and every block
/// of `before` is a prefix of the same block of `after`.
pub open spec fn extends(before: IrFunction, after: IrFunction) -> bool {
    &&& before.code().len() <= after.code().len()
    &&& forall|i: int| 0 <= i < before.code().len() ==> before.code()[i].len() <= #[trigger] after.code()[i].len()
    &&& forall|i: int, j: int| 0 <= i < before.code().len() && 0 <= j < before.code()[i].len()
        ==> #[trigger] after.code()[i][j] == before.code()[i][j]
    &&& after.name == before.name
    &&& after.ret_ty == before.ret_ty
}

pub proof fn lemma_extends_refl(f: IrFunction)
    ensures
        extends(f, f),
{
}

pub proof fn lemma_extends_trans(a: IrFunction, b: IrFunction, c: IrFunction)
    requires
        extends(a, b),
        extends(b, c),
    ensures
        extends(a, c),
{
    assert forall|i: int, j: int| 0 <= i < a.code().len() && 0 <= j < a.code()[i].len()
        implies #[trigger] c.code()[i][j] == a.code()[i][j] by {
        assert(a.code()[i].len() <= b.code()[i].len());
        assert(c.code()[i][j] == b.code()[i][j]);
    }
    assert forall|i: int| 0 <= i < a.code().len() implies a.code()[i].len() <= #[trigger] c.code()[i].len() by {
        assert(a.code()[i].len() <= b.code()[i].len());
        assert(b.code()[i].len() <= c.code()[i].len());
    }
}

/// `b` has the same owned locals as `a`, each with the same metadata, except
/// that a local may have become released; a released local stays released.
pub open spec fn drops_only(a: Map<Seq<char>, OwnedLocalInfo>, b: Map<Seq<char>, OwnedLocalInfo>) -> bool {
    &&& a.dom() == b.dom()
    &&& forall|k: Seq<char>| #[trigger] a.contains_key(k) ==> {
        &&& b[k].kind == a[k].kind
        &&& b[k].class == a[k].class
        &&& b[k].ty == a[k].ty
        &&& b[k].declared_loop_depth == a[k].declared_loop_depth
        &&& (a[k].dropped ==> b[k].dropped)
    }
}

pub proof fn lemma_drops_only_refl(a: Map<Seq<char>, OwnedLocalInfo>)
    ensures
        drops_only(a, a),
{
}

pub proof fn lemma_drops_only_trans(a: Map<Seq<char>, OwnedLocalInfo>, b: Map<Seq<char>, OwnedLocalInfo>, c: Map<Seq<char>, OwnedLocalInfo>)
    requires
        drops_only(a, b),
        drops_only(b, c),
    ensures
        drops_only(a, c),
{
}

/// Offset of the `idx`-th 8-byte slot of an environment or frame.
pub open spec fn slot_offset_spec(idx: int) -> i32 {
    if 0 <= idx && idx < 0x1000_0000 { (idx * 8) as i32 } else { i32::MAX }
}

/// Offset of the `idx`-th 8-byte slot (saturated far beyond any real layout).
pub fn slot_offset(idx: usize) -> (r: i32)
    ensures
        r == slot_offset_spec(idx as int),
{
    if idx < 0x1000_0000 {
        (idx * 8) as i32
    } else {
        i32::MAX
    }
}

/// Name of the `idx`-th capture slot of a closure environment.
pub open spec fn cap_field_spec(idx: int) -> Seq<char> {
    "__cap_"@ + crate::text::decimal_spec(idx as nat)
}

impl<'a> LowerBuilder<'a> {
    /// The function being filled has a current block.
    pub open spec fn wf(&self) -> bool {
        self.func.wf()
    }

    /// `after` is `before` after lowering something: still well formed, the
    /// code only grew, and the default-argument table is untouched.
    pub open spec fn lowered(before: &LowerBuilder, after: &LowerBuilder) -> bool {
        &&& after.wf()
        &&& extends(before.func, after.func)
        &&& after.func_default_args == before.func_default_args
    }

    /// Size of the table of default arguments (the first component of the
    /// termination measure of the lowering).
    pub open spec fn fda_len(&self) -> nat {
        self.func_default_args.entries@.len()
    }

    /// After lowering something: still well formed, the table of default
    /// arguments, the enclosing scopes and the signature of the function
    /// being filled are untouched.
    pub open spec fn kept(before: &LowerBuilder, after: &LowerBuilder) -> bool {
        &&& after.wf()
        &&& after.func_default_args == before.func_default_args
        &&& LowerBuilder::same_scopes(before, after)
        &&& LowerBuilder::same_signature(before, after)
        &&& functions_grow(before.module, after.module)
        &&& extends(before.func, after.func)
    }

    /// The function being filled keeps its name, parameters and return type.
    pub open spec fn same_signature(before: &LowerBuilder, after: &LowerBuilder) -> bool {
        &&& after.func.name == before.func.name
        &&& after.func.ret_ty == before.func.ret_ty
        &&& after.func.params == before.func.params
    }

    /// The loops and the enclosing blocks are the same (the innermost block
    /// may have gained owned locals).
    pub open spec fn same_scopes(before: &LowerBuilder, after: &LowerBuilder) -> bool {
        &&& after.loop_stack@ == before.loop_stack@
        &&& after.loop_depth == before.loop_depth
        &&& after.block_scope_stack@.len() == before.block_scope_stack@.len()
        &&& after.block_scope_stack@.drop_last() == before.block_scope_stack@.drop_last()
    }

    /// Everything but the function being filled is the same.
    pub open spec fn same_tables(a: &LowerBuilder, b: &LowerBuilder) -> bool {
        &&& a.module == b.module
        &&& a.locals == b.locals
        &&& a.fn_ret_types == b.fn_ret_types
        &&& a.fn_param_types == b.fn_param_types
        &&& a.fn_param_names == b.fn_param_names
        &&& a.fn_variadic_info == b.fn_variadic_info
        &&& a.elem_types == b.elem_types
        &&& a.elem_ast_types == b.elem_ast_types
        &&& a.map_vars == b.map_vars
        &&& a.var_class == b.var_class
        &&& a.current_class == b.current_class
        &&& a.parent_class == b.parent_class
        &&& a.loop_stack == b.loop_stack
        &&& a.loop_depth == b.loop_depth
        &&& a.func_vars == b.func_vars
        &&& a.func_ret_types == b.func_ret_types
        &&& a.captured_vars == b.captured_vars
        &&& a.frame_vars == b.frame_vars
        &&& a.heap_promoted == b.heap_promoted
        &&& a.async_funcs == b.async_funcs
        &&& a.async_var_ret == b.async_var_ret
        &&& a.variadic_params == b.variadic_params
        &&& a.func_default_args == b.func_default_args
        &&& a.func_var_param_count == b.func_var_param_count
        &&& a.owned_locals == b.owned_locals
        &&& a.block_scope_stack == b.block_scope_stack
        &&& a.auto_freeable_vars == b.auto_freeable_vars
        &&& a.runtime_exit_bb == b.runtime_exit_bb
        &&& a.message_resume_blocks == b.message_resume_blocks
    }

    /// Everything but the function being filled and the bindings of locals
    /// is the same.
    pub open spec fn same_but_locals(a: &LowerBuilder, b: &LowerBuilder) -> bool {
        &&& a.module == b.module
        &&& a.fn_ret_types == b.fn_ret_types
        &&& a.fn_param_types == b.fn_param_types
        &&& a.fn_param_names == b.fn_param_names
        &&& a.fn_variadic_info == b.fn_variadic_info
        &&& a.elem_types == b.elem_types
        &&& a.elem_ast_types == b.elem_ast_types
        &&& a.map_vars == b.map_vars
        &&& a.var_class == b.var_class
        &&& a.current_class == b.current_class
        &&& a.parent_class == b.parent_class
        &&& a.loop_stack == b.loop_stack
        &&& a.loop_depth == b.loop_depth
        &&& a.func_vars == b.func_vars
        &&& a.func_ret_types == b.func_ret_types
        &&& a.captured_vars == b.captured_vars
        &&& a.frame_vars == b.frame_vars
        &&& a.heap_promoted == b.heap_promoted
        &&& a.async_funcs == b.async_funcs
        &&& a.async_var_ret == b.async_var_ret
        &&& a.variadic_params == b.variadic_params
        &&& a.func_default_args == b.func_default_args
        &&& a.func_var_param_count == b.func_var_param_count
        &&& a.owned_locals == b.owned_locals
        &&& a.block_scope_stack == b.block_scope_stack
        &&& a.auto_freeable_vars == b.auto_freeable_vars
        &&& a.runtime_exit_bb == b.runtime_exit_bb
        &&& a.message_resume_blocks == b.message_resume_blocks
    }

    /// A context for function `name` over `module`, with empty tables and a
    /// fresh function holding one empty entry block.
    pub fn new(module: IrModule, name: String, params: Vec<IrParam>, ret_ty: IrType) -> (r: LowerBuilder<'a>)
        ensures
            r.module == module,
            r.func.name == name,
            r.func.params == params,
            r.func.ret_ty == ret_ty,
            r.func.code() == seq![Seq::<InstV>::empty()],
            r.func.current == 0,
            r.wf(),
            r.locals@ == Map::<Seq<char>, (Value, IrType, bool)>::empty(),
            r.fn_ret_types@ == Map::<Seq<char>, IrType>::empty(),
            r.fn_param_types@ == Map::<Seq<char>, Vec<IrType>>::empty(),
            r.fn_param_names@ == Map::<Seq<char>, Vec<String>>::empty(),
            r.fn_variadic_info@ == Map::<Seq<char>, (usize, IrType)>::empty(),
            r.func_ret_types@ == Map::<Seq<char>, IrType>::empty(),
            r.heap_promoted@ == Set::<Seq<char>>::empty(),
            r.async_funcs@ == Set::<Seq<char>>::empty(),
            r.async_var_ret@ == Map::<Seq<char>, IrType>::empty(),
            r.variadic_params@ == Set::<Seq<char>>::empty(),
            r.func_var_param_count@ == Map::<Seq<char>, usize>::empty(),
            r.auto_freeable_vars@ == Set::<Seq<char>>::empty(),
            r.message_resume_blocks@.len() == 0,
            r.elem_types@ == Map::<Seq<char>, IrType>::empty(),
            r.elem_ast_types@ == Map::<Seq<char>, Type>::empty(),
            r.map_vars@ == Set::<Seq<char>>::empty(),
            r.var_class@ == Map::<Seq<char>, String>::empty(),
            r.current_class is None,
            r.parent_class is None,
            r.loop_stack@.len() == 0,
            r.loop_depth == 0,
            r.func_vars@ == Set::<Seq<char>>::empty(),
            r.captured_vars@ == Map::<Seq<char>, (Value, usize, IrType)>::empty(),
            r.frame_vars@ == Map::<Seq<char>, (Value, usize, IrType)>::empty(),
            r.func_default_args@ == Map::<Seq<char>, Vec<Option<&'a Expr>>>::empty(),
            r.fda_len() == 0,
            r.owned_locals@ == Map::<Seq<char>, OwnedLocalInfo>::empty(),
            r.block_scope_stack@.len() == 0,
            r.runtime_exit_bb is None,
    {
        let func = IrFunction::new(name, params, ret_ty);
        LowerBuilder {
            module,
            func,
            locals: NameMap::new(),
            fn_ret_types: NameMap::new(),
            fn_param_types: NameMap::new(),
            fn_param_names: NameMap::new(),
            fn_variadic_info: NameMap::new(),
            elem_types: NameMap::new(),
            elem_ast_types: NameMap::new(),
            map_vars: NameSet::new(),
            var_class: NameMap::new(),
            current_class: None,
            parent_class: None,
            loop_stack: Vec::new(),
            loop_depth: 0,
            func_vars: NameSet::new(),
            func_ret_types: NameMap::new(),
            captured_vars: NameMap::new(),
            frame_vars: NameMap::new(),
            heap_promoted: NameSet::new(),
            async_funcs: NameSet::new(),
            async_var_ret: NameMap::new(),
            variadic_params: NameSet::new(),
            func_default_args: NameMap::new(),
            func_var_param_count: NameMap::new(),
            owned_locals: NameMap::new(),
            block_scope_stack: Vec::new(),
            auto_freeable_vars: NameSet::new(),
            runtime_exit_bb: None,
            message_resume_blocks: Vec::new(),
        }
    }

    /// A fresh value handle.
    pub fn new_value(&mut self) -> (r: Value)
        ensures
            r == Value(old(self).func.next_value),
            final(self).func.next_value == succ(old(self).func.next_value),
            final(self).func.code() == old(self).func.code(),
            final(self).func.current == old(self).func.current,
            final(self).func.name == old(self).func.name,
            final(self).func.params == old(self).func.params,
            final(self).func.ret_ty == old(self).func.ret_ty,
            LowerBuilder::same_tables(old(self), final(self)),
            LowerBuilder::lowered(old(self), final(self)) || !old(self).wf(),
    {
        let r = self.func.new_value();
        proof {
            lemma_extends_refl(self.func);
        }
        r
    }

    /// A new empty block; the current block is unchanged.
    pub fn new_block(&mut self) -> (r: BlockId)
        ensures
            LowerBuilder::same_signature(old(self), final(self)),
            r.0 == old(self).func.code().len(),
            final(self).func.code() == old(self).func.code().push(Seq::<InstV>::empty()),
            final(self).func.current == old(self).func.current,
            final(self).func.next_value == old(self).func.next_value,
            final(self).func.name == old(self).func.name,
            final(self).func.params == old(self).func.params,
            LowerBuilder::same_tables(old(self), final(self)),
            old(self).wf() ==> LowerBuilder::lowered(old(self), final(self)),
    {
        let r = self.func.new_block();
        proof {
            assert forall|i: int| 0 <= i < old(self).func.code().len() implies
                #[trigger] self.func.code()[i].subrange(0, old(self).func.code()[i].len() as int)
                    == old(self).func.code()[i]
                    && old(self).func.code()[i].len() <= self.func.code()[i].len() by {
                assert(self.func.code()[i] == old(self).func.code()[i]);
                assert(self.func.code()[i].subrange(0, old(self).func.code()[i].len() as int)
                    =~= old(self).func.code()[i]);
            }
            assert(self.func.code().len() == self.func.blocks@.len());
            assert(old(self).func.code().len() == old(self).func.blocks@.len());
        }
        r
    }

    /// Makes `id` the block being filled when it exists.
    pub fn switch_to(&mut self, id: &BlockId)
        ensures
            LowerBuilder::same_signature(old(self), final(self)),
            final(self).func.current == (if id.0 < old(self).func.code().len() {
                id.0
            } else {
                old(self).func.current
            }),
            final(self).func.code() == old(self).func.code(),
            final(self).func.next_value == old(self).func.next_value,
            final(self).func.name == old(self).func.name,
            final(self).func.params == old(self).func.params,
            LowerBuilder::same_tables(old(self), final(self)),
            old(self).wf() ==> LowerBuilder::lowered(old(self), final(self)),
            id.0 < old(self).func.code().len() ==> final(self).wf(),
    {
        self.func.switch_to(id);
        proof {
            lemma_extends_refl(self.func);
        }
    }

    /// Appends `inst` to the current block.
    pub fn emit(&mut self, inst: Inst)
        ensures
            LowerBuilder::same_signature(old(self), final(self)),
            old(self).wf() ==> IrFunction::appended(&old(self).func, &final(self).func, seq![inst@]),
            final(self).func.current == old(self).func.current,
            final(self).func.next_value == old(self).func.next_value,
            final(self).func.code().len() == old(self).func.code().len(),
            LowerBuilder::same_tables(old(self), final(self)),
            old(self).wf() ==> LowerBuilder::lowered(old(self), final(self)),
            !old(self).wf() ==> final(self).func.code() == old(self).func.code(),
    {
        let ghost before = self.func;
        self.func.emit(inst);
        proof {
            if before.wf() {
                let c = before.current as int;
                assert forall|i: int| 0 <= i < before.code().len() implies
                    #[trigger] self.func.code()[i].subrange(0, before.code()[i].len() as int)
                        == before.code()[i] && before.code()[i].len() <= self.func.code()[i].len() by {
                    if i == c {
                        assert(self.func.code()[i] == before.code()[i] + seq![inst@]);
                    } else {
                        assert(self.func.code()[i] == before.code()[i]);
                    }
                    assert(self.func.code()[i].subrange(0, before.code()[i].len() as int)
                        =~= before.code()[i]);
                }
            } else {
                assert(self.func.code() =~= before.code());
            }
        }
    }

    /// True when the current block already ends with a terminator.
    pub fn is_terminated(&self) -> (r: bool)
        ensures
            r == self.func.spec_terminated(),
    {
        self.func.is_current_terminated()
    }

    /// Declares local `name`: a fresh stack slot of type `ty`, recorded in
    /// `locals` (replacing any earlier binding) and returned.
    pub fn declare_local(&mut self, name: &str, ty: IrType, mutable: bool) -> (r: Value)
        ensures
            LowerBuilder::same_signature(old(self), final(self)),
            r == Value(old(self).func.next_value),
            old(self).wf() ==> IrFunction::appended(
                &old(self).func,
                &final(self).func,
                seq![InstV::Alloca { dest: r, ty }],
            ),
            final(self).locals@ == old(self).locals@.insert(name@, (r, ty, mutable)),
            old(self).wf() ==> LowerBuilder::lowered(old(self), final(self)),
            LowerBuilder::same_but_locals(old(self), final(self)),
    {
        let slot = self.new_value();
        self.emit(Inst::Alloca { dest: slot, ty });
        self.locals.insert(name.to_owned(), (slot, ty, mutable));
        slot
    }

    /// The slot of local `name`, without emitting anything.
    pub fn slot_of_local(&self, name: &str) -> (r: Option<Value>)
        ensures
            match r {
                Some(v) => self.locals@.contains_key(name@) && v == self.locals@[name@].0,
                None => !self.locals@.contains_key(name@),
            },
    {
        match self.locals.get(name) {
            Some(entry) => Some(entry.0),
            None => None,
        }
    }

    /// Stores `src` into variable `name`: a generator frame variable is a
    /// field of the frame; a captured variable is written through its
    /// environment cell (the cell pointer is read from the environment, then
    /// written); otherwise the local's slot. An unknown name emits nothing.
    pub fn store_local(&mut self, name: &str, src: Value)
        ensures
            LowerBuilder::same_signature(old(self), final(self)),
            LowerBuilder::same_tables(old(self), final(self)),
            old(self).wf() ==> LowerBuilder::lowered(old(self), final(self)),
            old(self).wf() ==> ({
                let n = old(self).func.next_value;
                if old(self).frame_vars@.contains_key(name@) {
                    let (frame, idx, _t) = old(self).frame_vars@[name@];
                    IrFunction::appended(&old(self).func, &final(self).func, seq![
                        InstV::SetField { obj: frame, field: name@, src, offset: slot_offset_spec(idx as int) },
                    ])
                } else if old(self).captured_vars@.contains_key(name@) {
                    let (env, idx, _t) = old(self).captured_vars@[name@];
                    IrFunction::appended(&old(self).func, &final(self).func, seq![
                        InstV::GetField { dest: Value(n), obj: env, field: cap_field_spec(idx as int),
                            ty: IrType::Ptr, offset: slot_offset_spec(idx as int) },
                        InstV::Store { ptr: Value(n), src },
                    ])
                } else if old(self).locals@.contains_key(name@) {
                    IrFunction::appended(&old(self).func, &final(self).func, seq![
                        InstV::Store { ptr: old(self).locals@[name@].0, src },
                    ])
                } else {
                    final(self).func.code() == old(self).func.code()
                }
            }),
    {
        let ghost before = self.func;
        match self.frame_vars.get(name) {
            Some(entry) => {
                let frame = entry.0;
                let idx = entry.1;
                let offset = slot_offset(idx);
                self.emit(Inst::SetField { obj: frame, field: name.to_owned(), src, offset });
                return;
            },
            None => {},
        }
        match self.captured_vars.get(name) {
            Some(entry) => {
                let env_val = entry.0;
                let idx = entry.1;
                let ptr = self.new_value();
                let field = with_number("__cap_", idx);
                let offset = slot_offset(idx);
                self.emit(Inst::GetField { dest: ptr, obj: env_val, field, ty: IrType::Ptr, offset });
                let ghost mid = self.func;
                self.emit(Inst::Store { ptr, src });
                proof {
                    if before.wf() {
                        lemma_appended_twice(before, mid, self.func,
                            seq![InstV::GetField { dest: ptr, obj: env_val, field: cap_field_spec(idx as int),
                                ty: IrType::Ptr, offset: slot_offset_spec(idx as int) }],
                            seq![InstV::Store { ptr, src }]);
                        assert(seq![InstV::GetField { dest: ptr, obj: env_val, field: cap_field_spec(idx as int),
                                ty: IrType::Ptr, offset: slot_offset_spec(idx as int) }] + seq![InstV::Store { ptr, src }]
                            =~= seq![InstV::GetField { dest: ptr, obj: env_val, field: cap_field_spec(idx as int),
                                ty: IrType::Ptr, offset: slot_offset_spec(idx as int) }, InstV::Store { ptr, src }]);
                        lemma_extends_trans(old(self).func, mid, self.func);
                    }
                }
                return;
            },
            None => {},
        }
        match self.locals.get(name) {
            Some(entry) => {
                let slot = entry.0;
                self.emit(Inst::Store { ptr: slot, src });
            },
            None => {
                proof {
                    lemma_extends_refl(self.func);
                }
            },
        }
    }

    /// Loads variable `name` and returns the value with its type: a
    /// generator frame variable is read from the frame; a captured variable
    /// through its environment cell; otherwise from the local's slot. `None`
    /// (and nothing emitted) for an unknown name.
    pub fn load_local(&mut self, name: &str) -> (r: Option<(Value, IrType)>)
        ensures
            LowerBuilder::same_signature(old(self), final(self)),
            LowerBuilder::same_tables(old(self), final(self)),
            old(self).wf() ==> LowerBuilder::lowered(old(self), final(self)),
            old(self).wf() ==> ({
                let n = old(self).func.next_value;
                if old(self).frame_vars@.contains_key(name@) {
                    let (frame, idx, t) = old(self).frame_vars@[name@];
                    &&& r == Some((Value(n), t))
                    &&& IrFunction::appended(&old(self).func, &final(self).func, seq![
                        InstV::GetField { dest: Value(n), obj: frame, field: name@, ty: t,
                            offset: slot_offset_spec(idx as int) },
                    ])
                } else if old(self).captured_vars@.contains_key(name@) {
                    let (env, idx, t) = old(self).captured_vars@[name@];
                    &&& r == Some((Value(succ(n)), t))
                    &&& IrFunction::appended(&old(self).func, &final(self).func, seq![
                        InstV::GetField { dest: Value(n), obj: env, field: cap_field_spec(idx as int),
                            ty: IrType::Ptr, offset: slot_offset_spec(idx as int) },
                        InstV::Load { dest: r.unwrap().0, ptr: Value(n), ty: t },
                    ])
                } else if old(self).locals@.contains_key(name@) {
                    let (slot, t, _m) = old(self).locals@[name@];
                    &&& r == Some((Value(n), t))
                    &&& final(self).func.next_value == succ(n)
                    &&& IrFunction::appended(&old(self).func, &final(self).func, seq![
                        InstV::Load { dest: Value(n), ptr: slot, ty: t },
                    ])
                } else {
                    &&& r is None
                    &&& final(self).func == old(self).func
                }
            }),
            LowerBuilder::has_var(old(self), name@) <==> r is Some,
    {
        let ghost before = self.func;
        match self.frame_vars.get(name) {
            Some(entry) => {
                let frame = entry.0;
                let idx = entry.1;
                let ty = entry.2;
                let dest = self.new_value();
                let offset = slot_offset(idx);
                self.emit(Inst::GetField { dest, obj: frame, field: name.to_owned(), ty, offset });
                proof {
                    if before.wf() {
                        lemma_extends_trans(old(self).func, old(self).func, self.func);
                    }
                }
                return Some((dest, ty));
            },
            None => {},
        }
        match self.captured_vars.get(name) {
            Some(entry) => {
                let env_val = entry.0;
                let idx = entry.1;
                let ty = entry.2;
                let ptr = self.new_value();
                let field = with_number("__cap_", idx);
                let offset = slot_offset(idx);
                self.emit(Inst::GetField { dest: ptr, obj: env_val, field, ty: IrType::Ptr, offset });
                let dest = self.new_value();
                let ghost mid = self.func;
                self.emit(Inst::Load { dest, ptr, ty });
                proof {
                    if before.wf() {
                        lemma_appended_twice(before, mid, self.func,
                            seq![InstV::GetField { dest: ptr, obj: env_val, field: cap_field_spec(idx as int),
                                ty: IrType::Ptr, offset: slot_offset_spec(idx as int) }],
                            seq![InstV::Load { dest, ptr, ty }]);
                        assert(seq![InstV::GetField { dest: ptr, obj: env_val, field: cap_field_spec(idx as int),
                                ty: IrType::Ptr, offset: slot_offset_spec(idx as int) }] + seq![InstV::Load { dest, ptr, ty }]
                            =~= seq![InstV::GetField { dest: ptr, obj: env_val, field: cap_field_spec(idx as int),
                                ty: IrType::Ptr, offset: slot_offset_spec(idx as int) }, InstV::Load { dest, ptr, ty }]);
                        lemma_extends_trans(old(self).func, mid, self.func);
                    }
                }
                return Some((dest, ty));
            },
            None => {},
        }
        match self.locals.get(name) {
            Some(entry) => {
                let slot = entry.0;
                let ty = entry.1;
                let dest = self.new_value();
                self.emit(Inst::Load { dest, ptr: slot, ty });
                Some((dest, ty))
            },
            None => {
                proof {
                    lemma_extends_refl(self.func);
                }
                None
            },
        }
    }

    /// `name` is a variable of the function: a frame variable, a captured
    /// variable or a local.
    pub open spec fn has_var(b: &LowerBuilder, name: Seq<char>) -> bool {
        b.frame_vars@.contains_key(name) || b.captured_vars@.contains_key(name) || b.locals@.contains_key(name)
    }
}

/// `after` holds every function of `before`, unchanged and at the same
/// position, possibly followed by new ones; the `try` counter never goes
/// back; the source file name and the class constants stay.
pub open spec fn functions_grow(before: IrModule, after: IrModule) -> bool {
    &&& before.functions@.len() <= after.functions@.len()
    &&& forall|i: int| 0 <= i < before.functions@.len() ==> #[trigger] after.functions@[i] == before.functions@[i]
    &&& before.try_counter <= after.try_counter
    &&& after.source_file == before.source_file
    &&& after.class_consts == before.class_consts
}

/// The value counter after handing out one value (it saturates).
pub open spec fn succ(n: u32) -> u32 {
    if n < u32::MAX { (n + 1) as u32 } else { n }
}

/// Two appends in a row are one append of the concatenation.
pub proof fn lemma_appended_twice(a: IrFunction, b: IrFunction, c: IrFunction, s: Seq<InstV>, t: Seq<InstV>)
    requires
        a.wf(),
        IrFunction::appended(&a, &b, s),
        IrFunction::appended(&b, &c, t),
    ensures
        IrFunction::appended(&a, &c, s + t),
{
    let k = a.current as int;
    assert(b.code()[k] == a.code()[k] + s);
    assert(c.code()[k] == b.code()[k] + t);
    assert(a.code()[k] + s + t =~= a.code()[k] + (s + t));
    assert(c.code() =~= a.code().update(k, a.code()[k] + (s + t)));
}

} // verus!
