//! The Ocara IR: typed values, instructions grouped in basic blocks,
//! functions and the module that collects them.
use vstd::prelude::*;
use crate::ast::{Literal, Type};
use crate::names::{Duplicate, NameMap, NameSet};

verus! {

/// Machine-level type of an IR value.
#[derive(Clone, Copy, Debug, PartialEq, Eq, Structural)]
pub enum IrType {
    I64,
    F64,
    Bool,
    Ptr,
    Void,
}

/// An SSA-like value handle.
#[derive(Clone, Copy, Debug, PartialEq, Eq, Structural)]
pub struct Value(pub u32);

/// Identifies a basic block by its index in its function.
#[derive(Clone, Copy, Debug, PartialEq, Eq, Structural)]
pub struct BlockId(pub usize);

impl DeepView for IrType {
    type V = IrType;

    open spec fn deep_view(&self) -> IrType {
        *self
    }
}

impl Duplicate for IrType {
    fn duplicate(&self) -> (r: Self) {
        *self
    }
}

impl DeepView for Value {
    type V = Value;

    open spec fn deep_view(&self) -> Value {
        *self
    }
}

impl Duplicate for Value {
    fn duplicate(&self) -> (r: Self) {
        *self
    }
}

impl DeepView for BlockId {
    type V = BlockId;

    open spec fn deep_view(&self) -> BlockId {
        *self
    }
}

impl Duplicate for BlockId {
    fn duplicate(&self) -> (r: Self) {
        *self
    }
}

/// IR type used for a source type: `int`, `float`, `bool` and `void` keep
/// their own machine type; every other type is carried as a pointer.
pub open spec fn ir_type_of(t: Type) -> IrType {
    match t {
        Type::Int => IrType::I64,
        Type::Float => IrType::F64,
        Type::Bool => IrType::Bool,
        Type::Void => IrType::Void,
        _ => IrType::Ptr,
    }
}

impl IrType {
    /// IR type of a source type (see `ir_type_of`).
    pub fn from_ast(t: &Type) -> (r: IrType)
        ensures
            r == ir_type_of(*t),
    {
        match t {
            Type::Int => IrType::I64,
            Type::Float => IrType::F64,
            Type::Bool => IrType::Bool,
            Type::Void => IrType::Void,
            _ => IrType::Ptr,
        }
    }
}

/// An IR instruction. A float constant holds the bits of its encoding.
#[derive(Clone, Debug)]
pub enum Inst {
    ConstInt { dest: Value, value: i64 },
    ConstFloat { dest: Value, bits: u64 },
    ConstBool { dest: Value, value: bool },
    ConstStr { dest: Value, idx: usize },
    Alloca { dest: Value, ty: IrType },
    Load { dest: Value, ptr: Value, ty: IrType },
    Store { ptr: Value, src: Value },
    Alloc { dest: Value, class: String },
    GetField { dest: Value, obj: Value, field: String, ty: IrType, offset: i32 },
    SetField { obj: Value, field: String, src: Value, offset: i32 },
    Add { dest: Value, lhs: Value, rhs: Value, ty: IrType },
    Sub { dest: Value, lhs: Value, rhs: Value, ty: IrType },
    Mul { dest: Value, lhs: Value, rhs: Value, ty: IrType },
    Div { dest: Value, lhs: Value, rhs: Value, ty: IrType },
    Mod { dest: Value, lhs: Value, rhs: Value, ty: IrType },
    And { dest: Value, lhs: Value, rhs: Value },
    Or { dest: Value, lhs: Value, rhs: Value },
    Not { dest: Value, src: Value },
    Neg { dest: Value, src: Value, ty: IrType },
    CmpEq { dest: Value, lhs: Value, rhs: Value, ty: IrType },
    CmpNe { dest: Value, lhs: Value, rhs: Value, ty: IrType },
    CmpLt { dest: Value, lhs: Value, rhs: Value, ty: IrType },
    CmpLe { dest: Value, lhs: Value, rhs: Value, ty: IrType },
    CmpGt { dest: Value, lhs: Value, rhs: Value, ty: IrType },
    CmpGe { dest: Value, lhs: Value, rhs: Value, ty: IrType },
    Call { dest: Option<Value>, func: String, args: Vec<Value>, ret_ty: IrType },
    CallIndirect { dest: Option<Value>, callee: Value, args: Vec<Value>, ret_ty: IrType },
    FuncAddr { dest: Value, func: String },
    Jump { target: BlockId },
    Branch { cond: Value, then_bb: BlockId, else_bb: BlockId },
    Return { value: Option<Value> },
    Nop,
}

/// The mathematical form of an instruction: strings as character
/// sequences, argument lists as sequences.
pub enum InstV {
    ConstInt { dest: Value, value: i64 },
    ConstFloat { dest: Value, bits: u64 },
    ConstBool { dest: Value, value: bool },
    ConstStr { dest: Value, idx: usize },
    Alloca { dest: Value, ty: IrType },
    Load { dest: Value, ptr: Value, ty: IrType },
    Store { ptr: Value, src: Value },
    Alloc { dest: Value, class: Seq<char> },
    GetField { dest: Value, obj: Value, field: Seq<char>, ty: IrType, offset: i32 },
    SetField { obj: Value, field: Seq<char>, src: Value, offset: i32 },
    Add { dest: Value, lhs: Value, rhs: Value, ty: IrType },
    Sub { dest: Value, lhs: Value, rhs: Value, ty: IrType },
    Mul { dest: Value, lhs: Value, rhs: Value, ty: IrType },
    Div { dest: Value, lhs: Value, rhs: Value, ty: IrType },
    Mod { dest: Value, lhs: Value, rhs: Value, ty: IrType },
    And { dest: Value, lhs: Value, rhs: Value },
    Or { dest: Value, lhs: Value, rhs: Value },
    Not { dest: Value, src: Value },
    Neg { dest: Value, src: Value, ty: IrType },
    CmpEq { dest: Value, lhs: Value, rhs: Value, ty: IrType },
    CmpNe { dest: Value, lhs: Value, rhs: Value, ty: IrType },
    CmpLt { dest: Value, lhs: Value, rhs: Value, ty: IrType },
    CmpLe { dest: Value, lhs: Value, rhs: Value, ty: IrType },
    CmpGt { dest: Value, lhs: Value, rhs: Value, ty: IrType },
    CmpGe { dest: Value, lhs: Value, rhs: Value, ty: IrType },
    Call { dest: Option<Value>, func: Seq<char>, args: Seq<Value>, ret_ty: IrType },
    CallIndirect { dest: Option<Value>, callee: Value, args: Seq<Value>, ret_ty: IrType },
    FuncAddr { dest: Value, func: Seq<char> },
    Jump { target: BlockId },
    Branch { cond: Value, then_bb: BlockId, else_bb: BlockId },
    Return { value: Option<Value> },
    Nop,
}

impl View for Inst {
    type V = InstV;

    open spec fn view(&self) -> InstV {
        match *self {
            Inst::ConstInt { dest, value } => InstV::ConstInt { dest, value },
            Inst::ConstFloat { dest, bits } => InstV::ConstFloat { dest, bits },
            Inst::ConstBool { dest, value } => InstV::ConstBool { dest, value },
            Inst::ConstStr { dest, idx } => InstV::ConstStr { dest, idx },
            Inst::Alloca { dest, ty } => InstV::Alloca { dest, ty },
            Inst::Load { dest, ptr, ty } => InstV::Load { dest, ptr, ty },
            Inst::Store { ptr, src } => InstV::Store { ptr, src },
            Inst::Alloc { dest, class } => InstV::Alloc { dest, class: class@ },
            Inst::GetField { dest, obj, field, ty, offset } => InstV::GetField { dest, obj, field: field@, ty, offset },
            Inst::SetField { obj, field, src, offset } => InstV::SetField { obj, field: field@, src, offset },
            Inst::Add { dest, lhs, rhs, ty } => InstV::Add { dest, lhs, rhs, ty },
            Inst::Sub { dest, lhs, rhs, ty } => InstV::Sub { dest, lhs, rhs, ty },
            Inst::Mul { dest, lhs, rhs, ty } => InstV::Mul { dest, lhs, rhs, ty },
            Inst::Div { dest, lhs, rhs, ty } => InstV::Div { dest, lhs, rhs, ty },
            Inst::Mod { dest, lhs, rhs, ty } => InstV::Mod { dest, lhs, rhs, ty },
            Inst::And { dest, lhs, rhs } => InstV::And { dest, lhs, rhs },
            Inst::Or { dest, lhs, rhs } => InstV::Or { dest, lhs, rhs },
            Inst::Not { dest, src } => InstV::Not { dest, src },
            Inst::Neg { dest, src, ty } => InstV::Neg { dest, src, ty },
            Inst::CmpEq { dest, lhs, rhs, ty } => InstV::CmpEq { dest, lhs, rhs, ty },
            Inst::CmpNe { dest, lhs, rhs, ty } => InstV::CmpNe { dest, lhs, rhs, ty },
            Inst::CmpLt { dest, lhs, rhs, ty } => InstV::CmpLt { dest, lhs, rhs, ty },
            Inst::CmpLe { dest, lhs, rhs, ty } => InstV::CmpLe { dest, lhs, rhs, ty },
            Inst::CmpGt { dest, lhs, rhs, ty } => InstV::CmpGt { dest, lhs, rhs, ty },
            Inst::CmpGe { dest, lhs, rhs, ty } => InstV::CmpGe { dest, lhs, rhs, ty },
            Inst::Call { dest, func, args, ret_ty } => InstV::Call { dest, func: func@, args: args@, ret_ty },
            Inst::CallIndirect { dest, callee, args, ret_ty } => InstV::CallIndirect { dest, callee, args: args@, ret_ty },
            Inst::FuncAddr { dest, func } => InstV::FuncAddr { dest, func: func@ },
            Inst::Jump { target } => InstV::Jump { target },
            Inst::Branch { cond, then_bb, else_bb } => InstV::Branch { cond, then_bb, else_bb },
            Inst::Return { value } => InstV::Return { value },
            Inst::Nop => InstV::Nop,
        }
    }
}

/// A terminator ends a basic block.
pub open spec fn is_terminator(i: InstV) -> bool {
    i is Jump || i is Branch || i is Return
}

/// A parameter of an IR function: its name, type and the value that
/// receives it on entry.
#[derive(Clone, Debug)]
pub struct IrParam {
    pub name: String,
    pub ty: IrType,
    pub slot: Value,
}

/// An IR function: its basic blocks, the block being filled, and the next
/// fresh value number.
#[derive(Debug)]
pub struct IrFunction {
    pub name: String,
    pub params: Vec<IrParam>,
    pub ret_ty: IrType,
    pub blocks: Vec<Vec<Inst>>,
    pub current: usize,
    pub next_value: u32,
}

/// Instructions of a block, in their mathematical form.
pub open spec fn block_view(b: Vec<Inst>) -> Seq<InstV> {
    Seq::new(b@.len(), |j: int| b@[j]@)
}

impl IrFunction {
    /// The code of the function: each block as a sequence of instructions.
    pub open spec fn code(&self) -> Seq<Seq<InstV>> {
        Seq::new(self.blocks@.len(), |i: int| block_view(self.blocks@[i]))
    }

    /// The block being filled exists.
    pub open spec fn wf(&self) -> bool {
        self.current < self.blocks@.len()
    }

    /// `after` is `before` with `s` appended to the current block; nothing
    /// else changed but the value counter.
    pub open spec fn appended(before: &IrFunction, after: &IrFunction, s: Seq<InstV>) -> bool {
        &&& after.code() == before.code().update(before.current as int, before.code()[before.current as int] + s)
        &&& after.current == before.current
        &&& after.name == before.name
        &&& after.params == before.params
        &&& after.ret_ty == before.ret_ty
    }

    /// A new function with one empty entry block, filling block 0; value
    /// numbers start after the parameters.
    pub fn new(name: String, params: Vec<IrParam>, ret_ty: IrType) -> (r: IrFunction)
        ensures
            r.name == name,
            r.params == params,
            r.ret_ty == ret_ty,
            r.code() == seq![Seq::<InstV>::empty()],
            r.current == 0,
            r.wf(),
    {
        let n = params.len();
        let next: u32 = if n < 4294967295 { n as u32 } else { 4294967295 };
        let mut blocks: Vec<Vec<Inst>> = Vec::new();
        blocks.push(Vec::new());
        let r = IrFunction { name, params, ret_ty, blocks, current: 0, next_value: next };
        assert(block_view(r.blocks@[0]) =~= Seq::<InstV>::empty());
        assert(r.code() =~= seq![Seq::<InstV>::empty()]);
        r
    }

    /// A fresh value handle.
    pub fn new_value(&mut self) -> (r: Value)
        ensures
            r == Value(old(self).next_value),
            final(self).next_value == (if old(self).next_value < u32::MAX { old(self).next_value + 1 } else { old(self).next_value as int }),
            final(self).blocks == old(self).blocks,
            final(self).current == old(self).current,
            final(self).name == old(self).name,
            final(self).params == old(self).params,
            final(self).ret_ty == old(self).ret_ty,
    {
        let v = Value(self.next_value);
        if self.next_value < 4294967295 {
            self.next_value = self.next_value + 1;
        }
        v
    }

    /// Appends a new empty block and returns its id; the current block is unchanged.
    pub fn new_block(&mut self) -> (r: BlockId)
        ensures
            r.0 == old(self).blocks@.len(),
            final(self).code() == old(self).code().push(Seq::<InstV>::empty()),
            final(self).current == old(self).current,
            final(self).next_value == old(self).next_value,
            final(self).name == old(self).name,
            final(self).params == old(self).params,
            final(self).ret_ty == old(self).ret_ty,
    {
        let id = BlockId(self.blocks.len());
        self.blocks.push(Vec::new());
        assert(block_view(self.blocks@[self.blocks@.len() - 1]) =~= Seq::<InstV>::empty());
        assert(self.code() =~= old(self).code().push(Seq::<InstV>::empty()));
        id
    }

    /// Makes `id` the block being filled, when it exists.
    pub fn switch_to(&mut self, id: &BlockId)
        ensures
            final(self).current == (if id.0 < old(self).blocks@.len() { id.0 } else { old(self).current }),
            final(self).blocks == old(self).blocks,
            final(self).next_value == old(self).next_value,
            final(self).name == old(self).name,
            final(self).params == old(self).params,
            final(self).ret_ty == old(self).ret_ty,
    {
        if id.0 < self.blocks.len() {
            self.current = id.0;
        }
    }

    /// Appends `inst` to the current block.
    pub fn emit(&mut self, inst: Inst)
        ensures
            old(self).wf() ==> IrFunction::appended(old(self), final(self), seq![inst@]),
            !old(self).wf() ==> final(self).blocks == old(self).blocks,
            final(self).blocks@.len() == old(self).blocks@.len(),
            final(self).current == old(self).current,
            final(self).next_value == old(self).next_value,
            final(self).name == old(self).name,
            final(self).params == old(self).params,
            final(self).ret_ty == old(self).ret_ty,
    {
        if self.current < self.blocks.len() {
            let c = self.current;
            self.blocks[c].push(inst);
            proof {
                assert(block_view(self.blocks@[c as int]) =~= block_view(old(self).blocks@[c as int]) + seq![inst@]);
                assert(self.code() =~= old(self).code().update(c as int, old(self).code()[c as int] + seq![inst@]));
            }
        }
    }

    /// True when the current block already ends with a terminator.
    pub open spec fn spec_terminated(&self) -> bool {
        self.wf() && self.code()[self.current as int].len() > 0
            && is_terminator(self.code()[self.current as int].last())
    }

    /// True when the current block already ends with a terminator.
    pub fn is_current_terminated(&self) -> (r: bool)
        ensures
            r == self.spec_terminated(),
    {
        if self.current < self.blocks.len() {
            let b = &self.blocks[self.current];
            let n = b.len();
            if n > 0 {
                let last = &b[n - 1];
                let ghost lv = last@;
                assert(self.code()[self.current as int].last() == lv);
                match last {
                    Inst::Jump { .. } | Inst::Branch { .. } | Inst::Return { .. } => true,
                    _ => false,
                }
            } else {
                false
            }
        } else {
            false
        }
    }
}

/// A named blob of constant bytes.
#[derive(Clone, Debug)]
pub struct IrGlobal {
    pub name: String,
    pub bytes: Vec<u8>,
}

/// The IR module: functions, globals, interned strings, and the class
/// information gathered by the lowering.
#[derive(Debug)]
pub struct IrModule {
    pub name: String,
    pub source_file: String,
    pub imports: Vec<String>,
    pub functions: Vec<IrFunction>,
    pub globals: Vec<IrGlobal>,
    pub strings: Vec<String>,
    /// Field names and IR types of each class, in layout order (8 bytes each).
    pub class_layouts: NameMap<Vec<(String, IrType)>>,
    /// Field names and source types of each user class.
    pub class_field_types: NameMap<Vec<(String, Type)>>,
    /// Names of the map-typed fields of each class.
    pub class_map_fields: NameMap<NameSet>,
    /// Parameter types of user instance methods (without `self`).
    pub method_param_types: NameMap<Vec<IrType>>,
    /// Classes that have at least one subclass.
    pub classes_with_subclasses: NameSet,
    /// Runtime identity of each class.
    pub class_ids: NameMap<i64>,
    /// Generator functions and the IR type of what they emit.
    pub message_funcs: NameMap<IrType>,
    /// Class ids that satisfy `is Name`.
    pub is_check_candidates: NameMap<Vec<i64>>,
    /// Parent of each class that extends another.
    pub class_parents: NameMap<String>,
    /// Inlinable class constants, keyed `Class__NAME`.
    pub class_consts: NameMap<(IrType, Literal)>,
    /// Parameter types of class constructors.
    pub ctor_param_types: NameMap<Vec<IrType>>,
    /// Counter naming anonymous functions.
    pub anon_counter: usize,
    /// Counter numbering the functions of `try` statements.
    pub try_counter: usize,
    /// Errors found while lowering, in order; the program is rejected when
    /// there is any.
    pub diagnostics: Vec<String>,
}

impl IrModule {
    /// `a` and `b` agree on everything but their string tables.
    pub open spec fn same_but_strings(a: &IrModule, b: &IrModule) -> bool {
        &&& a.name == b.name
        &&& a.source_file == b.source_file
        &&& a.imports == b.imports
        &&& a.functions == b.functions
        &&& a.globals == b.globals
        &&& a.class_layouts == b.class_layouts
        &&& a.class_field_types == b.class_field_types
        &&& a.class_map_fields == b.class_map_fields
        &&& a.method_param_types == b.method_param_types
        &&& a.classes_with_subclasses == b.classes_with_subclasses
        &&& a.class_ids == b.class_ids
        &&& a.message_funcs == b.message_funcs
        &&& a.is_check_candidates == b.is_check_candidates
        &&& a.class_parents == b.class_parents
        &&& a.class_consts == b.class_consts
        &&& a.ctor_param_types == b.ctor_param_types
        &&& a.anon_counter == b.anon_counter
        &&& a.try_counter == b.try_counter
        &&& a.diagnostics == b.diagnostics
    }

    /// An empty module named `name`.
    pub fn new(name: &str) -> (r: IrModule)
        ensures
            r.name@ == name@,
            r.functions@.len() == 0,
            r.globals@.len() == 0,
            r.strings@.len() == 0,
            r.class_layouts@ == Map::<Seq<char>, Vec<(String, IrType)>>::empty(),
            r.class_field_types@ == Map::<Seq<char>, Vec<(String, Type)>>::empty(),
            r.class_map_fields@ == Map::<Seq<char>, NameSet>::empty(),
            r.method_param_types@ == Map::<Seq<char>, Vec<IrType>>::empty(),
            r.classes_with_subclasses@ == Set::<Seq<char>>::empty(),
            r.class_ids@ == Map::<Seq<char>, i64>::empty(),
            r.message_funcs@ == Map::<Seq<char>, IrType>::empty(),
            r.is_check_candidates@ == Map::<Seq<char>, Vec<i64>>::empty(),
            r.class_parents@ == Map::<Seq<char>, String>::empty(),
            r.class_consts@ == Map::<Seq<char>, (IrType, Literal)>::empty(),
            r.ctor_param_types@ == Map::<Seq<char>, Vec<IrType>>::empty(),
            r.anon_counter == 0,
            r.try_counter == 0,
            r.diagnostics@.len() == 0,
    {
        IrModule {
            name: name.to_owned(),
            source_file: String::new(),
            imports: Vec::new(),
            functions: Vec::new(),
            globals: Vec::new(),
            strings: Vec::new(),
            class_layouts: NameMap::new(),
            class_field_types: NameMap::new(),
            class_map_fields: NameMap::new(),
            method_param_types: NameMap::new(),
            classes_with_subclasses: NameSet::new(),
            class_ids: NameMap::new(),
            message_funcs: NameMap::new(),
            is_check_candidates: NameMap::new(),
            class_parents: NameMap::new(),
            class_consts: NameMap::new(),
            ctor_param_types: NameMap::new(),
            anon_counter: 0,
            try_counter: 0,
            diagnostics: Vec::new(),
        }
    }

    /// Records an error found while lowering.
    pub fn report(&mut self, message: String)
        ensures
            final(self).diagnostics@ == old(self).diagnostics@.push(message),
            final(self).functions == old(self).functions,
            final(self).try_counter == old(self).try_counter,
            final(self).source_file == old(self).source_file,
            final(self).class_consts == old(self).class_consts,
            final(self).strings == old(self).strings,
            final(self).class_layouts == old(self).class_layouts,
    {
        self.diagnostics.push(message);
    }

    /// Adds a function at the end of the module.
    pub fn add_function(&mut self, f: IrFunction)
        ensures
            final(self).functions@ == old(self).functions@.push(f),
            final(self).strings == old(self).strings,
            final(self).globals == old(self).globals,
            final(self).class_layouts == old(self).class_layouts,
            final(self).class_field_types == old(self).class_field_types,
            final(self).class_map_fields == old(self).class_map_fields,
            final(self).method_param_types == old(self).method_param_types,
            final(self).classes_with_subclasses == old(self).classes_with_subclasses,
            final(self).class_ids == old(self).class_ids,
            final(self).message_funcs == old(self).message_funcs,
            final(self).is_check_candidates == old(self).is_check_candidates,
            final(self).class_parents == old(self).class_parents,
            final(self).class_consts == old(self).class_consts,
            final(self).ctor_param_types == old(self).ctor_param_types,
            final(self).anon_counter == old(self).anon_counter,
            final(self).try_counter == old(self).try_counter,
            final(self).diagnostics == old(self).diagnostics,
            final(self).name == old(self).name,
            final(self).source_file == old(self).source_file,
            final(self).imports == old(self).imports,
    {
        self.functions.push(f);
    }

    /// Adds a global at the end of the module.
    pub fn add_global(&mut self, g: IrGlobal)
        ensures
            final(self).globals@ == old(self).globals@.push(g),
            final(self).functions == old(self).functions,
            final(self).strings == old(self).strings,
            final(self).class_layouts == old(self).class_layouts,
            final(self).class_field_types == old(self).class_field_types,
            final(self).class_map_fields == old(self).class_map_fields,
            final(self).method_param_types == old(self).method_param_types,
            final(self).classes_with_subclasses == old(self).classes_with_subclasses,
            final(self).class_ids == old(self).class_ids,
            final(self).message_funcs == old(self).message_funcs,
            final(self).is_check_candidates == old(self).is_check_candidates,
            final(self).class_parents == old(self).class_parents,
            final(self).class_consts == old(self).class_consts,
            final(self).ctor_param_types == old(self).ctor_param_types,
            final(self).anon_counter == old(self).anon_counter,
            final(self).try_counter == old(self).try_counter,
            final(self).diagnostics == old(self).diagnostics,
            final(self).name == old(self).name,
            final(self).source_file == old(self).source_file,
            final(self).imports == old(self).imports,
    {
        self.globals.push(g);
    }

    /// Index of `s` in the string table, adding it at the end when absent.
    pub fn intern_string(&mut self, s: &str) -> (r: usize)
        ensures
            r < final(self).strings@.len(),
            final(self).strings@[r as int]@ == s@,
            old(self).strings@.len() <= final(self).strings@.len() <= old(self).strings@.len() + 1,
            forall|j: int| 0 <= j < old(self).strings@.len() ==> final(self).strings@[j] == old(self).strings@[j],
            (exists|j: int| 0 <= j < old(self).strings@.len() && #[trigger] old(self).strings@[j]@ == s@)
                ==> final(self).strings == old(self).strings,
            IrModule::same_but_strings(old(self), final(self)),
    {
        let mut i: usize = 0;
        while i < self.strings.len()
            invariant
                i <= self.strings@.len(),
                forall|j: int| 0 <= j < i ==> self.strings@[j]@ != s@,
            decreases self.strings@.len() - i,
        {
            if crate::text::str_eq(self.strings[i].as_str(), s) {
                return i;
            }
            i = i + 1;
        }
        self.strings.push(s.to_owned());
        self.strings.len() - 1
    }
}

} // verus!
