//! Conversions between concrete and `mixed` values at assignments.
use vstd::prelude::*;
use crate::builder::LowerBuilder;
use crate::helpers::{box_func_spec, box_scalar};
use crate::ir::{Inst, InstV, IrFunction, IrType, Value};

verus! {

/// Runtime conversion from a `mixed` value to the concrete type `t`.
pub open spec fn unbox_func_spec(t: IrType) -> (Seq<char>, IrType) {
    match t {
        IrType::F64 => ("__mixed_to_float"@, IrType::F64),
        _ => ("__mixed_to_int"@, IrType::I64),
    }
}

/// Adapts `val` (of static type `val_ty`) to a destination of type
/// `target_ty`: a `mixed` destination boxes a scalar; a concrete
/// destination receiving a pointer (necessarily a `mixed`) unboxes it;
/// anything else is stored as it is.
pub fn box_for_any(builder: &mut LowerBuilder, target_ty: &IrType, val_ty: IrType, val: Value) -> (r: Value)
    requires
        old(builder).wf(),
    ensures
        LowerBuilder::kept(old(builder), final(builder)),
        LowerBuilder::same_tables(old(builder), final(builder)),
        *target_ty != IrType::Ptr && val_ty != IrType::Ptr ==> r == val && final(builder).func == old(builder).func,
        *target_ty != IrType::Ptr && val_ty == IrType::Ptr ==> r == Value(old(builder).func.next_value)
            && IrFunction::appended(&old(builder).func, &final(builder).func, seq![InstV::Call {
                dest: Some(r), func: unbox_func_spec(*target_ty).0, args: seq![val], ret_ty: unbox_func_spec(*target_ty).1 }]),
        *target_ty == IrType::Ptr ==> match box_func_spec(val_ty) {
            Some(f) => r == Value(old(builder).func.next_value) && IrFunction::appended(&old(builder).func,
                &final(builder).func, seq![InstV::Call { dest: Some(r), func: f, args: seq![val], ret_ty: IrType::Ptr }]),
            None => r == val && final(builder).func.code() == old(builder).func.code(),
        },
{
    if *target_ty != IrType::Ptr {
        if val_ty != IrType::Ptr {
            return val;
        }
        let (func, ret_ty) = match target_ty {
            IrType::F64 => ("__mixed_to_float", IrType::F64),
            _ => ("__mixed_to_int", IrType::I64),
        };
        let d = builder.new_value();
        let mut args: Vec<Value> = Vec::new();
        args.push(val);
        builder.emit(Inst::Call { dest: Some(d), func: func.to_owned(), args, ret_ty });
        assert(args@ =~= seq![val]);
        return d;
    }
    box_scalar(builder, &val_ty, val)
}

} // verus!
