//! Lowering of literals and of runtime type tests (`x is T`).
use vstd::prelude::*;
use crate::ast::{Literal, Type};
use crate::builder::LowerBuilder;
use crate::ir::{BlockId, Inst, InstV, IrFunction, IrType, Value};

verus! {

/// The instruction a literal lowers to, given the destination value and the
/// index of an interned string.
pub open spec fn literal_inst(lit: Literal, dest: Value, idx: usize) -> InstV {
    match lit {
        Literal::Int(n) => InstV::ConstInt { dest, value: n },
        Literal::Float(b) => InstV::ConstFloat { dest, bits: b },
        Literal::Bool(b) => InstV::ConstBool { dest, value: b },
        Literal::String(_) => InstV::ConstStr { dest, idx },
        Literal::Null => InstV::ConstInt { dest, value: 0 },
    }
}

/// Emits the constant `lit` into a fresh value: integers, floats and
/// booleans as themselves, `null` as the integer 0, a string as a reference
/// to its interned copy.
pub fn lower_literal(builder: &mut LowerBuilder, lit: &Literal) -> (r: Value)
    requires
        old(builder).wf(),
    ensures
        LowerBuilder::kept(old(builder), final(builder)),
        r == Value(old(builder).func.next_value),
        exists|idx: usize| IrFunction::appended(&old(builder).func, &final(builder).func,
            seq![literal_inst(*lit, r, idx)]),
        match *lit {
            Literal::String(s) => {
                &&& final(builder).module.strings@.len() > 0
                &&& exists|idx: usize| idx < final(builder).module.strings@.len()
                    && final(builder).module.strings@[idx as int]@ == s@
                    && IrFunction::appended(&old(builder).func, &final(builder).func, seq![InstV::ConstStr { dest: r, idx }])
            },
            _ => final(builder).module == old(builder).module,
        },
        final(builder).locals == old(builder).locals,
        final(builder).owned_locals == old(builder).owned_locals,
{
    match lit {
        Literal::Int(n) => {
            let dest = builder.new_value();
            builder.emit(Inst::ConstInt { dest, value: *n });
            assert(literal_inst(*lit, dest, 0) == (Inst::ConstInt { dest, value: *n })@);
            dest
        },
        Literal::Float(b) => {
            let dest = builder.new_value();
            builder.emit(Inst::ConstFloat { dest, bits: *b });
            assert(literal_inst(*lit, dest, 0) == (Inst::ConstFloat { dest, bits: *b })@);
            dest
        },
        Literal::Bool(b) => {
            let dest = builder.new_value();
            builder.emit(Inst::ConstBool { dest, value: *b });
            assert(literal_inst(*lit, dest, 0) == (Inst::ConstBool { dest, value: *b })@);
            dest
        },
        Literal::String(s) => {
            let idx = builder.module.intern_string(s.as_str());
            let dest = builder.new_value();
            builder.emit(Inst::ConstStr { dest, idx });
            assert(literal_inst(*lit, dest, idx) == (Inst::ConstStr { dest, idx })@);
            dest
        },
        Literal::Null => {
            let dest = builder.new_value();
            builder.emit(Inst::ConstInt { dest, value: 0 });
            assert(literal_inst(*lit, dest, 0) == (Inst::ConstInt { dest, value: 0 })@);
            dest
        },
    }
}

/// Runtime test function for a primitive or container type.
pub open spec fn type_test_func(t: Type) -> Option<Seq<char>> {
    match t {
        Type::Null => Some("__is_null"@),
        Type::Int => Some("__is_int"@),
        Type::Float => Some("__is_float"@),
        Type::Bool => Some("__is_bool"@),
        Type::String => Some("__is_string"@),
        Type::Array(_) => Some("__is_array"@),
        Type::Dict(_, _) => Some("__is_map"@),
        Type::Function { .. } => Some("__is_function"@),
        _ => None,
    }
}

fn call1(builder: &mut LowerBuilder, func: &str, arg: Value, ret_ty: IrType) -> (r: Value)
    requires
        old(builder).wf(),
    ensures
        LowerBuilder::kept(old(builder), final(builder)),
        LowerBuilder::same_tables(old(builder), final(builder)),
        r == Value(old(builder).func.next_value),
        IrFunction::appended(&old(builder).func, &final(builder).func,
            seq![InstV::Call { dest: Some(r), func: func@, args: seq![arg], ret_ty }]),
{
    let dest = builder.new_value();
    let mut args: Vec<Value> = Vec::new();
    args.push(arg);
    builder.emit(Inst::Call { dest: Some(dest), func: func.to_owned(), args, ret_ty });
    assert(args@ =~= seq![arg]);
    dest
}

/// Emits the runtime test `val is ty`. Primitive and container types call
/// their runtime test; a class or interface name compares the object's
/// class identity with the candidates recorded for that name (see
/// `class_test_shape`); `mixed`,
/// `void` and unions are never satisfied (the constant `false`).
pub fn lower_is_check(builder: &mut LowerBuilder, val: &Value, ty: &Type) -> (r: Value)
    requires
        old(builder).wf(),
    ensures
        LowerBuilder::kept(old(builder), final(builder)),
        final(builder).locals == old(builder).locals,
        final(builder).owned_locals == old(builder).owned_locals,
        final(builder).module == old(builder).module,
        match type_test_func(*ty) {
            Some(f) => r == Value(old(builder).func.next_value) && IrFunction::appended(&old(builder).func,
                &final(builder).func, seq![InstV::Call { dest: Some(r), func: f, args: seq![*val], ret_ty: IrType::I64 }]),
            None => !(*ty is Named || *ty is Qualified) ==> IrFunction::appended(&old(builder).func,
                &final(builder).func, seq![InstV::ConstBool { dest: r, value: false }]),
        },
        *ty is Named ==> ({
            let n = ty->Named_0@;
            let known = old(builder).module.is_check_candidates@;
            &&& known.contains_key(n) ==> class_test_shape(old(builder).func, final(builder).func, *val, known[n]@, r)
            &&& !known.contains_key(n) ==> IrFunction::appended(&old(builder).func, &final(builder).func,
                seq![InstV::Call { dest: Some(r), func: "__is_object"@, args: seq![*val], ret_ty: IrType::I64 }])
        }),
{
    let f = match ty {
        Type::Null => "__is_null",
        Type::Int => "__is_int",
        Type::Float => "__is_float",
        Type::Bool => "__is_bool",
        Type::String => "__is_string",
        Type::Array(_) => "__is_array",
        Type::Dict(_, _) => "__is_map",
        Type::Function { .. } => "__is_function",
        Type::Named(n) => {
            return lower_class_or_interface_is_check(builder, val, n.as_str());
        },
        Type::Qualified(parts) => {
            let name = if parts.len() > 0 { parts[parts.len() - 1].clone() } else { String::new() };
            return lower_class_or_interface_is_check(builder, val, name.as_str());
        },
        _ => {
            let dest = builder.new_value();
            builder.emit(Inst::ConstBool { dest, value: false });
            return dest;
        },
    };
    call1(builder, f, *val, IrType::I64)
}

/// Position of the constant of candidate `i` in the block that checks a
/// class identity (see `class_test_shape`).
pub open spec fn cand_pos(i: int) -> int {
    if i == 0 { 1 } else { 3 * i }
}

/// The value holding "the identity matched one of the first `i + 1`
/// candidates" in the block `check` (see `class_test_shape`).
pub open spec fn match_after(check: Seq<InstV>, i: int) -> Value {
    if i == 0 { check[2]->CmpEq_dest } else { check[3 * i + 2]->Or_dest }
}

/// In the block `check`, candidate `i` of `cands` is compared with the
/// class identity `id`, and (after the first) or-ed with what came before.
pub open spec fn cand_ok(check: Seq<InstV>, cands: Seq<i64>, id: Value, i: int) -> bool {
    let c = check[cand_pos(i)];
    let t = check[cand_pos(i) + 1];
    &&& c is ConstInt && c->ConstInt_value == cands[i]
    &&& t is CmpEq && t->CmpEq_lhs == id && t->CmpEq_rhs == c->ConstInt_dest && t->CmpEq_ty == IrType::I64
    &&& i > 0 ==> check[3 * i + 2] is Or && check[3 * i + 2]->Or_lhs == match_after(check, i - 1)
        && check[3 * i + 2]->Or_rhs == t->CmpEq_dest
}

/// What is said of the first `k` candidates stays when code is appended.
proof fn lemma_cand_ok_prefix(before: Seq<InstV>, check: Seq<InstV>, cands: Seq<i64>, id: Value, i: int, k: int)
    requires
        0 <= i < k,
        before.len() == 3 * k,
        check.len() >= before.len(),
        check.subrange(0, before.len() as int) == before,
        cand_ok(before, cands, id, i),
    ensures
        cand_ok(check, cands, id, i),
        match_after(check, i) == match_after(before, i),
{
    assert(check[cand_pos(i)] == before[cand_pos(i)]);
    assert(check[cand_pos(i) + 1] == before[cand_pos(i) + 1]);
    assert(check[2] == before[2]);
    assert(check[3 * i + 2] == before[3 * i + 2]);
    if i > 1 {
        assert(check[3 * (i - 1) + 2] == before[3 * (i - 1) + 2]);
    }
}

/// `val is Name` for a class or interface `Name` whose satisfying class
/// identities are `cands`: a boolean slot starts false; when `val` is an
/// object (`__is_object`), a new block reads its class identity (16 bytes
/// before the object) and compares it with each candidate in turn, or-ing
/// the results, stores that in the slot and jumps to a second new block,
/// which is where lowering goes on and which loads the slot into `r`.
pub open spec fn class_test_shape(before: IrFunction, after: IrFunction, val: Value, cands: Seq<i64>, r: Value) -> bool {
    let k = before.current as int;
    let j = before.code()[k].len() as int;
    let blk = after.code()[k];
    let check_id = before.code().len() as int;
    let merge_id = check_id + 1;
    let check = after.code()[check_id];
    let slot = blk[j]->Alloca_dest;
    let n = cands.len() as int;
    let id = check[0]->GetField_dest;
    &&& after.code().len() == before.code().len() + 2
    &&& blk.len() == j + 7
    &&& blk[j] is Alloca && blk[j]->Alloca_ty == IrType::Bool
    &&& blk[j + 1] is ConstBool && blk[j + 1]->ConstBool_value == false
    &&& blk[j + 2] == (InstV::Store { ptr: slot, src: blk[j + 1]->ConstBool_dest })
    &&& blk[j + 3] is Call && blk[j + 3]->Call_func == "__is_object"@ && blk[j + 3]->Call_args == seq![val]
    &&& blk[j + 3]->Call_dest is Some
    &&& blk[j + 4] is ConstInt && blk[j + 4]->ConstInt_value == 0
    &&& blk[j + 5] is CmpNe && blk[j + 5]->CmpNe_lhs == blk[j + 3]->Call_dest->0
    &&& blk[j + 5]->CmpNe_rhs == blk[j + 4]->ConstInt_dest
    &&& blk[j + 6] == (InstV::Branch { cond: blk[j + 5]->CmpNe_dest, then_bb: BlockId(check_id as usize),
        else_bb: BlockId(merge_id as usize) })
    &&& check[0] is GetField && check[0]->GetField_obj == val && check[0]->GetField_field == "__class_id"@
    &&& check[0]->GetField_ty == IrType::I64 && check[0]->GetField_offset == -16
    &&& n == 0 ==> check.len() == 2 && check[1] == (InstV::Jump { target: BlockId(merge_id as usize) })
    &&& n > 0 ==> {
        &&& check.len() == 3 * n + 2
        &&& check[3 * n] == (InstV::Store { ptr: slot, src: match_after(check, n - 1) })
        &&& check[3 * n + 1] == (InstV::Jump { target: BlockId(merge_id as usize) })
    }
    &&& forall|i: int| 0 <= i < n ==> #[trigger] cand_ok(check, cands, id, i)
    &&& after.current == merge_id
    &&& after.code()[merge_id] == seq![InstV::Load { dest: r, ptr: slot, ty: IrType::Bool }]
}

/// `val is Name` for a class or interface: true when `val` is an object
/// whose class identity is one of the candidates recorded for `Name`;
/// an unknown name only tests that `val` is an object.
#[verifier::rlimit(40)]
fn lower_class_or_interface_is_check(builder: &mut LowerBuilder, val: &Value, name: &str) -> (r: Value)
    requires
        old(builder).wf(),
    ensures
        LowerBuilder::kept(old(builder), final(builder)),
        final(builder).locals == old(builder).locals,
        final(builder).owned_locals == old(builder).owned_locals,
        final(builder).module == old(builder).module,
        !old(builder).module.is_check_candidates@.contains_key(name@) ==> IrFunction::appended(&old(builder).func,
            &final(builder).func, seq![InstV::Call { dest: Some(r), func: "__is_object"@, args: seq![*val], ret_ty: IrType::I64 }]),
        old(builder).module.is_check_candidates@.contains_key(name@) ==> class_test_shape(old(builder).func,
            final(builder).func, *val, old(builder).module.is_check_candidates@[name@]@, r),
{
    let candidates: Vec<i64> = match builder.module.is_check_candidates.get(name) {
        Some(c) => c.clone(),
        None => {
            return call1(builder, "__is_object", *val, IrType::I64);
        },
    };
    let ghost cands = old(builder).module.is_check_candidates@[name@]@;
    proof {
        assert(candidates@ =~= cands);
    }
    let ghost f0 = builder.func;
    let ghost k0 = f0.current as int;
    let ghost j0 = f0.code()[k0].len() as int;
    let ghost l0 = f0.code().len() as int;
    let result_slot = builder.new_value();
    builder.emit(Inst::Alloca { dest: result_slot, ty: IrType::Bool });
    let false_val = builder.new_value();
    builder.emit(Inst::ConstBool { dest: false_val, value: false });
    builder.emit(Inst::Store { ptr: result_slot, src: false_val });
    let is_obj_raw = call1(builder, "__is_object", *val, IrType::I64);
    let zero = builder.new_value();
    builder.emit(Inst::ConstInt { dest: zero, value: 0 });
    let is_obj = builder.new_value();
    builder.emit(Inst::CmpNe { dest: is_obj, lhs: is_obj_raw, rhs: zero, ty: IrType::I64 });
    let check_bb = builder.new_block();
    let merge_bb = builder.new_block();
    builder.emit(Inst::Branch { cond: is_obj, then_bb: check_bb, else_bb: merge_bb });
    let ghost blk_k = builder.func.code()[k0];
    proof {
        assert(blk_k == f0.code()[k0] + seq![
            InstV::Alloca { dest: result_slot, ty: IrType::Bool },
            InstV::ConstBool { dest: false_val, value: false },
            InstV::Store { ptr: result_slot, src: false_val },
            InstV::Call { dest: Some(is_obj_raw), func: "__is_object"@, args: seq![*val], ret_ty: IrType::I64 },
            InstV::ConstInt { dest: zero, value: 0 },
            InstV::CmpNe { dest: is_obj, lhs: is_obj_raw, rhs: zero, ty: IrType::I64 },
            InstV::Branch { cond: is_obj, then_bb: check_bb, else_bb: merge_bb },
        ]);
        assert(builder.func.code().len() == l0 + 2);
        assert(builder.func.code()[l0] == Seq::<InstV>::empty());
        assert(builder.func.code()[l0 + 1] == Seq::<InstV>::empty());
    }
    builder.switch_to(&check_bb);
    let class_id_val = builder.new_value();
    builder.emit(Inst::GetField {
        dest: class_id_val,
        obj: *val,
        field: "__class_id".to_owned(),
        ty: IrType::I64,
        offset: -16,
    });
    let ghost gf = InstV::GetField { dest: class_id_val, obj: *val, field: "__class_id"@, ty: IrType::I64, offset: -16i32 };
    proof {
        assert(builder.func.code()[l0] == seq![gf]);
    }
    if candidates.len() > 0 {
        let id_const = builder.new_value();
        builder.emit(Inst::ConstInt { dest: id_const, value: candidates[0] });
        let mut match_val = builder.new_value();
        builder.emit(Inst::CmpEq { dest: match_val, lhs: class_id_val, rhs: id_const, ty: IrType::I64 });
        proof {
            let check = builder.func.code()[l0];
            assert(check == seq![gf, InstV::ConstInt { dest: id_const, value: candidates@[0] },
                InstV::CmpEq { dest: match_val, lhs: class_id_val, rhs: id_const, ty: IrType::I64 }]);
            assert(cand_ok(check, cands, class_id_val, 0));
        }
        let mut k: usize = 1;
        while k < candidates.len()
            invariant
                LowerBuilder::kept(old(builder), builder),
                builder.locals == old(builder).locals,
                builder.owned_locals == old(builder).owned_locals,
                builder.module == old(builder).module,
                1 <= k <= candidates@.len(),
                candidates@ == cands,
                builder.func.current == l0,
                builder.func.code().len() == l0 + 2,
                builder.func.code()[k0] == blk_k,
                builder.func.code()[l0 + 1] == Seq::<InstV>::empty(),
                builder.func.code()[l0].len() == 3 * k,
                builder.func.code()[l0][0] == gf,
                0 <= k0 < l0,
                match_val == match_after(builder.func.code()[l0], k - 1),
                forall|i: int| 0 <= i < k ==> #[trigger] cand_ok(builder.func.code()[l0], cands, class_id_val, i),
            decreases candidates@.len() - k,
        {
            let ghost before = builder.func.code()[l0];
            let c = builder.new_value();
            builder.emit(Inst::ConstInt { dest: c, value: candidates[k] });
            let same_id = builder.new_value();
            builder.emit(Inst::CmpEq { dest: same_id, lhs: class_id_val, rhs: c, ty: IrType::I64 });
            let combined = builder.new_value();
            builder.emit(Inst::Or { dest: combined, lhs: match_val, rhs: same_id });
            proof {
                let check = builder.func.code()[l0];
                assert(check == before + seq![InstV::ConstInt { dest: c, value: candidates@[k as int] },
                    InstV::CmpEq { dest: same_id, lhs: class_id_val, rhs: c, ty: IrType::I64 },
                    InstV::Or { dest: combined, lhs: match_val, rhs: same_id }]);
                assert(check.subrange(0, before.len() as int) =~= before);
                assert forall|i: int| 0 <= i < k + 1 implies #[trigger] cand_ok(check, cands, class_id_val, i) by {
                    if i < k {
                        lemma_cand_ok_prefix(before, check, cands, class_id_val, i, k as int);
                    } else {
                        lemma_cand_ok_prefix(before, check, cands, class_id_val, i - 1, k as int);
                        assert(check[3 * i + 2] == (InstV::Or { dest: combined, lhs: match_val, rhs: same_id }));
                    }
                }
                assert(check[3 * k + 2]->Or_dest == combined);
            }
            match_val = combined;
            k = k + 1;
        }
        let ghost before_store = builder.func.code()[l0];
        builder.emit(Inst::Store { ptr: result_slot, src: match_val });
        builder.emit(Inst::Jump { target: merge_bb });
        proof {
            let check = builder.func.code()[l0];
            let n = cands.len() as int;
            assert(check == before_store + seq![InstV::Store { ptr: result_slot, src: match_val },
                InstV::Jump { target: merge_bb }]);
            assert(check.subrange(0, before_store.len() as int) =~= before_store);
            lemma_cand_ok_prefix(before_store, check, cands, class_id_val, n - 1, n);
            assert forall|i: int| 0 <= i < n implies #[trigger] cand_ok(check, cands, class_id_val, i) by {
                lemma_cand_ok_prefix(before_store, check, cands, class_id_val, i, n);
            }
        }
    } else {
        builder.emit(Inst::Jump { target: merge_bb });
    }
    let ghost before_merge = builder.func;
    builder.switch_to(&merge_bb);
    let final_val = builder.new_value();
    builder.emit(Inst::Load { dest: final_val, ptr: result_slot, ty: IrType::Bool });
    proof {
        assert(builder.func.code()[l0] == before_merge.code()[l0]);
        assert(builder.func.code()[k0] == blk_k);
    }
    final_val
}

} // verus!
