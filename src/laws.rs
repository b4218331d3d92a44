//! Laws of the instruction semantics, proved from the frame-level specifications.
use vstd::prelude::*;
use crate::frame::{branch_target, compare_sign, Cond, FrameModel};
use crate::interp::{advanced, local_effect};
use crate::opcodes::OpCode;

verus! {

/// `i2b` is a shift left by 24 followed by an arithmetic shift right by 24, and `i2c`
/// keeps the low 16 bits.
pub proof fn lemma_narrowing(x: i32)
    ensures
        (x as i8) as i32 == (x << 24u32) >> 24u32,
        (x as u16) as i32 == x & 0xFFFF,
{
    assert((x as i8) as i32 == (x << 24u32) >> 24u32) by (bit_vector);
    assert((x as u16) as i32 == x & 0xFFFF) by (bit_vector);
}

/// On a frame, `i2b` and `i2c` replace the top int by those shifts and that mask.
pub proof fn lemma_i2b_i2c(f: FrameModel)
    requires
        f.operands.len() >= 1,
    ensures
        f.i2b() == f.unop((f.peek(0) << 24u32) >> 24u32),
        f.i2c() == f.unop(f.peek(0) & 0xFFFF),
{
    lemma_narrowing(f.peek(0));
}

/// `lcmp` pushes the sign of `v1 - v2`: one of `-1`, `0`, `1`.
pub proof fn lemma_lcmp_sign(a: int, b: int)
    ensures
        compare_sign(a, b) == -1 || compare_sign(a, b) == 0 || compare_sign(a, b) == 1,
        compare_sign(a, b) == 1 <==> a - b > 0,
        compare_sign(a, b) == 0 <==> a - b == 0,
        compare_sign(a, b) == -1 <==> a - b < 0,
{
}

/// For a branch opcode at position `p` (the pc has passed it and its two offset bytes),
/// offset `3` lands on the next instruction, as if the branch were not taken, and offset
/// `0` lands on the branch itself, so that it repeats forever.
pub proof fn lemma_branch_offsets(f: FrameModel, p: int, c: Cond)
    requires
        p >= 0,
        f.pc == p + 3,
        f.pc <= usize::MAX,
        f.operands.len() >= 1,
    ensures
        branch_target(f.pc, 3) == f.pc,
        branch_target(f.pc, 0) == p,
        f.goto(3) == f.branch(0, false, 3),
        f.goto(0) matches Ok(g) && g.pc == p,
        f.if_zero(c, 3) == f.branch(1, false, 3),
{
}

/// As one step of the interpreter sees it: `goto` with offset `0` leaves its frame as it
/// was, so the same `goto` runs again forever; with offset `3` it moves to the next
/// instruction, as a conditional branch with offset `3` does whether taken or not.
pub proof fn lemma_step_branch_offsets(f: FrameModel, c: Cond)
    requires
        f.pc >= 0,
        f.pc + 3 <= usize::MAX,
        f.operands.len() >= 1,
    ensures
        local_effect(OpCode::Goto { offset: 0 }, advanced(f, OpCode::Goto { offset: 0 })) == Some(Ok::<
            FrameModel,
            crate::error::RuntimeError,
        >(f)),
        local_effect(OpCode::Goto { offset: 3 }, advanced(f, OpCode::Goto { offset: 3 })) == Some(Ok::<
            FrameModel,
            crate::error::RuntimeError,
        >(advanced(f, OpCode::Goto { offset: 3 }))),
        local_effect(OpCode::IfEq { offset: 3 }, advanced(f, OpCode::IfEq { offset: 3 })) == Some(Ok::<
            FrameModel,
            crate::error::RuntimeError,
        >(advanced(f, OpCode::IfEq { offset: 3 }).with_operands(f.operands.drop_last()))),
{
    assert(f.operands.subrange(0, f.operands.len() as int) =~= f.operands);
    assert(f.operands.subrange(0, f.operands.len() - 1) =~= f.operands.drop_last());
    let g = advanced(f, OpCode::Goto { offset: 0 });
    assert(FrameModel { operands: g.operands.subrange(0, g.operands.len() as int), pc: f.pc, ..g } == f);
}

/// After `putstatic` sets the cell of field `fi` of a class to `v`, the same field is
/// still the first one with its name and descriptor, so a later `getstatic` of it reads `v`.
pub proof fn lemma_static_cell_read_back(
    before: crate::classloader::LoadedClass,
    after: crate::classloader::LoadedClass,
    fi: int,
    v: i32,
    name: Seq<u8>,
    desc: Seq<u8>,
)
    requires
        crate::engine::Runtime::static_cell_set(before, after, fi, v),
        before.class.first_field(name, desc) == Some(fi),
    ensures
        after.class.first_field(name, desc) == Some(fi),
        after.class.fields@[fi].value == v,
{
    let b = before.class;
    let a = after.class;
    assert(b.is_first_field(fi, name, desc)) by {
        let c = choose|c: int| b.is_first_field(c, name, desc);
        assert(b.is_first_field(c, name, desc));
    }
    assert(a.constant_pool@ == b.constant_pool@);
    assert forall|k: int| 0 <= k < a.fields@.len() implies a.field_matches(k, name, desc) == b.field_matches(k, name, desc) by {
        assert(a.fields@[k].name_index == b.fields@[k].name_index);
        assert(a.fields@[k].descriptor_index == b.fields@[k].descriptor_index);
        assert forall|i: int| #[trigger] a.utf8_at(i) == b.utf8_at(i) by {}
    }
    assert(a.is_first_field(fi, name, desc));
    let c = choose|c: int| a.is_first_field(c, name, desc);
    if c < fi {
        assert(!a.field_matches(c, name, desc));
    } else if c > fi {
        assert(!a.field_matches(fi, name, desc));
    }
}

/// A conditional branch on two ints with offset `3` falls through whichever way the
/// comparison goes.
pub proof fn lemma_if_icmp_offset_three(f: FrameModel, c: Cond)
    requires
        f.operands.len() >= 2,
        0 <= f.pc <= usize::MAX,
    ensures
        f.if_icmp(c, 3) == f.branch(2, false, 3),
        f.if_icmp(c, 3) matches Ok(g) && g.pc == f.pc && g.operands == f.operands.subrange(0, f.operands.len() - 2),
{
}

/// `lconst_1; lconst_1; ladd; l2i` leaves `2` on the stack.
pub proof fn lemma_long_one_plus_one(f: FrameModel)
    requires
        f.wf(),
        f.operands.len() + 4 <= f.max_stack,
    ensures
        f.push_long(1) matches Ok(g) && g.push_long(1) matches Ok(h) && h.long_binop(crate::frame::LongOp::Add) matches Ok(
            k,
        ) && k.l2i() == Ok::<FrameModel, crate::error::RuntimeError>(f.with_operands(f.operands.push(2))),
{
    assert(crate::frame::high_of(1i64) == 0i32 && crate::frame::low_of(1i64) == 1i32) by (bit_vector);
    assert(crate::frame::high_of(2i64) == 0i32 && crate::frame::low_of(2i64) == 2i32) by (bit_vector);
    let g = f.push_long(1)->Ok_0;
    let h = g.push_long(1)->Ok_0;
    assert(h.operands =~= f.operands + seq![0i32, 1i32, 0i32, 1i32]);
    assert(h.peek_long(2) == 1 && h.peek_long(0) == 1);
    let k = h.long_binop(crate::frame::LongOp::Add)->Ok_0;
    assert(k.operands =~= f.operands + seq![0i32, 2i32]);
    assert(k.l2i()->Ok_0.operands =~= f.operands.push(2));
}

/// `ifnull` branches when the popped reference is `0` and falls through otherwise;
/// `ifnonnull` does the opposite.
pub proof fn lemma_null_branches(f: FrameModel, offset: i16)
    requires
        f.operands.len() >= 1,
        0 <= branch_target(f.pc, offset) <= usize::MAX,
    ensures
        f.ifnull(offset) matches Ok(g) && g.operands == f.operands.drop_last() && g.pc == (if f.peek(0) == 0 {
            branch_target(f.pc, offset)
        } else {
            f.pc
        }),
        f.ifnonnull(offset) matches Ok(g) && g.pc == (if f.peek(0) != 0 {
            branch_target(f.pc, offset)
        } else {
            f.pc
        }),
{
    assert(f.operands.subrange(0, f.operands.len() - 1) =~= f.operands.drop_last());
}

} // verus!
