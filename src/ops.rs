//! The instructions, each acting on the runtime through its top frame.
use vstd::prelude::*;
use crate::engine::Runtime;
use crate::error::RuntimeError;
use crate::frame::{Cond, IntOp, LongOp};

verus! {

impl Runtime {
    /// Push a small int constant.
    pub fn iconst_op(&mut self, value: i8) -> (r: Result<(), RuntimeError>)
        requires
            old(self).wf(),
        ensures
            final(self).wf(),
            Self::top_step(*old(self), *final(self), r, old(self).top().push(value as i32)),
    {
        let n = self.frame_stack.len();
        if n == 0 {
            return Err(RuntimeError::StackFault);
        }
        self.frame_stack[n - 1].push(value as i32)
    }

    /// Push a small long constant as its high and low cells.
    pub fn lconst_op(&mut self, value: i8) -> (r: Result<(), RuntimeError>)
        requires
            old(self).wf(),
        ensures
            final(self).wf(),
            Self::top_step(*old(self), *final(self), r, old(self).top().push_long(value as i64)),
    {
        let n = self.frame_stack.len();
        if n == 0 {
            return Err(RuntimeError::StackFault);
        }
        self.frame_stack[n - 1].push_long(value as i64)
    }

    /// Push a sign-extended byte.
    pub fn bipush_op(&mut self, byte: i8) -> (r: Result<(), RuntimeError>)
        requires
            old(self).wf(),
        ensures
            final(self).wf(),
            Self::top_step(*old(self), *final(self), r, old(self).top().push(byte as i32)),
    {
        let n = self.frame_stack.len();
        if n == 0 {
            return Err(RuntimeError::StackFault);
        }
        self.frame_stack[n - 1].push(byte as i32)
    }

    /// Push a sign-extended short.
    pub fn sipush_op(&mut self, value: i16) -> (r: Result<(), RuntimeError>)
        requires
            old(self).wf(),
        ensures
            final(self).wf(),
            Self::top_step(*old(self), *final(self), r, old(self).top().push(value as i32)),
    {
        let n = self.frame_stack.len();
        if n == 0 {
            return Err(RuntimeError::StackFault);
        }
        self.frame_stack[n - 1].push(value as i32)
    }

    /// Copy an int local onto the stack.
    pub fn iload_op(&mut self, index: usize) -> (r: Result<(), RuntimeError>)
        requires
            old(self).wf(),
        ensures
            final(self).wf(),
            Self::top_step(*old(self), *final(self), r, old(self).top().load(index as int)),
    {
        let n = self.frame_stack.len();
        if n == 0 {
            return Err(RuntimeError::StackFault);
        }
        self.frame_stack[n - 1].load(index)
    }

    /// Copy a long local (two cells) onto the stack.
    pub fn lload_op(&mut self, index: usize) -> (r: Result<(), RuntimeError>)
        requires
            old(self).wf(),
        ensures
            final(self).wf(),
            Self::top_step(*old(self), *final(self), r, old(self).top().load_long(index as int)),
    {
        let n = self.frame_stack.len();
        if n == 0 {
            return Err(RuntimeError::StackFault);
        }
        self.frame_stack[n - 1].load_long(index)
    }

    /// Copy a reference local onto the stack.
    pub fn aload_op(&mut self, index: usize) -> (r: Result<(), RuntimeError>)
        requires
            old(self).wf(),
        ensures
            final(self).wf(),
            Self::top_step(*old(self), *final(self), r, old(self).top().load(index as int)),
    {
        let n = self.frame_stack.len();
        if n == 0 {
            return Err(RuntimeError::StackFault);
        }
        self.frame_stack[n - 1].load(index)
    }

    /// Pop an int into a local.
    pub fn istore_op(&mut self, index: usize) -> (r: Result<(), RuntimeError>)
        requires
            old(self).wf(),
        ensures
            final(self).wf(),
            Self::top_step(*old(self), *final(self), r, old(self).top().store(index as int)),
    {
        let n = self.frame_stack.len();
        if n == 0 {
            return Err(RuntimeError::StackFault);
        }
        self.frame_stack[n - 1].store(index)
    }

    /// Pop a long (two cells) into two locals.
    pub fn lstore_op(&mut self, index: usize) -> (r: Result<(), RuntimeError>)
        requires
            old(self).wf(),
        ensures
            final(self).wf(),
            Self::top_step(*old(self), *final(self), r, old(self).top().store_long(index as int)),
    {
        let n = self.frame_stack.len();
        if n == 0 {
            return Err(RuntimeError::StackFault);
        }
        self.frame_stack[n - 1].store_long(index)
    }

    /// Pop a reference into a local.
    pub fn astore_op(&mut self, index: usize) -> (r: Result<(), RuntimeError>)
        requires
            old(self).wf(),
        ensures
            final(self).wf(),
            Self::top_step(*old(self), *final(self), r, old(self).top().store(index as int)),
    {
        let n = self.frame_stack.len();
        if n == 0 {
            return Err(RuntimeError::StackFault);
        }
        self.frame_stack[n - 1].store(index)
    }

    /// `v1 + v2`, wrapping.
    pub fn iadd_op(&mut self) -> (r: Result<(), RuntimeError>)
        requires
            old(self).wf(),
        ensures
            final(self).wf(),
            Self::top_step(*old(self), *final(self), r, old(self).top().int_binop(IntOp::Add)),
    {
        let n = self.frame_stack.len();
        if n == 0 {
            return Err(RuntimeError::StackFault);
        }
        self.frame_stack[n - 1].int_binop(IntOp::Add)
    }

    /// `v1 - v2`, wrapping.
    pub fn isub_op(&mut self) -> (r: Result<(), RuntimeError>)
        requires
            old(self).wf(),
        ensures
            final(self).wf(),
            Self::top_step(*old(self), *final(self), r, old(self).top().int_binop(IntOp::Sub)),
    {
        let n = self.frame_stack.len();
        if n == 0 {
            return Err(RuntimeError::StackFault);
        }
        self.frame_stack[n - 1].int_binop(IntOp::Sub)
    }

    /// `v1 * v2`, wrapping.
    pub fn imul_op(&mut self) -> (r: Result<(), RuntimeError>)
        requires
            old(self).wf(),
        ensures
            final(self).wf(),
            Self::top_step(*old(self), *final(self), r, old(self).top().int_binop(IntOp::Mul)),
    {
        let n = self.frame_stack.len();
        if n == 0 {
            return Err(RuntimeError::StackFault);
        }
        self.frame_stack[n - 1].int_binop(IntOp::Mul)
    }

    /// `v1 / v2`, rounding toward zero.
    pub fn idiv_op(&mut self) -> (r: Result<(), RuntimeError>)
        requires
            old(self).wf(),
        ensures
            final(self).wf(),
            Self::top_step(*old(self), *final(self), r, old(self).top().int_binop(IntOp::Div)),
    {
        let n = self.frame_stack.len();
        if n == 0 {
            return Err(RuntimeError::StackFault);
        }
        self.frame_stack[n - 1].int_binop(IntOp::Div)
    }

    /// `v1 - (v1 / v2) * v2`, with division rounding toward zero.
    pub fn irem_op(&mut self) -> (r: Result<(), RuntimeError>)
        requires
            old(self).wf(),
        ensures
            final(self).wf(),
            Self::top_step(*old(self), *final(self), r, old(self).top().int_binop(IntOp::Rem)),
    {
        let n = self.frame_stack.len();
        if n == 0 {
            return Err(RuntimeError::StackFault);
        }
        self.frame_stack[n - 1].int_binop(IntOp::Rem)
    }

    /// `v1 << (v2 & 31)`.
    pub fn ishl_op(&mut self) -> (r: Result<(), RuntimeError>)
        requires
            old(self).wf(),
        ensures
            final(self).wf(),
            Self::top_step(*old(self), *final(self), r, old(self).top().int_binop(IntOp::Shl)),
    {
        let n = self.frame_stack.len();
        if n == 0 {
            return Err(RuntimeError::StackFault);
        }
        self.frame_stack[n - 1].int_binop(IntOp::Shl)
    }

    /// `v1 >>> (v2 & 31)`, shifting in zeros.
    pub fn iushr_op(&mut self) -> (r: Result<(), RuntimeError>)
        requires
            old(self).wf(),
        ensures
            final(self).wf(),
            Self::top_step(*old(self), *final(self), r, old(self).top().int_binop(IntOp::Ushr)),
    {
        let n = self.frame_stack.len();
        if n == 0 {
            return Err(RuntimeError::StackFault);
        }
        self.frame_stack[n - 1].int_binop(IntOp::Ushr)
    }

    /// Bitwise and.
    pub fn iand_op(&mut self) -> (r: Result<(), RuntimeError>)
        requires
            old(self).wf(),
        ensures
            final(self).wf(),
            Self::top_step(*old(self), *final(self), r, old(self).top().int_binop(IntOp::And)),
    {
        let n = self.frame_stack.len();
        if n == 0 {
            return Err(RuntimeError::StackFault);
        }
        self.frame_stack[n - 1].int_binop(IntOp::And)
    }

    /// Bitwise or.
    pub fn ior_op(&mut self) -> (r: Result<(), RuntimeError>)
        requires
            old(self).wf(),
        ensures
            final(self).wf(),
            Self::top_step(*old(self), *final(self), r, old(self).top().int_binop(IntOp::Or)),
    {
        let n = self.frame_stack.len();
        if n == 0 {
            return Err(RuntimeError::StackFault);
        }
        self.frame_stack[n - 1].int_binop(IntOp::Or)
    }

    /// Negate, wrapping.
    pub fn ineg_op(&mut self) -> (r: Result<(), RuntimeError>)
        requires
            old(self).wf(),
        ensures
            final(self).wf(),
            Self::top_step(*old(self), *final(self), r, old(self).top().ineg()),
    {
        let n = self.frame_stack.len();
        if n == 0 {
            return Err(RuntimeError::StackFault);
        }
        self.frame_stack[n - 1].ineg()
    }

    /// 64-bit `v1 + v2`, wrapping.
    pub fn ladd_op(&mut self) -> (r: Result<(), RuntimeError>)
        requires
            old(self).wf(),
        ensures
            final(self).wf(),
            Self::top_step(*old(self), *final(self), r, old(self).top().long_binop(LongOp::Add)),
    {
        let n = self.frame_stack.len();
        if n == 0 {
            return Err(RuntimeError::StackFault);
        }
        self.frame_stack[n - 1].long_binop(LongOp::Add)
    }

    /// 64-bit `v1 - v2`, wrapping.
    pub fn lsub_op(&mut self) -> (r: Result<(), RuntimeError>)
        requires
            old(self).wf(),
        ensures
            final(self).wf(),
            Self::top_step(*old(self), *final(self), r, old(self).top().long_binop(LongOp::Sub)),
    {
        let n = self.frame_stack.len();
        if n == 0 {
            return Err(RuntimeError::StackFault);
        }
        self.frame_stack[n - 1].long_binop(LongOp::Sub)
    }

    /// 64-bit `v1 * v2`, wrapping.
    pub fn lmul_op(&mut self) -> (r: Result<(), RuntimeError>)
        requires
            old(self).wf(),
        ensures
            final(self).wf(),
            Self::top_step(*old(self), *final(self), r, old(self).top().long_binop(LongOp::Mul)),
    {
        let n = self.frame_stack.len();
        if n == 0 {
            return Err(RuntimeError::StackFault);
        }
        self.frame_stack[n - 1].long_binop(LongOp::Mul)
    }

    /// 64-bit `v1 / v2`, rounding toward zero.
    pub fn ldiv_op(&mut self) -> (r: Result<(), RuntimeError>)
        requires
            old(self).wf(),
        ensures
            final(self).wf(),
            Self::top_step(*old(self), *final(self), r, old(self).top().long_binop(LongOp::Div)),
    {
        let n = self.frame_stack.len();
        if n == 0 {
            return Err(RuntimeError::StackFault);
        }
        self.frame_stack[n - 1].long_binop(LongOp::Div)
    }

    /// A long shifted left by the low six bits of an int.
    pub fn lshl_op(&mut self) -> (r: Result<(), RuntimeError>)
        requires
            old(self).wf(),
        ensures
            final(self).wf(),
            Self::top_step(*old(self), *final(self), r, old(self).top().lshl()),
    {
        let n = self.frame_stack.len();
        if n == 0 {
            return Err(RuntimeError::StackFault);
        }
        self.frame_stack[n - 1].lshl()
    }

    /// Compare two longs: `1`, `0` or `-1`.
    pub fn lcmp_op(&mut self) -> (r: Result<(), RuntimeError>)
        requires
            old(self).wf(),
        ensures
            final(self).wf(),
            Self::top_step(*old(self), *final(self), r, old(self).top().lcmp()),
    {
        let n = self.frame_stack.len();
        if n == 0 {
            return Err(RuntimeError::StackFault);
        }
        self.frame_stack[n - 1].lcmp()
    }

    /// Sign-extend an int to a long.
    pub fn i2l_op(&mut self) -> (r: Result<(), RuntimeError>)
        requires
            old(self).wf(),
        ensures
            final(self).wf(),
            Self::top_step(*old(self), *final(self), r, old(self).top().i2l()),
    {
        let n = self.frame_stack.len();
        if n == 0 {
            return Err(RuntimeError::StackFault);
        }
        self.frame_stack[n - 1].i2l()
    }

    /// Keep the low cell of a long.
    pub fn l2i_op(&mut self) -> (r: Result<(), RuntimeError>)
        requires
            old(self).wf(),
        ensures
            final(self).wf(),
            Self::top_step(*old(self), *final(self), r, old(self).top().l2i()),
    {
        let n = self.frame_stack.len();
        if n == 0 {
            return Err(RuntimeError::StackFault);
        }
        self.frame_stack[n - 1].l2i()
    }

    /// Narrow to a signed byte and sign-extend.
    pub fn i2b_op(&mut self) -> (r: Result<(), RuntimeError>)
        requires
            old(self).wf(),
        ensures
            final(self).wf(),
            Self::top_step(*old(self), *final(self), r, old(self).top().i2b()),
    {
        let n = self.frame_stack.len();
        if n == 0 {
            return Err(RuntimeError::StackFault);
        }
        self.frame_stack[n - 1].i2b()
    }

    /// Narrow to an unsigned 16-bit char and zero-extend.
    pub fn i2c_op(&mut self) -> (r: Result<(), RuntimeError>)
        requires
            old(self).wf(),
        ensures
            final(self).wf(),
            Self::top_step(*old(self), *final(self), r, old(self).top().i2c()),
    {
        let n = self.frame_stack.len();
        if n == 0 {
            return Err(RuntimeError::StackFault);
        }
        self.frame_stack[n - 1].i2c()
    }

    /// Duplicate the top cell.
    pub fn dup_op(&mut self) -> (r: Result<(), RuntimeError>)
        requires
            old(self).wf(),
        ensures
            final(self).wf(),
            Self::top_step(*old(self), *final(self), r, old(self).top().dup()),
    {
        let n = self.frame_stack.len();
        if n == 0 {
            return Err(RuntimeError::StackFault);
        }
        self.frame_stack[n - 1].dup()
    }

    /// Discard the top cell.
    pub fn pop_op(&mut self) -> (r: Result<(), RuntimeError>)
        requires
            old(self).wf(),
        ensures
            final(self).wf(),
            Self::top_step(*old(self), *final(self), r, old(self).top().pop()),
    {
        let n = self.frame_stack.len();
        if n == 0 {
            return Err(RuntimeError::StackFault);
        }
        self.frame_stack[n - 1].pop()
    }

    /// Add a sign-extended byte to an int local.
    pub fn iinc_op(&mut self, index: u8, immediate: i8) -> (r: Result<(), RuntimeError>)
        requires
            old(self).wf(),
        ensures
            final(self).wf(),
            Self::top_step(*old(self), *final(self), r, old(self).top().iinc(index as int, immediate)),
    {
        let n = self.frame_stack.len();
        if n == 0 {
            return Err(RuntimeError::StackFault);
        }
        self.frame_stack[n - 1].iinc(index as usize, immediate)
    }

    /// Pop an int; branch if it compares with zero as `cond` says.
    pub fn if_op(&mut self, branchoffset: i16, cond: Cond) -> (r: Result<(), RuntimeError>)
        requires
            old(self).wf(),
        ensures
            final(self).wf(),
            Self::top_step(*old(self), *final(self), r, old(self).top().if_zero(cond, branchoffset)),
    {
        let n = self.frame_stack.len();
        if n == 0 {
            return Err(RuntimeError::StackFault);
        }
        self.frame_stack[n - 1].if_zero(cond, branchoffset)
    }

    /// Pop `v2` then `v1`; branch if `v1 cond v2`.
    pub fn if_icmp_op(&mut self, branchoffset: i16, cond: Cond) -> (r: Result<(), RuntimeError>)
        requires
            old(self).wf(),
        ensures
            final(self).wf(),
            Self::top_step(*old(self), *final(self), r, old(self).top().if_icmp(cond, branchoffset)),
    {
        let n = self.frame_stack.len();
        if n == 0 {
            return Err(RuntimeError::StackFault);
        }
        self.frame_stack[n - 1].if_icmp(cond, branchoffset)
    }

    /// Branch unconditionally.
    pub fn goto_op(&mut self, branchoffset: i16) -> (r: Result<(), RuntimeError>)
        requires
            old(self).wf(),
        ensures
            final(self).wf(),
            Self::top_step(*old(self), *final(self), r, old(self).top().goto(branchoffset)),
    {
        let n = self.frame_stack.len();
        if n == 0 {
            return Err(RuntimeError::StackFault);
        }
        self.frame_stack[n - 1].goto(branchoffset)
    }

    /// Pop a reference; branch if it is null (`0`).
    pub fn ifnull_op(&mut self, branchoffset: i16) -> (r: Result<(), RuntimeError>)
        requires
            old(self).wf(),
        ensures
            final(self).wf(),
            Self::top_step(*old(self), *final(self), r, old(self).top().ifnull(branchoffset)),
    {
        let n = self.frame_stack.len();
        if n == 0 {
            return Err(RuntimeError::StackFault);
        }
        self.frame_stack[n - 1].ifnull(branchoffset)
    }

    /// Pop a reference; branch unless it is null (`0`).
    pub fn ifnonnull_op(&mut self, branchoffset: i16) -> (r: Result<(), RuntimeError>)
        requires
            old(self).wf(),
        ensures
            final(self).wf(),
            Self::top_step(*old(self), *final(self), r, old(self).top().ifnonnull(branchoffset)),
    {
        let n = self.frame_stack.len();
        if n == 0 {
            return Err(RuntimeError::StackFault);
        }
        self.frame_stack[n - 1].ifnonnull(branchoffset)
    }

}

} // verus!
