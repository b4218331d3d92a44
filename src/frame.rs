//! Frames: the per-invocation record of locals, operand stack and pc, and the
//! frame-local instructions that act on one frame alone.
use vstd::prelude::*;
use crate::error::RuntimeError;

verus! {

/// The (declaring class, method) pair a frame executes, with that method's bytecode.
#[derive(Debug)]
pub struct Location {
    /// Position of the declaring class in the class loader.
    pub class_index: usize,
    /// Position of the method in the declaring class's method list.
    pub method_index: usize,
    pub code: Vec<u8>,
}

impl Location {
    pub fn new(class_index: usize, method_index: usize, code: Vec<u8>) -> (r: Location)
        ensures
            r.class_index == class_index,
            r.method_index == method_index,
            r.code == code,
    {
        Location { class_index, method_index, code }
    }
}

/// One method invocation: locals sized to `max_locals`, an operand stack bounded by
/// `max_stack`, and the pc within the method's code.
#[derive(Debug)]
pub struct Frame {
    pub max_locals: usize,
    pub max_stack: usize,
    pub pc: usize,
    pub location: Location,
    pub operands: Vec<i32>,
    pub locals: Vec<i32>,
}

/// The mathematical content of a frame.
pub ghost struct FrameModel {
    pub max_locals: nat,
    pub max_stack: nat,
    pub pc: int,
    pub class_index: nat,
    pub method_index: nat,
    pub code: Seq<u8>,
    pub operands: Seq<i32>,
    pub locals: Seq<i32>,
}

impl View for Frame {
    type V = FrameModel;

    open spec fn view(&self) -> FrameModel {
        FrameModel {
            max_locals: self.max_locals as nat,
            max_stack: self.max_stack as nat,
            pc: self.pc as int,
            class_index: self.location.class_index as nat,
            method_index: self.location.method_index as nat,
            code: self.location.code@,
            operands: self.operands@,
            locals: self.locals@,
        }
    }
}

/// The 32-bit integer instructions with two operands.
#[derive(Debug, Clone, Copy, PartialEq, Eq, Structural)]
pub enum IntOp {
    Add,
    Sub,
    Mul,
    Div,
    Rem,
    Shl,
    Ushr,
    And,
    Or,
}

/// The 64-bit integer instructions with two long operands.
#[derive(Debug, Clone, Copy, PartialEq, Eq, Structural)]
pub enum LongOp {
    Add,
    Sub,
    Mul,
    Div,
}

/// The comparisons of the conditional branches.
#[derive(Debug, Clone, Copy, PartialEq, Eq, Structural)]
pub enum Cond {
    Eq,
    Ne,
    Lt,
    Le,
    Gt,
    Ge,
}

pub open spec fn cond_holds(c: Cond, a: i32, b: i32) -> bool {
    match c {
        Cond::Eq => a == b,
        Cond::Ne => a != b,
        Cond::Lt => a < b,
        Cond::Le => a <= b,
        Cond::Gt => a > b,
        Cond::Ge => a >= b,
    }
}

/// Division rounding toward zero.
pub open spec fn trunc_div(x: int, d: int) -> int {
    if x == 0 {
        0
    } else if x > 0 && d > 0 {
        x / d
    } else if x < 0 && d < 0 {
        (x * -1) / (d * -1)
    } else if x < 0 {
        ((x * -1) / d) * -1
    } else {
        (x / (d * -1)) * -1
    }
}

/// The remainder that goes with `trunc_div`.
pub open spec fn trunc_rem(x: int, d: int) -> int {
    x - trunc_div(x, d) * d
}

/// The result of a two-operand int instruction; `None` for a division by zero.
pub open spec fn int_op(op: IntOp, a: i32, b: i32) -> Option<i32> {
    match op {
        IntOp::Add => Some((a + b) as i32),
        IntOp::Sub => Some((a - b) as i32),
        IntOp::Mul => Some((a * b) as i32),
        IntOp::Div => if b == 0 {
            None
        } else {
            Some(trunc_div(a as int, b as int) as i32)
        },
        IntOp::Rem => if b == 0 {
            None
        } else {
            Some(trunc_rem(a as int, b as int) as i32)
        },
        IntOp::Shl => Some(a << ((b & 31) as u32)),
        IntOp::Ushr => Some(((a as u32) >> ((b & 31) as u32)) as i32),
        IntOp::And => Some(a & b),
        IntOp::Or => Some(a | b),
    }
}

/// The 64-bit value held by a high and a low cell.
pub open spec fn long_val(hi: i32, lo: i32) -> int {
    hi as int * 0x1_0000_0000 + (lo as u32) as int
}

/// The result of a two-operand long instruction; `None` for a division by zero.
pub open spec fn long_op(op: LongOp, a: int, b: int) -> Option<i64> {
    match op {
        LongOp::Add => Some((a + b) as i64),
        LongOp::Sub => Some((a - b) as i64),
        LongOp::Mul => Some((a * b) as i64),
        LongOp::Div => if b == 0 {
            None
        } else {
            Some(trunc_div(a, b) as i64)
        },
    }
}

/// The high cell of a long.
pub open spec fn high_of(v: i64) -> i32 {
    (v >> 32i64) as i32
}

/// The low cell of a long.
pub open spec fn low_of(v: i64) -> i32 {
    v as i32
}

/// The sign of `a - b`.
pub open spec fn compare_sign(a: int, b: int) -> i32 {
    if a > b {
        1i32
    } else if a == b {
        0i32
    } else {
        -1i32
    }
}

/// The pc a taken branch goes to, from the pc after its two offset bytes: the
/// branch opcode's own position plus the offset.
pub open spec fn branch_target(pc_after: int, offset: i16) -> int {
    pc_after + offset - 3
}

impl FrameModel {
    pub open spec fn wf(self) -> bool {
        self.locals.len() == self.max_locals && self.operands.len() <= self.max_stack
    }

    pub open spec fn with_operands(self, ops: Seq<i32>) -> FrameModel {
        FrameModel { operands: ops, ..self }
    }

    /// Drop the top `n` cells and push `vals`, if the stack holds `n` cells and has room.
    pub open spec fn replace_top(self, n: nat, vals: Seq<i32>) -> Result<FrameModel, RuntimeError> {
        if self.operands.len() < n || self.operands.len() - n + vals.len() > self.max_stack {
            Err(RuntimeError::StackFault)
        } else {
            Ok(
                self.with_operands(
                    self.operands.subrange(0, self.operands.len() - n) + vals,
                ),
            )
        }
    }

    /// The operand `k` cells below the top (`0` is the top).
    pub open spec fn peek(self, k: int) -> i32 {
        self.operands[self.operands.len() - 1 - k]
    }

    pub open spec fn push(self, v: i32) -> Result<FrameModel, RuntimeError> {
        self.replace_top(0, seq![v])
    }

    pub open spec fn push_long(self, v: i64) -> Result<FrameModel, RuntimeError> {
        self.replace_top(0, seq![high_of(v), low_of(v)])
    }

    pub open spec fn int_binop(self, op: IntOp) -> Result<FrameModel, RuntimeError> {
        if self.operands.len() < 2 {
            Err(RuntimeError::StackFault)
        } else {
            match int_op(op, self.peek(1), self.peek(0)) {
                Some(v) => self.replace_top(2, seq![v]),
                None => Err(RuntimeError::DivisionByZero),
            }
        }
    }

    /// The long made of the cells `k` and `k + 1` below the top.
    pub open spec fn peek_long(self, k: int) -> int {
        long_val(self.peek(k + 1), self.peek(k))
    }

    pub open spec fn long_binop(self, op: LongOp) -> Result<FrameModel, RuntimeError> {
        if self.operands.len() < 4 {
            Err(RuntimeError::StackFault)
        } else {
            match long_op(op, self.peek_long(2), self.peek_long(0)) {
                Some(v) => self.replace_top(4, seq![high_of(v), low_of(v)]),
                None => Err(RuntimeError::DivisionByZero),
            }
        }
    }

    /// `lshl`: a long shifted left by the low six bits of an int.
    pub open spec fn lshl(self) -> Result<FrameModel, RuntimeError> {
        if self.operands.len() < 3 {
            Err(RuntimeError::StackFault)
        } else {
            let v = (self.peek_long(1) as i64) << ((self.peek(0) & 63) as u32);
            self.replace_top(3, seq![high_of(v), low_of(v)])
        }
    }

    pub open spec fn lcmp(self) -> Result<FrameModel, RuntimeError> {
        if self.operands.len() < 4 {
            Err(RuntimeError::StackFault)
        } else {
            self.replace_top(4, seq![compare_sign(self.peek_long(2), self.peek_long(0))])
        }
    }

    /// Replace the top cell by `f` of it.
    pub open spec fn unop(self, v: i32) -> Result<FrameModel, RuntimeError> {
        if self.operands.len() < 1 {
            Err(RuntimeError::StackFault)
        } else {
            self.replace_top(1, seq![v])
        }
    }

    pub open spec fn ineg(self) -> Result<FrameModel, RuntimeError> {
        self.unop((0 - self.peek(0)) as i32)
    }

    pub open spec fn i2b(self) -> Result<FrameModel, RuntimeError> {
        self.unop((self.peek(0) as i8) as i32)
    }

    pub open spec fn i2c(self) -> Result<FrameModel, RuntimeError> {
        self.unop((self.peek(0) as u16) as i32)
    }

    /// `i2l`: sign-extend the top int into a long.
    pub open spec fn i2l(self) -> Result<FrameModel, RuntimeError> {
        if self.operands.len() < 1 {
            Err(RuntimeError::StackFault)
        } else {
            self.replace_top(1, seq![if self.peek(0) < 0 { -1i32 } else { 0i32 }, self.peek(0)])
        }
    }

    /// `l2i`: keep the low cell of the top long.
    pub open spec fn l2i(self) -> Result<FrameModel, RuntimeError> {
        if self.operands.len() < 2 {
            Err(RuntimeError::StackFault)
        } else {
            self.replace_top(2, seq![self.peek(0)])
        }
    }

    pub open spec fn dup(self) -> Result<FrameModel, RuntimeError> {
        if self.operands.len() < 1 {
            Err(RuntimeError::StackFault)
        } else {
            self.replace_top(1, seq![self.peek(0), self.peek(0)])
        }
    }

    pub open spec fn pop(self) -> Result<FrameModel, RuntimeError> {
        self.replace_top(1, seq![])
    }

    pub open spec fn load(self, index: int) -> Result<FrameModel, RuntimeError> {
        if 0 <= index < self.locals.len() {
            self.push(self.locals[index])
        } else {
            Err(RuntimeError::StackFault)
        }
    }

    pub open spec fn load_long(self, index: int) -> Result<FrameModel, RuntimeError> {
        if 0 <= index && index + 1 < self.locals.len() {
            self.replace_top(0, seq![self.locals[index], self.locals[index + 1]])
        } else {
            Err(RuntimeError::StackFault)
        }
    }

    pub open spec fn store(self, index: int) -> Result<FrameModel, RuntimeError> {
        if self.operands.len() < 1 || !(0 <= index < self.locals.len()) {
            Err(RuntimeError::StackFault)
        } else {
            Ok(
                FrameModel {
                    locals: self.locals.update(index, self.peek(0)),
                    operands: self.operands.drop_last(),
                    ..self
                },
            )
        }
    }

    pub open spec fn store_long(self, index: int) -> Result<FrameModel, RuntimeError> {
        if self.operands.len() < 2 || !(0 <= index && index + 1 < self.locals.len()) {
            Err(RuntimeError::StackFault)
        } else {
            Ok(
                FrameModel {
                    locals: self.locals.update(index, self.peek(1)).update(index + 1, self.peek(0)),
                    operands: self.operands.subrange(0, self.operands.len() - 2),
                    ..self
                },
            )
        }
    }

    pub open spec fn iinc(self, index: int, delta: i8) -> Result<FrameModel, RuntimeError> {
        if !(0 <= index < self.locals.len()) {
            Err(RuntimeError::StackFault)
        } else {
            Ok(
                FrameModel {
                    locals: self.locals.update(index, (self.locals[index] + delta) as i32),
                    ..self
                },
            )
        }
    }

    /// Move to `branch_target(pc, offset)` when `taken`, after dropping `n` cells.
    pub open spec fn branch(self, n: nat, taken: bool, offset: i16) -> Result<FrameModel, RuntimeError> {
        if self.operands.len() < n {
            Err(RuntimeError::StackFault)
        } else if taken && !(0 <= branch_target(self.pc, offset) <= usize::MAX) {
            Err(RuntimeError::UnsupportedOpcode)
        } else {
            Ok(
                FrameModel {
                    operands: self.operands.subrange(0, self.operands.len() - n),
                    pc: if taken {
                        branch_target(self.pc, offset)
                    } else {
                        self.pc
                    },
                    ..self
                },
            )
        }
    }

    /// `if<cond>`: compare the top int with zero.
    pub open spec fn if_zero(self, c: Cond, offset: i16) -> Result<FrameModel, RuntimeError> {
        self.branch(1, self.operands.len() >= 1 && cond_holds(c, self.peek(0), 0), offset)
    }

    /// `if_icmp<cond>`: compare the two top ints.
    pub open spec fn if_icmp(self, c: Cond, offset: i16) -> Result<FrameModel, RuntimeError> {
        self.branch(2, self.operands.len() >= 2 && cond_holds(c, self.peek(1), self.peek(0)), offset)
    }

    pub open spec fn ifnull(self, offset: i16) -> Result<FrameModel, RuntimeError> {
        self.branch(1, self.operands.len() >= 1 && self.peek(0) == 0, offset)
    }

    pub open spec fn ifnonnull(self, offset: i16) -> Result<FrameModel, RuntimeError> {
        self.branch(1, self.operands.len() >= 1 && self.peek(0) != 0, offset)
    }

    pub open spec fn goto(self, offset: i16) -> Result<FrameModel, RuntimeError> {
        self.branch(0, true, offset)
    }
}

/// The frame after an instruction whose effect is `res`.
pub open spec fn outcome(res: Result<FrameModel, RuntimeError>, after: FrameModel, r: Result<(), RuntimeError>) -> bool {
    match res {
        Ok(m) => r is Ok && after == m,
        Err(e) => r == Err::<(), RuntimeError>(e),
    }
}

/// `trunc_div` is no larger in size than the dividend.
pub proof fn lemma_trunc_div_bounds(x: int, d: int)
    requires
        d != 0,
    ensures
        x >= 0 ==> -x <= trunc_div(x, d) <= x,
        x < 0 ==> x <= trunc_div(x, d) <= -x,
{
    let ax = if x < 0 { -x } else { x };
    let ad = if d < 0 { -d } else { d };
    vstd::arithmetic::div_mod::lemma_div_is_ordered_by_denominator(ax, 1, ad);
    vstd::arithmetic::div_mod::lemma_div_is_ordered(0, ax, ad);
    assert(ax / 1 == ax);
    assert(0int / ad == 0);
}

/// The value of a two-operand int instruction.
pub fn apply_int_op(op: IntOp, a: i32, b: i32) -> (r: Option<i32>)
    ensures
        r == int_op(op, a, b),
{
    match op {
        IntOp::Add => Some((a as i64 + b as i64) as i32),
        IntOp::Sub => Some((a as i64 - b as i64) as i32),
        IntOp::Mul => {
            assert(-0x4000_0000_0000_0000 <= (a as int) * (b as int) <= 0x4000_0000_0000_0000)
                by (nonlinear_arith)
                requires
                    -0x8000_0000 <= a <= 0x8000_0000,
                    -0x8000_0000 <= b <= 0x8000_0000,
            ;
            Some((a as i64 * b as i64) as i32)
        },
        IntOp::Div | IntOp::Rem => {
            if b == 0 {
                return None;
            }
            proof {
                lemma_trunc_div_bounds(a as int, b as int);
            }
            let q = match (a as i64).checked_div(b as i64) {
                Some(q) => q,
                None => return None,
            };
            assert(q == trunc_div(a as int, b as int));
            if op == IntOp::Div {
                Some(q as i32)
            } else {
                assert(-0x4000_0000_0000_0000 <= (q as int) * (b as int) <= 0x4000_0000_0000_0000)
                    by (nonlinear_arith)
                    requires
                        -0x8000_0000 <= q <= 0x8000_0000,
                        -0x8000_0000 <= b <= 0x8000_0000,
                ;
                Some((a as i64 - q * b as i64) as i32)
            }
        },
        IntOp::Shl => {
            let s = (b & 31) as u32;
            assert(((b & 31) as u32) < 32) by (bit_vector);
            Some(a.wrapping_shl(s))
        },
        IntOp::Ushr => {
            let s = (b & 31) as u32;
            assert(((b & 31) as u32) < 32) by (bit_vector);
            Some(((a as u32) >> s) as i32)
        },
        IntOp::And => Some(a & b),
        IntOp::Or => Some(a | b),
    }
}

/// The long that a high and a low cell hold.
pub fn make_long(hi: i32, lo: i32) -> (r: i64)
    ensures
        r == long_val(hi, lo),
{
    hi as i64 * 0x1_0000_0000 + (lo as u32) as i64
}

/// The value of a two-operand long instruction.
pub fn apply_long_op(op: LongOp, a: i64, b: i64) -> (r: Option<i64>)
    ensures
        r == long_op(op, a as int, b as int),
{
    match op {
        LongOp::Add => Some((a as i128 + b as i128) as i64),
        LongOp::Sub => Some((a as i128 - b as i128) as i64),
        LongOp::Mul => {
            assert(-0x4000_0000_0000_0000_0000_0000_0000_0000 <= (a as int) * (b as int)
                <= 0x4000_0000_0000_0000_0000_0000_0000_0000) by (nonlinear_arith)
                requires
                    -0x8000_0000_0000_0000 <= a <= 0x8000_0000_0000_0000,
                    -0x8000_0000_0000_0000 <= b <= 0x8000_0000_0000_0000,
            ;
            Some((a as i128 * b as i128) as i64)
        },
        LongOp::Div => {
            if b == 0 {
                return None;
            }
            proof {
                lemma_trunc_div_bounds(a as int, b as int);
            }
            match (a as i128).checked_div(b as i128) {
                Some(q) => Some(q as i64),
                None => None,
            }
        },
    }
}

impl Frame {
    pub fn new(max_locals: usize, max_stack: usize, pc: usize, location: Location) -> (r: Frame)
        ensures
            r@.wf(),
            r.max_locals == max_locals,
            r.max_stack == max_stack,
            r.pc == pc,
            r.location == location,
            r@.operands.len() == 0,
            r@.locals == Seq::new(max_locals as nat, |i: int| 0i32),
    {
        let mut locals: Vec<i32> = Vec::new();
        let mut i: usize = 0;
        while i < max_locals
            invariant
                i <= max_locals,
                locals@ == Seq::new(i as nat, |j: int| 0i32),
            decreases max_locals - i,
        {
            locals.push(0);
            i += 1;
            assert(locals@ =~= Seq::new(i as nat, |j: int| 0i32));
        }
        Frame { max_locals, max_stack, pc, location, operands: Vec::new(), locals }
    }

    /// Whether the stack holds `n` cells and, once they are dropped, has room for `k`.
    fn fits(&self, n: usize, k: usize) -> (r: bool)
        requires
            k <= 2,
        ensures
            r == (self.operands@.len() >= n && self.operands@.len() - n + k <= self.max_stack),
    {
        self.operands.len() >= n && k <= self.max_stack && self.operands.len() - n <= self.max_stack - k
    }

    /// Drop the top `n` cells and push `v`.
    pub fn set_top(&mut self, n: usize, v: i32) -> (r: Result<(), RuntimeError>)
        requires
            old(self)@.wf(),
        ensures
            final(self)@.wf(),
            outcome(old(self)@.replace_top(n as nat, seq![v]), final(self)@, r),
    {
        if !self.fits(n, 1) {
            return Err(RuntimeError::StackFault);
        }
        let len = self.operands.len();
        self.operands.truncate(len - n);
        self.operands.push(v);
        assert(self@.operands =~= old(self)@.replace_top(n as nat, seq![v])->Ok_0.operands);
        Ok(())
    }

    /// Drop the top `n` cells and push `a`, then `b`.
    fn set_top2(&mut self, n: usize, a: i32, b: i32) -> (r: Result<(), RuntimeError>)
        requires
            old(self)@.wf(),
        ensures
            final(self)@.wf(),
            outcome(old(self)@.replace_top(n as nat, seq![a, b]), final(self)@, r),
    {
        if !self.fits(n, 2) {
            return Err(RuntimeError::StackFault);
        }
        let len = self.operands.len();
        self.operands.truncate(len - n);
        self.operands.push(a);
        self.operands.push(b);
        assert(self@.operands =~= old(self)@.replace_top(n as nat, seq![a, b])->Ok_0.operands);
        Ok(())
    }

    /// Drop the top `n` cells.
    pub fn drop_top(&mut self, n: usize) -> (r: Result<(), RuntimeError>)
        requires
            old(self)@.wf(),
        ensures
            final(self)@.wf(),
            outcome(old(self)@.replace_top(n as nat, seq![]), final(self)@, r),
    {
        if !self.fits(n, 0) {
            return Err(RuntimeError::StackFault);
        }
        let len = self.operands.len();
        self.operands.truncate(len - n);
        assert(self@.operands =~= old(self)@.replace_top(n as nat, seq![])->Ok_0.operands);
        Ok(())
    }

    /// The cell `k` below the top.
    fn peek(&self, k: usize) -> (r: i32)
        requires
            k < self.operands@.len(),
        ensures
            r == self@.peek(k as int),
    {
        self.operands[self.operands.len() - 1 - k]
    }

    /// The long in the cells `k` and `k + 1` below the top.
    fn peek_long(&self, k: usize) -> (r: i64)
        requires
            k <= 2,
            k + 1 < self.operands@.len(),
        ensures
            r == self@.peek_long(k as int),
    {
        make_long(self.peek(k + 1), self.peek(k))
    }

    pub fn push(&mut self, v: i32) -> (r: Result<(), RuntimeError>)
        requires
            old(self)@.wf(),
        ensures
            final(self)@.wf(),
            outcome(old(self)@.push(v), final(self)@, r),
    {
        self.set_top(0, v)
    }

    /// Push `a`, then `b`.
    pub fn push2(&mut self, a: i32, b: i32) -> (r: Result<(), RuntimeError>)
        requires
            old(self)@.wf(),
        ensures
            final(self)@.wf(),
            outcome(old(self)@.replace_top(0, seq![a, b]), final(self)@, r),
    {
        self.set_top2(0, a, b)
    }

    pub fn push_long(&mut self, v: i64) -> (r: Result<(), RuntimeError>)
        requires
            old(self)@.wf(),
        ensures
            final(self)@.wf(),
            outcome(old(self)@.push_long(v), final(self)@, r),
    {
        self.set_top2(0, (v >> 32i64) as i32, v as i32)
    }

    pub fn int_binop(&mut self, op: IntOp) -> (r: Result<(), RuntimeError>)
        requires
            old(self)@.wf(),
        ensures
            final(self)@.wf(),
            outcome(old(self)@.int_binop(op), final(self)@, r),
    {
        if self.operands.len() < 2 {
            return Err(RuntimeError::StackFault);
        }
        match apply_int_op(op, self.peek(1), self.peek(0)) {
            Some(v) => self.set_top(2, v),
            None => Err(RuntimeError::DivisionByZero),
        }
    }

    pub fn long_binop(&mut self, op: LongOp) -> (r: Result<(), RuntimeError>)
        requires
            old(self)@.wf(),
        ensures
            final(self)@.wf(),
            outcome(old(self)@.long_binop(op), final(self)@, r),
    {
        if self.operands.len() < 4 {
            return Err(RuntimeError::StackFault);
        }
        let a = self.peek_long(2);
        let b = self.peek_long(0);
        match apply_long_op(op, a, b) {
            Some(v) => self.set_top2(4, (v >> 32i64) as i32, v as i32),
            None => Err(RuntimeError::DivisionByZero),
        }
    }

    pub fn lshl(&mut self) -> (r: Result<(), RuntimeError>)
        requires
            old(self)@.wf(),
        ensures
            final(self)@.wf(),
            outcome(old(self)@.lshl(), final(self)@, r),
    {
        if self.operands.len() < 3 {
            return Err(RuntimeError::StackFault);
        }
        let x = self.peek_long(1);
        let p = self.peek(0);
        let s = (p & 63) as u32;
        assert(((p & 63) as u32) < 64) by (bit_vector);
        let v = x.wrapping_shl(s);
        self.set_top2(3, (v >> 32i64) as i32, v as i32)
    }

    pub fn lcmp(&mut self) -> (r: Result<(), RuntimeError>)
        requires
            old(self)@.wf(),
        ensures
            final(self)@.wf(),
            outcome(old(self)@.lcmp(), final(self)@, r),
    {
        if self.operands.len() < 4 {
            return Err(RuntimeError::StackFault);
        }
        let a = self.peek_long(2);
        let b = self.peek_long(0);
        let c: i32 = if a > b {
            1
        } else if a == b {
            0
        } else {
            -1
        };
        self.set_top(4, c)
    }

    pub fn ineg(&mut self) -> (r: Result<(), RuntimeError>)
        requires
            old(self)@.wf(),
        ensures
            final(self)@.wf(),
            outcome(old(self)@.ineg(), final(self)@, r),
    {
        if self.operands.len() < 1 {
            return Err(RuntimeError::StackFault);
        }
        let v = self.peek(0);
        self.set_top(1, (0i64 - v as i64) as i32)
    }

    pub fn i2b(&mut self) -> (r: Result<(), RuntimeError>)
        requires
            old(self)@.wf(),
        ensures
            final(self)@.wf(),
            outcome(old(self)@.i2b(), final(self)@, r),
    {
        if self.operands.len() < 1 {
            return Err(RuntimeError::StackFault);
        }
        let v = self.peek(0);
        self.set_top(1, (v as i8) as i32)
    }

    pub fn i2c(&mut self) -> (r: Result<(), RuntimeError>)
        requires
            old(self)@.wf(),
        ensures
            final(self)@.wf(),
            outcome(old(self)@.i2c(), final(self)@, r),
    {
        if self.operands.len() < 1 {
            return Err(RuntimeError::StackFault);
        }
        let v = self.peek(0);
        self.set_top(1, (v as u16) as i32)
    }

    pub fn i2l(&mut self) -> (r: Result<(), RuntimeError>)
        requires
            old(self)@.wf(),
        ensures
            final(self)@.wf(),
            outcome(old(self)@.i2l(), final(self)@, r),
    {
        if self.operands.len() < 1 {
            return Err(RuntimeError::StackFault);
        }
        let v = self.peek(0);
        let high: i32 = if v < 0 {
            -1
        } else {
            0
        };
        self.set_top2(1, high, v)
    }

    pub fn l2i(&mut self) -> (r: Result<(), RuntimeError>)
        requires
            old(self)@.wf(),
        ensures
            final(self)@.wf(),
            outcome(old(self)@.l2i(), final(self)@, r),
    {
        if self.operands.len() < 2 {
            return Err(RuntimeError::StackFault);
        }
        let v = self.peek(0);
        self.set_top(2, v)
    }

    pub fn dup(&mut self) -> (r: Result<(), RuntimeError>)
        requires
            old(self)@.wf(),
        ensures
            final(self)@.wf(),
            outcome(old(self)@.dup(), final(self)@, r),
    {
        if self.operands.len() < 1 {
            return Err(RuntimeError::StackFault);
        }
        let v = self.peek(0);
        self.set_top2(1, v, v)
    }

    pub fn pop(&mut self) -> (r: Result<(), RuntimeError>)
        requires
            old(self)@.wf(),
        ensures
            final(self)@.wf(),
            outcome(old(self)@.pop(), final(self)@, r),
    {
        self.drop_top(1)
    }

    pub fn load(&mut self, index: usize) -> (r: Result<(), RuntimeError>)
        requires
            old(self)@.wf(),
        ensures
            final(self)@.wf(),
            outcome(old(self)@.load(index as int), final(self)@, r),
    {
        if index >= self.locals.len() {
            return Err(RuntimeError::StackFault);
        }
        let v = self.locals[index];
        self.set_top(0, v)
    }

    pub fn load_long(&mut self, index: usize) -> (r: Result<(), RuntimeError>)
        requires
            old(self)@.wf(),
        ensures
            final(self)@.wf(),
            outcome(old(self)@.load_long(index as int), final(self)@, r),
    {
        if index >= self.locals.len() || index + 1 >= self.locals.len() {
            return Err(RuntimeError::StackFault);
        }
        let hi = self.locals[index];
        let lo = self.locals[index + 1];
        self.set_top2(0, hi, lo)
    }

    pub fn store(&mut self, index: usize) -> (r: Result<(), RuntimeError>)
        requires
            old(self)@.wf(),
        ensures
            final(self)@.wf(),
            outcome(old(self)@.store(index as int), final(self)@, r),
    {
        if self.operands.len() < 1 || index >= self.locals.len() {
            return Err(RuntimeError::StackFault);
        }
        let v = self.operands.pop().unwrap();
        self.locals.set(index, v);
        assert(self@.operands =~= old(self)@.store(index as int)->Ok_0.operands);
        Ok(())
    }

    pub fn store_long(&mut self, index: usize) -> (r: Result<(), RuntimeError>)
        requires
            old(self)@.wf(),
        ensures
            final(self)@.wf(),
            outcome(old(self)@.store_long(index as int), final(self)@, r),
    {
        if self.operands.len() < 2 || index >= self.locals.len() || index + 1 >= self.locals.len() {
            return Err(RuntimeError::StackFault);
        }
        let lo = self.operands.pop().unwrap();
        let hi = self.operands.pop().unwrap();
        self.locals.set(index, hi);
        self.locals.set(index + 1, lo);
        assert(self@.operands =~= old(self)@.store_long(index as int)->Ok_0.operands);
        Ok(())
    }

    pub fn iinc(&mut self, index: usize, delta: i8) -> (r: Result<(), RuntimeError>)
        requires
            old(self)@.wf(),
        ensures
            final(self)@.wf(),
            outcome(old(self)@.iinc(index as int, delta), final(self)@, r),
    {
        if index >= self.locals.len() {
            return Err(RuntimeError::StackFault);
        }
        let v = self.locals[index];
        self.locals.set(index, (v as i64 + delta as i64) as i32);
        Ok(())
    }

    /// Drop `n` cells, then jump by `offset` when `taken`.
    fn branch(&mut self, n: usize, taken: bool, offset: i16) -> (r: Result<(), RuntimeError>)
        requires
            old(self)@.wf(),
        ensures
            final(self)@.wf(),
            outcome(old(self)@.branch(n as nat, taken, offset), final(self)@, r),
    {
        if self.operands.len() < n {
            return Err(RuntimeError::StackFault);
        }
        let target: i128 = self.pc as i128 + offset as i128 - 3;
        if taken && (target < 0 || target > usize::MAX as i128) {
            return Err(RuntimeError::UnsupportedOpcode);
        }
        let len = self.operands.len();
        self.operands.truncate(len - n);
        if taken {
            self.pc = target as usize;
        }
        assert(self@.operands =~= old(self)@.branch(n as nat, taken, offset)->Ok_0.operands);
        Ok(())
    }

    pub fn if_zero(&mut self, c: Cond, offset: i16) -> (r: Result<(), RuntimeError>)
        requires
            old(self)@.wf(),
        ensures
            final(self)@.wf(),
            outcome(old(self)@.if_zero(c, offset), final(self)@, r),
    {
        let taken = self.operands.len() >= 1 && test_cond(c, self.peek(0), 0);
        self.branch(1, taken, offset)
    }

    pub fn if_icmp(&mut self, c: Cond, offset: i16) -> (r: Result<(), RuntimeError>)
        requires
            old(self)@.wf(),
        ensures
            final(self)@.wf(),
            outcome(old(self)@.if_icmp(c, offset), final(self)@, r),
    {
        let taken = self.operands.len() >= 2 && test_cond(c, self.peek(1), self.peek(0));
        self.branch(2, taken, offset)
    }

    pub fn ifnull(&mut self, offset: i16) -> (r: Result<(), RuntimeError>)
        requires
            old(self)@.wf(),
        ensures
            final(self)@.wf(),
            outcome(old(self)@.ifnull(offset), final(self)@, r),
    {
        let taken = self.operands.len() >= 1 && self.peek(0) == 0;
        self.branch(1, taken, offset)
    }

    pub fn ifnonnull(&mut self, offset: i16) -> (r: Result<(), RuntimeError>)
        requires
            old(self)@.wf(),
        ensures
            final(self)@.wf(),
            outcome(old(self)@.ifnonnull(offset), final(self)@, r),
    {
        let taken = self.operands.len() >= 1 && self.peek(0) != 0;
        self.branch(1, taken, offset)
    }

    pub fn goto(&mut self, offset: i16) -> (r: Result<(), RuntimeError>)
        requires
            old(self)@.wf(),
        ensures
            final(self)@.wf(),
            outcome(old(self)@.goto(offset), final(self)@, r),
    {
        self.branch(0, true, offset)
    }
}

/// Whether `a` and `b` satisfy the comparison `c`.
pub fn test_cond(c: Cond, a: i32, b: i32) -> (r: bool)
    ensures
        r == cond_holds(c, a, b),
{
    match c {
        Cond::Eq => a == b,
        Cond::Ne => a != b,
        Cond::Lt => a < b,
        Cond::Le => a <= b,
        Cond::Gt => a > b,
        Cond::Ge => a >= b,
    }
}

} // verus!
