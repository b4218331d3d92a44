use minijvm::error::RuntimeError;
use minijvm::frame::{apply_int_op, apply_long_op, Cond, Frame, IntOp, Location, LongOp};

fn frame(ops: &[i32]) -> Frame {
    let mut f = Frame::new(4, 8, 10, Location::new(0, 0, vec![]));
    for v in ops {
        f.push(*v).unwrap();
    }
    f
}

fn long_cells(v: i64) -> [i32; 2] {
    [(v >> 32) as i32, v as i32]
}

#[test]
fn irem_truncates_toward_zero() {
    assert_eq!(apply_int_op(IntOp::Rem, 7, 3), Some(1));
    assert_eq!(apply_int_op(IntOp::Rem, -7, 3), Some(-1));
    assert_eq!(apply_int_op(IntOp::Rem, 7, -3), Some(1));
    assert_eq!(apply_int_op(IntOp::Rem, i32::MIN, -1), Some(0));
    assert_eq!(apply_int_op(IntOp::Rem, 5, 0), None);
}

#[test]
fn idiv_truncates_and_wraps() {
    assert_eq!(apply_int_op(IntOp::Div, -7, 2), Some(-3));
    assert_eq!(apply_int_op(IntOp::Div, i32::MIN, -1), Some(i32::MIN));
    let mut f = frame(&[1, 0]);
    assert_eq!(f.int_binop(IntOp::Div), Err(RuntimeError::DivisionByZero));
}

#[test]
fn shifts_mask_the_count() {
    assert_eq!(apply_int_op(IntOp::Shl, 1, 33), Some(2));
    assert_eq!(apply_int_op(IntOp::Shl, 3, 31), Some(i32::MIN));
    assert_eq!(apply_int_op(IntOp::Ushr, -1, 28), Some(15));
    assert_eq!(apply_int_op(IntOp::Ushr, -8, 32), Some(-8));
}

#[test]
fn ior_is_or_and_iand_is_and() {
    assert_eq!(apply_int_op(IntOp::Or, 0b1010, 0b0101), Some(0b1111));
    assert_eq!(apply_int_op(IntOp::And, 0b1110, 0b0111), Some(0b0110));
}

#[test]
fn int_arithmetic_wraps() {
    assert_eq!(apply_int_op(IntOp::Add, i32::MAX, 1), Some(i32::MIN));
    assert_eq!(apply_int_op(IntOp::Mul, 7, 6), Some(42));
    assert_eq!(apply_int_op(IntOp::Sub, i32::MIN, 1), Some(i32::MAX));
}

#[test]
fn narrowing_conversions() {
    let mut f = frame(&[0x1FF]);
    f.i2b().unwrap();
    assert_eq!(f.operands, vec![-1]);
    let mut f = frame(&[0x7F]);
    f.i2b().unwrap();
    assert_eq!(f.operands, vec![127]);
    let mut f = frame(&[-1]);
    f.i2c().unwrap();
    assert_eq!(f.operands, vec![0xFFFF]);
    let mut f = frame(&[0x12345678]);
    f.i2c().unwrap();
    assert_eq!(f.operands, vec![0x5678]);
}

#[test]
fn i2l_sign_extends() {
    let mut f = frame(&[-5]);
    f.i2l().unwrap();
    assert_eq!(f.operands, vec![-1, -5]);
    let mut f = frame(&[5]);
    f.i2l().unwrap();
    assert_eq!(f.operands, vec![0, 5]);
    f.l2i().unwrap();
    assert_eq!(f.operands, vec![5]);
}

#[test]
fn lcmp_gives_the_sign() {
    let a = long_cells(-3_000_000_000);
    let b = long_cells(2);
    let mut f = frame(&[a[0], a[1], b[0], b[1]]);
    f.lcmp().unwrap();
    assert_eq!(f.operands, vec![-1]);
    let mut f = frame(&[b[0], b[1], a[0], a[1]]);
    f.lcmp().unwrap();
    assert_eq!(f.operands, vec![1]);
    let mut f = frame(&[b[0], b[1], b[0], b[1]]);
    f.lcmp().unwrap();
    assert_eq!(f.operands, vec![0]);
}

#[test]
fn long_arithmetic_carries_across_halves() {
    assert_eq!(apply_long_op(LongOp::Add, 0xFFFF_FFFF, 1), Some(0x1_0000_0000));
    assert_eq!(apply_long_op(LongOp::Sub, 0, 1), Some(-1));
    assert_eq!(apply_long_op(LongOp::Mul, 1 << 40, 1 << 30), Some(0));
    assert_eq!(apply_long_op(LongOp::Div, -9, 2), Some(-4));
    assert_eq!(apply_long_op(LongOp::Div, 1, 0), None);
    let a = long_cells(0xFFFF_FFFF);
    let b = long_cells(1);
    let mut f = frame(&[a[0], a[1], b[0], b[1]]);
    f.long_binop(LongOp::Add).unwrap();
    assert_eq!(f.operands, vec![1, 0]);
}

#[test]
fn lshl_moves_bits_into_the_high_half() {
    let mut f = frame(&[0, 1, 32]);
    f.lshl().unwrap();
    assert_eq!(f.operands, vec![1, 0]);
    let mut f = frame(&[0, 1, 65]);
    f.lshl().unwrap();
    assert_eq!(f.operands, vec![0, 2]);
}

#[test]
fn branch_offset_three_falls_through_and_zero_loops() {
    // pc 10 is just past a branch opcode at 7 and its two offset bytes.
    let mut f = frame(&[]);
    f.goto(3).unwrap();
    assert_eq!(f.pc, 10);
    let mut f = frame(&[]);
    f.goto(0).unwrap();
    assert_eq!(f.pc, 7);
    let mut f = frame(&[]);
    f.goto(-7).unwrap();
    assert_eq!(f.pc, 0);
    let mut f = frame(&[]);
    assert_eq!(f.goto(-8), Err(RuntimeError::UnsupportedOpcode));
}

#[test]
fn ifnull_branches_only_on_zero() {
    let mut f = frame(&[0]);
    f.ifnull(10).unwrap();
    assert_eq!(f.pc, 17);
    let mut f = frame(&[4]);
    f.ifnull(10).unwrap();
    assert_eq!(f.pc, 10);
    let mut f = frame(&[4]);
    f.ifnonnull(10).unwrap();
    assert_eq!(f.pc, 17);
}

#[test]
fn conditional_branches_compare() {
    let mut f = frame(&[1, 2]);
    f.if_icmp(Cond::Lt, 20).unwrap();
    assert_eq!(f.pc, 27);
    assert!(f.operands.is_empty());
    let mut f = frame(&[2, 1]);
    f.if_icmp(Cond::Lt, 20).unwrap();
    assert_eq!(f.pc, 10);
    let mut f = frame(&[-1]);
    f.if_zero(Cond::Lt, 5).unwrap();
    assert_eq!(f.pc, 12);
}

#[test]
fn locals_and_stack_limits() {
    let mut f = frame(&[9]);
    f.store(3).unwrap();
    assert_eq!(f.locals, vec![0, 0, 0, 9]);
    assert_eq!(f.store(0), Err(RuntimeError::StackFault));
    f.load(3).unwrap();
    f.iinc(3, -10).unwrap();
    assert_eq!(f.locals[3], -1);
    assert_eq!(f.load(4), Err(RuntimeError::StackFault));
    let mut f = frame(&[1, 2, 3, 4, 5, 6, 7, 8]);
    assert_eq!(f.push(9), Err(RuntimeError::StackFault));
    assert_eq!(f.operands.len(), 8);
    f.dup().unwrap_err();
    f.pop().unwrap();
    f.dup().unwrap();
    assert_eq!(f.operands, vec![1, 2, 3, 4, 5, 6, 7, 7]);
}
