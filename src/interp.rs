//! The instructions that reach beyond the top frame (constants, objects, fields, arrays,
//! invocation and return) and the dispatch loop's single step.
use vstd::prelude::*;
use vstd::string::StringSliceAdditionalSpecFns;
use crate::class::Class;
use crate::descriptor::{count_arg_slots, param_tokens, slots_of};
use crate::engine::{get_assoc_native_method, EntryPoint, NativeMethod, Runtime, Step};
use crate::error::RuntimeError;
use crate::frame::{Cond, FrameModel, IntOp, LongOp};
use crate::opcodes::OpCode;
use crate::utils::{be_u16, be_u32};

verus! {

/// A field or method reference: declaring class, member name and descriptor.
#[derive(Debug)]
pub struct MemberRef {
    pub class_name: Vec<u8>,
    pub name: Vec<u8>,
    pub descriptor: Vec<u8>,
}

/// The class name, member name and descriptor that a field or method reference at
/// `index` names.
pub open spec fn member_ref(class: Class, index: int) -> Option<(Seq<u8>, Seq<u8>, Seq<u8>)> {
    match class.resolve(index) {
        Some(c) => if 9 <= c.tag <= 11 && c.bytes@.len() >= 4 {
            match class.resolve(be_u16(c.bytes@, 2) as int) {
                Some(nt) => if nt.tag == 12 && nt.bytes@.len() >= 4 {
                    match (
                        class.utf8_at(be_u16(c.bytes@, 0) as int),
                        class.utf8_at(be_u16(nt.bytes@, 0) as int),
                        class.utf8_at(be_u16(nt.bytes@, 2) as int),
                    ) {
                        (Some(cn), Some(n), Some(d)) => Some((cn, n, d)),
                        _ => None,
                    }
                } else {
                    None
                },
                None => None,
            }
        } else {
            None
        },
        None => None,
    }
}

/// Resolve the field or method reference at `index` of `class`'s pool.
pub fn resolve_member(class: &Class, index: usize) -> (r: Result<MemberRef, RuntimeError>)
    ensures
        match r {
            Ok(m) => member_ref(*class, index as int) == Some((m.class_name@, m.name@, m.descriptor@)),
            Err(e) => e == RuntimeError::LinkError && member_ref(*class, index as int) is None,
        },
{
    let c = match class.get_constant(index) {
        Some(c) => c,
        None => return Err(RuntimeError::LinkError),
    };
    let (class_index, nt_index) = match c.field_or_method_to_name_and_type() {
        Some(p) => p,
        None => return Err(RuntimeError::LinkError),
    };
    let nt = match class.get_constant(nt_index) {
        Some(nt) => nt,
        None => return Err(RuntimeError::LinkError),
    };
    let (name_index, desc_index) = match nt.name_and_type_to_name_and_descriptor() {
        Some(p) => p,
        None => return Err(RuntimeError::LinkError),
    };
    match (class.get_utf8(class_index), class.get_utf8(name_index), class.get_utf8(desc_index)) {
        (Some(cn), Some(n), Some(d)) => Ok(
            MemberRef {
                class_name: vstd::slice::slice_to_vec(cn),
                name: vstd::slice::slice_to_vec(n),
                descriptor: vstd::slice::slice_to_vec(d),
            },
        ),
        _ => Err(RuntimeError::LinkError),
    }
}

/// A descriptor's bytes read one per character.
pub open spec fn bytes_as_chars(b: Seq<u8>) -> Seq<char> {
    b.map_values(|x: u8| x as char)
}

fn chars_of(b: &[u8]) -> (r: Vec<char>)
    ensures
        r@ == bytes_as_chars(b@),
{
    let mut v: Vec<char> = Vec::new();
    let mut i: usize = 0;
    while i < b.len()
        invariant
            i <= b@.len(),
            v@ == b@.subrange(0, i as int).map_values(|x: u8| x as char),
        decreases b@.len() - i,
    {
        v.push(b[i] as char);
        i += 1;
        assert(v@ =~= b@.subrange(0, i as int).map_values(|x: u8| x as char));
    }
    assert(b@.subrange(0, b@.len() as int) =~= b@);
    v
}

/// The argument slots of a descriptor held as pool bytes, where it parses.
pub open spec fn arg_slots_of(desc: Seq<u8>) -> Option<nat> {
    if desc.len() <= 0xFFFF && param_tokens(bytes_as_chars(desc)) is Some {
        Some(slots_of(param_tokens(bytes_as_chars(desc))->0))
    } else {
        None
    }
}

/// The argument slots of a method descriptor held as pool bytes.
pub fn descriptor_arg_slots(desc: &[u8]) -> (r: Result<usize, RuntimeError>)
    ensures
        match r {
            Ok(n) => n <= 0x1FFFE && arg_slots_of(desc@) == Some(n as nat),
            Err(e) => e == RuntimeError::LinkError && arg_slots_of(desc@) is None,
        },
{
    if desc.len() > 0xFFFF {
        return Err(RuntimeError::LinkError);
    }
    let chars = chars_of(desc);
    match count_arg_slots(chars.as_slice()) {
        Some(n) => Ok(n),
        None => Err(RuntimeError::LinkError),
    }
}

/// The effect of an instruction that acts on its frame alone; `None` for the others.
pub open spec fn local_effect(op: OpCode, f: FrameModel) -> Option<Result<FrameModel, RuntimeError>> {
    match op {
        OpCode::Nop => Some(Ok(f)),
        OpCode::IconstM1 => Some(f.push(-1i32)),
        OpCode::Iconst0 => Some(f.push(0i32)),
        OpCode::Iconst1 => Some(f.push(1i32)),
        OpCode::Iconst2 => Some(f.push(2i32)),
        OpCode::Iconst3 => Some(f.push(3i32)),
        OpCode::Iconst4 => Some(f.push(4i32)),
        OpCode::Iconst5 => Some(f.push(5i32)),
        OpCode::Lconst0 => Some(f.push_long(0i64)),
        OpCode::Lconst1 => Some(f.push_long(1i64)),
        OpCode::Bipush { byte } => Some(f.push(byte as i32)),
        OpCode::Sipush { value } => Some(f.push(value as i32)),
        OpCode::Iload { index } => Some(f.load(index as int)),
        OpCode::Lload { index } => Some(f.load_long(index as int)),
        OpCode::Iload0 => Some(f.load(0)),
        OpCode::Iload1 => Some(f.load(1)),
        OpCode::Iload2 => Some(f.load(2)),
        OpCode::Iload3 => Some(f.load(3)),
        OpCode::Lload0 => Some(f.load_long(0)),
        OpCode::Lload1 => Some(f.load_long(1)),
        OpCode::Lload2 => Some(f.load_long(2)),
        OpCode::Lload3 => Some(f.load_long(3)),
        OpCode::Aload0 => Some(f.load(0)),
        OpCode::Aload1 => Some(f.load(1)),
        OpCode::Aload2 => Some(f.load(2)),
        OpCode::Aload3 => Some(f.load(3)),
        OpCode::Istore { index } => Some(f.store(index as int)),
        OpCode::Lstore { index } => Some(f.store_long(index as int)),
        OpCode::Istore0 => Some(f.store(0)),
        OpCode::Istore1 => Some(f.store(1)),
        OpCode::Istore2 => Some(f.store(2)),
        OpCode::Istore3 => Some(f.store(3)),
        OpCode::Lstore0 => Some(f.store_long(0)),
        OpCode::Lstore1 => Some(f.store_long(1)),
        OpCode::Lstore2 => Some(f.store_long(2)),
        OpCode::Lstore3 => Some(f.store_long(3)),
        OpCode::Astore0 => Some(f.store(0)),
        OpCode::Astore1 => Some(f.store(1)),
        OpCode::Astore2 => Some(f.store(2)),
        OpCode::Astore3 => Some(f.store(3)),
        OpCode::Pop => Some(f.pop()),
        OpCode::Dup => Some(f.dup()),
        OpCode::Iadd => Some(f.int_binop(IntOp::Add)),
        OpCode::Isub => Some(f.int_binop(IntOp::Sub)),
        OpCode::Imul => Some(f.int_binop(IntOp::Mul)),
        OpCode::Idiv => Some(f.int_binop(IntOp::Div)),
        OpCode::Irem => Some(f.int_binop(IntOp::Rem)),
        OpCode::Ishl => Some(f.int_binop(IntOp::Shl)),
        OpCode::Iushr => Some(f.int_binop(IntOp::Ushr)),
        OpCode::Iand => Some(f.int_binop(IntOp::And)),
        OpCode::Ior => Some(f.int_binop(IntOp::Or)),
        OpCode::Ladd => Some(f.long_binop(LongOp::Add)),
        OpCode::Lsub => Some(f.long_binop(LongOp::Sub)),
        OpCode::Lmul => Some(f.long_binop(LongOp::Mul)),
        OpCode::Ldiv => Some(f.long_binop(LongOp::Div)),
        OpCode::Ineg => Some(f.ineg()),
        OpCode::Lshl => Some(f.lshl()),
        OpCode::Iinc { index, immediate } => Some(f.iinc(index as int, immediate)),
        OpCode::I2l => Some(f.i2l()),
        OpCode::L2i => Some(f.l2i()),
        OpCode::I2b => Some(f.i2b()),
        OpCode::I2c => Some(f.i2c()),
        OpCode::Lcmp => Some(f.lcmp()),
        OpCode::IfEq { offset } => Some(f.if_zero(Cond::Eq, offset)),
        OpCode::IfNe { offset } => Some(f.if_zero(Cond::Ne, offset)),
        OpCode::IfLt { offset } => Some(f.if_zero(Cond::Lt, offset)),
        OpCode::IfGe { offset } => Some(f.if_zero(Cond::Ge, offset)),
        OpCode::IfGt { offset } => Some(f.if_zero(Cond::Gt, offset)),
        OpCode::IfLe { offset } => Some(f.if_zero(Cond::Le, offset)),
        OpCode::IfICmpEq { offset } => Some(f.if_icmp(Cond::Eq, offset)),
        OpCode::IfICmpNe { offset } => Some(f.if_icmp(Cond::Ne, offset)),
        OpCode::IfICmpLt { offset } => Some(f.if_icmp(Cond::Lt, offset)),
        OpCode::IfICmpGe { offset } => Some(f.if_icmp(Cond::Ge, offset)),
        OpCode::IfICmpGt { offset } => Some(f.if_icmp(Cond::Gt, offset)),
        OpCode::IfICmpLe { offset } => Some(f.if_icmp(Cond::Le, offset)),
        OpCode::Goto { offset } => Some(f.goto(offset)),
        OpCode::IfNull { offset } => Some(f.ifnull(offset)),
        OpCode::IfNonNull { offset } => Some(f.ifnonnull(offset)),
        _ => None,
    }
}


/// The frame with its pc moved past `op` and its operands.
pub open spec fn advanced(f: FrameModel, op: OpCode) -> FrameModel {
    FrameModel { pc: f.pc + 1 + crate::opcodes::operand_width(op), ..f }
}

/// A step's result without what it asks of the driver.
pub open spec fn unit_of(r: Result<Step, RuntimeError>) -> Result<(), RuntimeError> {
    match r {
        Ok(_) => Ok(()),
        Err(e) => Err(e),
    }
}

impl Runtime {
    /// Whether the top frame's class is registered.
    pub open spec fn has_cur_class(&self) -> bool {
        self.frame_stack@.len() > 0 && self.top().class_index < self.classloader.loaded_classes@.len()
    }

    /// The class of the top frame.
    pub open spec fn cur_class(&self) -> Class {
        self.classloader.loaded_classes@[self.top().class_index as int].class
    }

    /// The instance that the pool holds for the literal `s`.
    pub open spec fn interned_ref(&self, s: Seq<u8>) -> i32 {
        self.stringpool@[choose|k: int| 0 <= k < self.stringpool@.len() && (#[trigger] self.stringpool@[k]).key@ == s].objectref
    }

    /// The top frame after `ldc index`.
    pub open spec fn ldc_effect(&self, index: int) -> Result<FrameModel, RuntimeError> {
        if !self.has_cur_class() {
            Err(RuntimeError::LinkError)
        } else {
            match self.cur_class().resolve(index) {
                Some(c) => if c.tag == 1 {
                    if self.interned(c.bytes@) {
                        self.top().push(self.interned_ref(c.bytes@))
                    } else {
                        Err(RuntimeError::IllegalOperand)
                    }
                } else if (c.tag == 3 || c.tag == 4) && c.bytes@.len() >= 4 {
                    self.top().push(be_u32(c.bytes@, 0) as i32)
                } else {
                    Err(RuntimeError::IllegalOperand)
                },
                None => Err(RuntimeError::IllegalOperand),
            }
        }
    }

    /// The top frame after `ldc2_w index`.
    pub open spec fn ldc2w_effect(&self, index: int) -> Result<FrameModel, RuntimeError> {
        if !self.has_cur_class() {
            Err(RuntimeError::LinkError)
        } else {
            match self.cur_class().resolve(index) {
                Some(c) => if (c.tag == 5 || c.tag == 6) && c.bytes@.len() >= 8 {
                    self.top().replace_top(
                        0,
                        seq![be_u32(c.bytes@, 0) as i32, be_u32(c.bytes@, 4) as i32],
                    )
                } else {
                    Err(RuntimeError::IllegalOperand)
                },
                None => Err(RuntimeError::IllegalOperand),
            }
        }
    }

    /// The top frame after `getfield index`. An instance built from a class that declares
    /// the same `name:descriptor` twice has two fields with that id; the first is read.
    pub open spec fn getfield_effect(&self, index: int) -> Result<FrameModel, RuntimeError> {
        if !self.has_cur_class() {
            Err(RuntimeError::LinkError)
        } else {
            match member_ref(self.cur_class(), index) {
                None => Err(RuntimeError::LinkError),
                Some((_, name, desc)) => if self.top().operands.len() < 1 {
                    Err(RuntimeError::StackFault)
                } else if !self.heap.valid_ref(self.top().peek(0)) {
                    Err(RuntimeError::IllegalOperand)
                } else {
                    let o = self.heap.objects@[self.top().peek(0) as int];
                    match crate::engine::first_field(o.fields@, crate::object::field_id(name, desc)) {
                        Some(fi) => self.top().replace_top(1, seq![o.fields@[fi].value]),
                        None => Err(RuntimeError::LinkError),
                    }
                }
            }
        }
    }

    /// The instance reference, field position and value that `putfield index` stores.
    /// Of two fields with the same `name:descriptor` id, the first is written, the same
    /// one `getfield` reads.
    pub open spec fn putfield_target(&self, index: int) -> Result<(i32, int, i32), RuntimeError> {
        if self.frame_stack@.len() == 0 {
            Err(RuntimeError::StackFault)
        } else if !self.has_cur_class() {
            Err(RuntimeError::LinkError)
        } else {
            match member_ref(self.cur_class(), index) {
                None => Err(RuntimeError::LinkError),
                Some((_, name, desc)) => if self.top().operands.len() < 2 {
                    Err(RuntimeError::StackFault)
                } else if !self.heap.valid_ref(self.top().peek(1)) {
                    Err(RuntimeError::IllegalOperand)
                } else {
                    let o = self.heap.objects@[self.top().peek(1) as int];
                    match crate::engine::first_field(o.fields@, crate::object::field_id(name, desc)) {
                        Some(fi) => Ok((self.top().peek(1), fi, self.top().peek(0))),
                        None => Err(RuntimeError::LinkError),
                    }
                }
            }
        }
    }

    /// The field or method reference at `index` of the top frame's class.
    pub open spec fn top_member(&self, index: int) -> Result<(Seq<u8>, Seq<u8>, Seq<u8>), RuntimeError> {
        if self.frame_stack@.len() == 0 {
            Err(RuntimeError::StackFault)
        } else if !self.has_cur_class() {
            Err(RuntimeError::LinkError)
        } else {
            match member_ref(self.cur_class(), index) {
                Some(t) => Ok(t),
                None => Err(RuntimeError::LinkError),
            }
        }
    }

    /// The class registered under `name`.
    pub open spec fn loaded_class(&self, name: Seq<u8>) -> Class {
        self.classloader.loaded_classes@[self.classloader.index_of(name)].class
    }

    /// `r` asks for the class `name` and nothing changed.
    pub open spec fn asks_for(old: Runtime, new: Runtime, r: Result<Step, RuntimeError>, name: Seq<u8>) -> bool {
        r matches Ok(Step::NeedClass(n)) && n@ == name && new == old
    }

    /// What invoking leaves: `total` cells of the caller's stack moved into the first
    /// locals of a fresh frame for method `mi` of class `t`, its other locals zero.
    pub open spec fn invoked(old: Runtime, new: Runtime, t: int, mi: int, total: nat) -> bool {
        let len = old.top().operands.len();
        let n = old.frame_stack@.len();
        &&& n > 0
        &&& total <= len
        &&& new.heap == old.heap
        &&& new.classloader == old.classloader
        &&& new.stringpool == old.stringpool
        &&& new.frame_stack@.len() == n + 1
        &&& forall|i: int| 0 <= i < n - 1 ==> #[trigger] new.frame_stack@[i] == old.frame_stack@[i]
        &&& new.frame_stack@[n - 1]@ == old.top().with_operands(old.top().operands.subrange(0, len - total))
        &&& new.top().class_index == t
        &&& new.top().method_index == mi
        &&& new.top().pc == 0
        &&& new.top().operands.len() == 0
        &&& total <= new.top().locals.len()
        &&& new.top().locals.subrange(0, total as int) == old.top().operands.subrange(len - total, len as int)
        &&& forall|k: int| total <= k < new.top().locals.len() ==> #[trigger] new.top().locals[k] == 0
        &&& 0 <= t < old.classloader.loaded_classes@.len()
        &&& {
            let info = crate::engine::code_info(old.classloader.loaded_classes@[t].class, mi);
            &&& new.top().max_stack == be_u16(info, 0)
            &&& new.top().max_locals == be_u16(info, 2)
            &&& new.top().code == info.subrange(8, 8 + be_u32(info, 4))
        }
    }

    /// What a native call leaves: the receiver and arguments are gone from the caller's
    /// stack, and nothing else changes.
    pub open spec fn native_called(old: Runtime, new: Runtime, total: nat) -> bool {
        let len = old.top().operands.len();
        let n = old.frame_stack@.len();
        &&& n > 0
        &&& total <= len
        &&& new.heap == old.heap
        &&& new.classloader == old.classloader
        &&& new.stringpool == old.stringpool
        &&& new.frame_stack@.len() == n
        &&& forall|i: int| 0 <= i < n - 1 ==> #[trigger] new.frame_stack@[i] == old.frame_stack@[i]
        &&& new.top() == old.top().with_operands(old.top().operands.subrange(0, len - total))
    }

    /// What an invocation leaves: it asks for an unregistered class, fails to resolve,
    /// pushes a frame for a method with code, or bridges to the native `write`, whose text
    /// it hands back.
    pub open spec fn invoke_post(old: Runtime, new: Runtime, r: Result<Step, RuntimeError>, index: int, receiver: bool, native_ok: bool) -> bool {
        match old.top_member(index) {
            Err(e) => r == Err::<Step, RuntimeError>(e),
            Ok((cn, name, desc)) => if !old.classloader.has(cn) {
                Self::asks_for(old, new, r, cn)
            } else {
                match old.loaded_class(cn).first_method(name, desc) {
                    None => r == Err::<Step, RuntimeError>(RuntimeError::LinkError),
                    Some(mi) => match arg_slots_of(desc) {
                        None => r == Err::<Step, RuntimeError>(RuntimeError::LinkError),
                        Some(nargs) => {
                            let first: nat = if receiver { 1 } else { 0 };
                            let total = nargs + first;
                            let cls = old.loaded_class(cn);
                            &&& !(r matches Ok(Step::Halted)) && !(r matches Ok(Step::NeedClass(_)))
                            &&& (r matches Ok(Step::Ran)) <==> (crate::engine::has_code(cls, mi)
                                && old.top().operands.len() >= total && be_u16(crate::engine::code_info(cls, mi), 2) >= total)
                            &&& (r matches Ok(Step::Print(_))) <==> (!crate::engine::has_code(cls, mi) && native_ok
                                && cls.methods@[mi].access_flags & crate::class::ACC_NATIVE == crate::class::ACC_NATIVE
                                && crate::engine::is_print_stream_write(cn, name, desc) && nargs >= 1
                                && old.top().operands.len() >= total && old.string_units(old.top().peek(nargs - 1)) is Ok)
                            &&& (r matches Ok(Step::Ran)) ==> Self::invoked(
                                old,
                                new,
                                old.classloader.index_of(cn),
                                mi,
                                total,
                            )
                            &&& (r matches Ok(Step::Print(_))) ==> Self::native_called(old, new, total)
                            &&& (!crate::engine::has_code(cls, mi) && native_ok
                                && cls.methods@[mi].access_flags & crate::class::ACC_NATIVE == crate::class::ACC_NATIVE
                                && !crate::engine::is_print_stream_write(cn, name, desc)
                                && old.top().operands.len() >= total) ==> r == Err::<Step, RuntimeError>(
                                RuntimeError::NoNativeImpl,
                            )
                            &&& r matches Ok(Step::Print(u)) ==> native_ok
                                && crate::engine::is_print_stream_write(cn, name, desc) && nargs >= 1
                                && old.top().operands.len() >= total && old.string_units(
                                old.top().peek(nargs - 1),
                            ) == Ok::<Seq<u16>, RuntimeError>(u@)
                        },
                    },
                }
            },
        }
    }

    /// The top frame after `arraylength`.
    pub open spec fn arraylength_effect(&self) -> Result<FrameModel, RuntimeError> {
        let f = self.top();
        if f.operands.len() < 1 {
            Err(RuntimeError::StackFault)
        } else if !self.heap.valid_ref(f.peek(0)) || !self.heap.objects@[f.peek(0) as int].is_array
            || self.heap.objects@[f.peek(0) as int].array@.len() > 0x7FFF_FFFF {
            Err(RuntimeError::IllegalOperand)
        } else {
            f.replace_top(1, seq![self.heap.objects@[f.peek(0) as int].array@.len() as i32])
        }
    }

    /// The top frame after `iaload` (or `caload`, when `narrow`).
    pub open spec fn array_load_effect(&self, narrow: bool) -> Result<FrameModel, RuntimeError> {
        let f = self.top();
        if f.operands.len() < 2 {
            Err(RuntimeError::StackFault)
        } else {
            let arrayref = f.peek(1);
            let index = f.peek(0);
            if !self.heap.valid_ref(arrayref) || !self.heap.objects@[arrayref as int].is_array || !(0 <= index
                < self.heap.objects@[arrayref as int].array@.len()) {
                Err(RuntimeError::IllegalOperand)
            } else {
                let v = self.heap.objects@[arrayref as int].array@[index as int];
                f.replace_top(2, seq![if narrow { (v as u16) as i32 } else { v }])
            }
        }
    }

    /// What an instruction that may need a class leaves: when it asks for a class, that
    /// class is not registered and nothing else changed.
    pub open spec fn asked_for_class(old: Runtime, new: Runtime, r: Result<Step, RuntimeError>) -> bool {
        r matches Ok(Step::NeedClass(n)) ==> !old.classloader.has(n@) && new.heap == old.heap
            && new.classloader == old.classloader && new.stringpool == old.stringpool
            && new.frame_stack == old.frame_stack && new.entry == old.entry
    }

    /// The class of the top frame.
    fn current_class_index(&self) -> (r: Result<usize, RuntimeError>)
        ensures
            match r {
                Ok(ci) => self.frame_stack@.len() > 0 && ci == self.top().class_index && ci
                    < self.classloader.loaded_classes@.len(),
                Err(e) => e == RuntimeError::StackFault && self.frame_stack@.len() == 0 || e
                    == RuntimeError::LinkError && self.frame_stack@.len() > 0 && self.top().class_index
                    >= self.classloader.loaded_classes@.len(),
            },
    {
        let n = self.frame_stack.len();
        if n == 0 {
            return Err(RuntimeError::StackFault);
        }
        let ci = self.frame_stack[n - 1].location.class_index;
        if ci >= self.classloader.loaded_classes.len() {
            return Err(RuntimeError::LinkError);
        }
        Ok(ci)
    }

    /// Pop the top cell of the top frame.
    fn pop_top(&mut self) -> (r: Result<i32, RuntimeError>)
        requires
            old(self).wf(),
        ensures
            final(self).wf(),
            Self::top_step(
                *old(self),
                *final(self),
                match r {
                    Ok(_) => Ok(()),
                    Err(e) => Err(e),
                },
                old(self).top().pop(),
            ),
            r is Ok ==> r == Ok::<i32, RuntimeError>(old(self).top().peek(0)),
    {
        let n = self.frame_stack.len();
        if n == 0 {
            return Err(RuntimeError::StackFault);
        }
        if self.frame_stack[n - 1].operands.len() == 0 {
            return Err(RuntimeError::StackFault);
        }
        let ghost f0 = self.frame_stack@[n - 1]@;
        let v = self.frame_stack[n - 1].operands.pop().unwrap();
        assert(self.top().operands =~= f0.pop()->Ok_0.operands);
        Ok(v)
    }

    /// Push a cell on the top frame.
    fn push_top(&mut self, v: i32) -> (r: Result<(), RuntimeError>)
        requires
            old(self).wf(),
        ensures
            final(self).wf(),
            Self::top_step(*old(self), *final(self), r, old(self).top().push(v)),
    {
        let n = self.frame_stack.len();
        if n == 0 {
            return Err(RuntimeError::StackFault);
        }
        self.frame_stack[n - 1].push(v)
    }

    /// `ldc`: push an int or float constant's bits, or the interned string a literal names.
    pub fn ldc_op(&mut self, index: u8) -> (r: Result<(), RuntimeError>)
        requires
            old(self).wf(),
        ensures
            final(self).wf(),
            Self::top_step(*old(self), *final(self), r, old(self).ldc_effect(index as int)),
    {
        let ci = self.current_class_index()?;
        let c = match self.classloader.loaded_classes[ci].class.get_constant(index as usize) {
            Some(c) => c,
            None => return Err(RuntimeError::IllegalOperand),
        };
        let v = if c.tag == 1 {
            match self.find_interned(c.bytes.as_slice()) {
                Some(k) => {
                    proof {
                        self.lemma_interned_ref(k as int);
                    }
                    self.stringpool[k].objectref
                },
                None => return Err(RuntimeError::IllegalOperand),
            }
        } else if (c.tag == 3 || c.tag == 4) && c.bytes.len() >= 4 {
            c.as_int()
        } else {
            return Err(RuntimeError::IllegalOperand);
        };
        self.push_top(v)
    }

    /// `ldc2_w`: push a long or double constant as its high and low cells.
    pub fn ldc2w_op(&mut self, index: u16) -> (r: Result<(), RuntimeError>)
        requires
            old(self).wf(),
        ensures
            final(self).wf(),
            Self::top_step(*old(self), *final(self), r, old(self).ldc2w_effect(index as int)),
    {
        let ci = self.current_class_index()?;
        let c = match self.classloader.loaded_classes[ci].class.get_constant(index as usize) {
            Some(c) => c,
            None => return Err(RuntimeError::IllegalOperand),
        };
        if !((c.tag == 5 || c.tag == 6) && c.bytes.len() >= 8) {
            return Err(RuntimeError::IllegalOperand);
        }
        let (hi, lo) = c.as_long();
        let n = self.frame_stack.len();
        self.frame_stack[n - 1].push2(hi, lo)
    }

    /// The pool entry found for a literal is the one `interned_ref` names.
    proof fn lemma_interned_ref(&self, k: int)
        requires
            Self::pool_keys_unique(self.stringpool@),
            0 <= k < self.stringpool@.len(),
        ensures
            self.interned_ref(self.stringpool@[k].key@) == self.stringpool@[k].objectref,
    {
        let s = self.stringpool@[k].key@;
        let c = choose|c: int| 0 <= c < self.stringpool@.len() && (#[trigger] self.stringpool@[c]).key@ == s;
        if c != k {
            if c < k {
                assert(self.stringpool@[c].key@ != self.stringpool@[k].key@);
            } else {
                assert(self.stringpool@[k].key@ != self.stringpool@[c].key@);
            }
        }
    }

    /// What `new_op` leaves.
    pub open spec fn new_post(old: Runtime, new: Runtime, r: Result<Step, RuntimeError>, index: u16) -> bool {
        &&& (Self::asked_for_class(old, new, r))
        &&& (r matches Ok(s) ==> (s is Ran || s is NeedClass))
        &&& (r matches Ok(Step::Ran) ==> new.heap.objects@.len() == old.heap.objects@.len() + 1
            && new.frame_stack@.len() == old.frame_stack@.len() && new.top().operands
            == old.top().operands.push(old.heap.objects@.len() as i32) && old.heap.objects@.len() > 0)
        &&& (old.frame_stack@.len() == 0 ==> r == Err::<Step, RuntimeError>(RuntimeError::StackFault))
        &&& (old.frame_stack@.len() > 0 && !old.has_cur_class() ==> r == Err::<Step, RuntimeError>(
            RuntimeError::LinkError,
        ))
        &&& (old.has_cur_class() ==> match old.cur_class().utf8_at(index as int) {
            None => r == Err::<Step, RuntimeError>(RuntimeError::LinkError),
            Some(cn) => if !old.classloader.has(cn) {
                Self::asks_for(old, new, r, cn)
            } else {
                let cls = old.loaded_class(cn);
                &&& (r matches Ok(Step::Ran)) <==> (cls.utf8_at(cls.this_class as int) is Some
                    && crate::object::instance_field_ids(cls, cls.fields@.len() as int) is Some
                    && old.heap.objects@.len() < crate::heap::HEAP_LIMIT
                    && old.top().operands.len() < old.top().max_stack)
                &&& (r matches Ok(Step::Ran)) ==> crate::heap::fresh_instance(
                    new.heap.objects@[old.heap.objects@.len() as int],
                    cls,
                    cls.utf8_at(cls.this_class as int)->0,
                ) && new.heap.objects@.subrange(0, old.heap.objects@.len() as int)
                    == old.heap.objects@
            },
        })
    }

    /// `new`: allocate an instance of the class that the pool names at `index` and push
    /// its reference. Where that class is not registered yet, ask for it and change
    /// nothing: once it is loaded and initialized the instruction runs again.
    pub fn new_op(&mut self, index: u16) -> (r: Result<Step, RuntimeError>)
        requires
            old(self).wf(),
        ensures
            final(self).wf(),
            Self::new_post(*old(self), *final(self), r, index),
    {
        let ci = self.current_class_index()?;
        let name = match self.classloader.loaded_classes[ci].class.get_utf8(index as usize) {
            Some(b) => vstd::slice::slice_to_vec(b),
            None => return Err(RuntimeError::LinkError),
        };
        let target = match self.classloader.find_loaded_class(name.as_slice()) {
            Some(t) => t,
            None => return Ok(Step::NeedClass(name)),
        };
        let ghost h0 = self.heap;
        let objectref = self.heap.allocate_object(&self.classloader.loaded_classes[target].class)?;
        proof {
            assert forall|k: int| 0 <= k < h0.objects@.len() implies (#[trigger] self.heap.objects@[k]).typename
                == h0.objects@[k].typename by {
                assert(self.heap.objects@[k] == self.heap.objects@.subrange(0, objectref as int)[k]);
            }
            Self::lemma_pool_refs(self.stringpool@, h0, self.heap);
        }
        let n = self.frame_stack.len();
        let ghost f0 = self.top();
        self.frame_stack[n - 1].push(objectref)?;
        assert(self.top().operands =~= f0.operands.push(objectref));
        Ok(Step::Ran)
    }

    /// What `getstatic_op` leaves.
    pub open spec fn getstatic_post(old: Runtime, new: Runtime, r: Result<Step, RuntimeError>, index: u16) -> bool {
        &&& (match old.top_member(index as int) {
            Err(e) => r == Err::<Step, RuntimeError>(e),
            Ok((cn, name, desc)) => if !old.classloader.has(cn) {
                Self::asks_for(old, new, r, cn)
            } else {
                match old.loaded_class(cn).first_field(name, desc) {
                    None => r == Err::<Step, RuntimeError>(RuntimeError::LinkError),
                    Some(fi) => (r matches Ok(Step::Ran) || r is Err) && Self::top_step(
                        old,
                        new,
                        unit_of(r),
                        old.top().push(old.loaded_class(cn).fields@[fi].value),
                    ),
                }
            },
        })
        &&& (Self::asked_for_class(old, new, r))
        &&& (r matches Ok(s) ==> (s is Ran || s is NeedClass))
        &&& (new.heap == old.heap)
        &&& (new.classloader == old.classloader)
        &&& (new.stringpool == old.stringpool)
    }

    /// `getstatic`: push the value of a static field, asking first for its class where
    /// that is not registered yet.
    pub fn getstatic_op(&mut self, index: u16) -> (r: Result<Step, RuntimeError>)
        requires
            old(self).wf(),
        ensures
            final(self).wf(),
            Self::getstatic_post(*old(self), *final(self), r, index),
    {
        let ci = self.current_class_index()?;
        let m = resolve_member(&self.classloader.loaded_classes[ci].class, index as usize)?;
        let target = match self.classloader.find_loaded_class(m.class_name.as_slice()) {
            Some(t) => t,
            None => return Ok(Step::NeedClass(m.class_name)),
        };
        let fi = match self.classloader.loaded_classes[target].class.find_field(
            m.name.as_slice(),
            m.descriptor.as_slice(),
        ) {
            Some(f) => f,
            None => return Err(RuntimeError::LinkError),
        };
        let v = self.classloader.loaded_classes[target].class.fields[fi].value;
        self.push_top(v)?;
        Ok(Step::Ran)
    }

    /// `after` is `before` with the cell of field `fi` set to `v`: the same name, pool,
    /// header, interfaces and methods, and every other field as it was.
    pub open spec fn static_cell_set(
        before: crate::classloader::LoadedClass,
        after: crate::classloader::LoadedClass,
        fi: int,
        v: i32,
    ) -> bool {
        let b = before.class;
        let a = after.class;
        &&& after.name == before.name
        &&& a.constant_pool_count == b.constant_pool_count
        &&& a.constant_pool == b.constant_pool
        &&& a.access_flags == b.access_flags
        &&& a.this_class == b.this_class
        &&& a.super_class == b.super_class
        &&& a.interface_count == b.interface_count
        &&& a.interfaces == b.interfaces
        &&& a.methods == b.methods
        &&& a.fields@ == b.fields@.update(fi, crate::class::FieldInfo { value: v, ..b.fields@[fi] })
    }

    /// What `putstatic_op` leaves.
    pub open spec fn putstatic_post(old: Runtime, new: Runtime, r: Result<Step, RuntimeError>, index: u16) -> bool {
        &&& (match old.top_member(index as int) {
            Err(e) => r == Err::<Step, RuntimeError>(e),
            Ok((cn, name, desc)) => if !old.classloader.has(cn) {
                Self::asks_for(old, new, r, cn)
            } else {
                match old.loaded_class(cn).first_field(name, desc) {
                    None => r == Err::<Step, RuntimeError>(RuntimeError::LinkError),
                    Some(fi) => match old.top().pop() {
                        Err(e) => r == Err::<Step, RuntimeError>(e),
                        Ok(f) => {
                            let t = old.classloader.index_of(cn);
                            &&& r matches Ok(Step::Ran)
                            &&& new.top() == f
                            &&& new.frame_stack@.len() == old.frame_stack@.len()
                            &&& forall|i: int|
                                0 <= i < old.frame_stack@.len() - 1 ==> #[trigger] new.frame_stack@[i]
                                    == old.frame_stack@[i]
                            &&& Self::static_cell_set(
                                old.classloader.loaded_classes@[t],
                                new.classloader.loaded_classes@[t],
                                fi,
                                old.top().peek(0),
                            )
                            &&& new.classloader.loaded_classes@.len() == old.classloader.loaded_classes@.len()
                            &&& forall|k: int|
                                0 <= k < old.classloader.loaded_classes@.len() && k != t ==> #[trigger] new.classloader.loaded_classes@[k]
                                    == old.classloader.loaded_classes@[k]
                        },
                    },
                }
            },
        })
        &&& (Self::asked_for_class(old, new, r))
        &&& (r matches Ok(s) ==> (s is Ran || s is NeedClass))
        &&& (new.heap == old.heap)
        &&& (new.stringpool == old.stringpool)
    }

    /// `putstatic`: pop a value into a static field, asking first for its class where
    /// that is not registered yet.
    pub fn putstatic_op(&mut self, index: u16) -> (r: Result<Step, RuntimeError>)
        requires
            old(self).wf(),
        ensures
            final(self).wf(),
            Self::putstatic_post(*old(self), *final(self), r, index),
    {
        let ci = self.current_class_index()?;
        let m = resolve_member(&self.classloader.loaded_classes[ci].class, index as usize)?;
        let target = match self.classloader.find_loaded_class(m.class_name.as_slice()) {
            Some(t) => t,
            None => return Ok(Step::NeedClass(m.class_name)),
        };
        let fi = match self.classloader.loaded_classes[target].class.find_field(
            m.name.as_slice(),
            m.descriptor.as_slice(),
        ) {
            Some(f) => f,
            None => return Err(RuntimeError::LinkError),
        };
        let v = self.pop_top()?;
        self.classloader.loaded_classes[target].class.fields[fi].set_value(v);
        assert(self.classloader.loaded_classes@.len() == old(self).classloader.loaded_classes@.len());
        assert(self.classloader.wf()) by {
            assert forall|i: int, j: int|
                0 <= i < j < self.classloader.loaded_classes@.len() implies (#[trigger] self.classloader.loaded_classes@[i]).name@
                    != (#[trigger] self.classloader.loaded_classes@[j]).name@ by {
                assert(old(self).classloader.loaded_classes@[i].name == self.classloader.loaded_classes@[i].name);
                assert(old(self).classloader.loaded_classes@[j].name == self.classloader.loaded_classes@[j].name);
            }
        }
        Ok(Step::Ran)
    }

    /// `getfield`: pop an instance reference and push the value of its field.
    pub fn getfield_op(&mut self, index: u16) -> (r: Result<(), RuntimeError>)
        requires
            old(self).wf(),
        ensures
            final(self).wf(),
            Self::top_step(*old(self), *final(self), r, old(self).getfield_effect(index as int)),
    {
        let ci = self.current_class_index()?;
        let m = resolve_member(&self.classloader.loaded_classes[ci].class, index as usize)?;
        let n = self.frame_stack.len();
        if self.frame_stack[n - 1].operands.len() < 1 {
            return Err(RuntimeError::StackFault);
        }
        let objectref = self.frame_stack[n - 1].operands[self.frame_stack[n - 1].operands.len() - 1];
        let v = match self.heap.get_object(objectref) {
            Some(o) => {
                let fi = o.find_field_by_name_and_descriptor(m.name.as_slice(), m.descriptor.as_slice());
                proof {
                    crate::engine::lemma_first_field(o.fields@, crate::object::field_id(m.name@, m.descriptor@), fi);
                }
                match fi {
                    Some(fi) => o.fields[fi].value,
                    None => return Err(RuntimeError::LinkError),
                }
            },
            None => return Err(RuntimeError::IllegalOperand),
        };
        self.frame_stack[n - 1].set_top(1, v)
    }

    /// What `putfield_op` leaves.
    pub open spec fn putfield_post(old: Runtime, new: Runtime, r: Result<(), RuntimeError>, index: u16) -> bool {
        &&& (new.classloader == old.classloader)
        &&& (new.stringpool == old.stringpool)
        &&& (match old.putfield_target(index as int) {
            Err(e) => r == Err::<(), RuntimeError>(e),
            Ok((o, fi, v)) => {
                let obj = old.heap.objects@[o as int];
                &&& r is Ok
                &&& new.heap.objects@.len() == old.heap.objects@.len()
                &&& forall|k: int|
                    0 <= k < old.heap.objects@.len() && k != o ==> #[trigger] new.heap.objects@[k]
                        == old.heap.objects@[k]
                &&& new.heap.objects@[o as int].typename == obj.typename
                &&& new.heap.objects@[o as int].array == obj.array
                &&& new.heap.objects@[o as int].is_array == obj.is_array
                &&& new.heap.objects@[o as int].fields@ == obj.fields@.update(
                    fi,
                    crate::object::Field { value: v, ..obj.fields@[fi] },
                )
                &&& new.frame_stack@.len() == old.frame_stack@.len()
                &&& forall|i: int|
                    0 <= i < old.frame_stack@.len() - 1 ==> #[trigger] new.frame_stack@[i]
                        == old.frame_stack@[i]
                &&& old.top().replace_top(2, seq![]) == Ok::<FrameModel, RuntimeError>(new.top())
            },
        })
    }

    /// `putfield`: pop a value and an instance reference, and store the value in the
    /// instance's field.
    pub fn putfield_op(&mut self, index: u16) -> (r: Result<(), RuntimeError>)
        requires
            old(self).wf(),
        ensures
            final(self).wf(),
            Self::putfield_post(*old(self), *final(self), r, index),
    {
        let ci = self.current_class_index()?;
        let m = resolve_member(&self.classloader.loaded_classes[ci].class, index as usize)?;
        let n = self.frame_stack.len();
        let len = self.frame_stack[n - 1].operands.len();
        if len < 2 {
            return Err(RuntimeError::StackFault);
        }
        let value = self.frame_stack[n - 1].operands[len - 1];
        let objectref = self.frame_stack[n - 1].operands[len - 2];
        let ghost h0 = self.heap;
        let res = self.heap.set_field(objectref, m.name.as_slice(), m.descriptor.as_slice(), value);
        proof {
            Self::lemma_pool_refs(self.stringpool@, h0, self.heap);
            if res is Ok {
                let id = crate::object::field_id(m.name@, m.descriptor@);
                let i = choose|i: int| crate::engine::is_first_field(h0.objects@[objectref as int].fields@, id, i);
                crate::engine::lemma_first_field_at(h0.objects@[objectref as int].fields@, id, i);
            } else if h0.valid_ref(objectref) {
                crate::engine::lemma_first_field(
                    h0.objects@[objectref as int].fields@,
                    crate::object::field_id(m.name@, m.descriptor@),
                    None,
                );
            }
        }
        res?;
        self.frame_stack[n - 1].drop_top(2)
    }

    /// What `newarray_op` leaves.
    pub open spec fn newarray_post(old: Runtime, new: Runtime, r: Result<(), RuntimeError>, atype: u8) -> bool {
        &&& (new.classloader == old.classloader)
        &&& (new.stringpool == old.stringpool)
        &&& (old.frame_stack@.len() == 0 ==> r == Err::<(), RuntimeError>(RuntimeError::StackFault))
        &&& (old.frame_stack@.len() > 0 ==> {
            let f = old.top();
            let h = old.heap.objects@;
            if f.operands.len() < 1 {
                r == Err::<(), RuntimeError>(RuntimeError::StackFault)
            } else if f.peek(0) < 0 || crate::heap::array_typename(atype) is None {
                r == Err::<(), RuntimeError>(RuntimeError::IllegalOperand)
            } else if h.len() == crate::heap::HEAP_LIMIT {
                r == Err::<(), RuntimeError>(RuntimeError::HeapExhausted)
            } else {
                &&& r is Ok
                &&& new.heap.objects@.len() == h.len() + 1
                &&& new.heap.objects@.subrange(0, h.len() as int) == h
                &&& new.heap.objects@[h.len() as int].typename@ == crate::heap::array_typename(atype)->0
                &&& new.heap.objects@[h.len() as int].is_array
                &&& new.heap.objects@[h.len() as int].array@ == Seq::new(
                    f.peek(0) as nat,
                    |i: int| 0i32,
                )
                &&& new.frame_stack@.len() == old.frame_stack@.len()
                &&& forall|i: int|
                    0 <= i < old.frame_stack@.len() - 1 ==> #[trigger] new.frame_stack@[i]
                        == old.frame_stack@[i]
                &&& f.replace_top(1, seq![h.len() as i32]) == Ok::<FrameModel, RuntimeError>(new.top())
            }
        })
    }

    /// `newarray`: pop a count and push a fresh array of that many zero cells.
    pub fn newarray_op(&mut self, atype: u8) -> (r: Result<(), RuntimeError>)
        requires
            old(self).wf(),
        ensures
            final(self).wf(),
            Self::newarray_post(*old(self), *final(self), r, atype),
    {
        let n = self.frame_stack.len();
        if n == 0 {
            return Err(RuntimeError::StackFault);
        }
        let len = self.frame_stack[n - 1].operands.len();
        if len < 1 {
            return Err(RuntimeError::StackFault);
        }
        let count = self.frame_stack[n - 1].operands[len - 1];
        if count < 0 {
            return Err(RuntimeError::IllegalOperand);
        }
        let ghost h0 = self.heap;
        let arrayref = self.heap.allocate_array(atype, count as usize)?;
        proof {
            assert forall|k: int| 0 <= k < h0.objects@.len() implies (#[trigger] self.heap.objects@[k]).typename
                == h0.objects@[k].typename by {
                assert(self.heap.objects@[k] == self.heap.objects@.subrange(0, arrayref as int)[k]);
            }
            Self::lemma_pool_refs(self.stringpool@, h0, self.heap);
        }
        self.frame_stack[n - 1].set_top(1, arrayref)
    }

    /// `arraylength`: pop an array reference and push its length.
    pub fn arraylength_op(&mut self) -> (r: Result<(), RuntimeError>)
        requires
            old(self).wf(),
        ensures
            final(self).wf(),
            Self::top_step(*old(self), *final(self), r, old(self).arraylength_effect()),
    {
        let n = self.frame_stack.len();
        if n == 0 {
            return Err(RuntimeError::StackFault);
        }
        let len = self.frame_stack[n - 1].operands.len();
        if len < 1 {
            return Err(RuntimeError::StackFault);
        }
        let arrayref = self.frame_stack[n - 1].operands[len - 1];
        let v = match self.heap.get_object(arrayref) {
            Some(o) => if o.is_array && o.array.len() <= 0x7FFF_FFFF {
                o.array.len() as i32
            } else {
                return Err(RuntimeError::IllegalOperand);
            },
            None => return Err(RuntimeError::IllegalOperand),
        };
        self.frame_stack[n - 1].set_top(1, v)
    }

    /// Replace an index and an array reference on the top frame by the cell they name.
    fn array_load(&mut self, narrow: bool) -> (r: Result<(), RuntimeError>)
        requires
            old(self).wf(),
        ensures
            final(self).wf(),
            Self::top_step(*old(self), *final(self), r, old(self).array_load_effect(narrow)),
    {
        let n = self.frame_stack.len();
        if n == 0 {
            return Err(RuntimeError::StackFault);
        }
        let len = self.frame_stack[n - 1].operands.len();
        if len < 2 {
            return Err(RuntimeError::StackFault);
        }
        let index = self.frame_stack[n - 1].operands[len - 1];
        let arrayref = self.frame_stack[n - 1].operands[len - 2];
        let v = match self.heap.get_object(arrayref) {
            Some(o) => if o.is_array && index >= 0 && (index as usize) < o.array.len() {
                o.array[index as usize]
            } else {
                return Err(RuntimeError::IllegalOperand);
            },
            None => return Err(RuntimeError::IllegalOperand),
        };
        let v = if narrow {
            (v as u16) as i32
        } else {
            v
        };
        self.frame_stack[n - 1].set_top(2, v)
    }

    /// `iaload`: pop an index and an array reference; push the cell as an int.
    pub fn iaload_op(&mut self) -> (r: Result<(), RuntimeError>)
        requires
            old(self).wf(),
        ensures
            final(self).wf(),
            Self::top_step(*old(self), *final(self), r, old(self).array_load_effect(false)),
    {
        self.array_load(false)
    }

    /// `caload`: pop an index and an array reference; push the cell as a zero-extended char.
    pub fn caload_op(&mut self) -> (r: Result<(), RuntimeError>)
        requires
            old(self).wf(),
        ensures
            final(self).wf(),
            Self::top_step(*old(self), *final(self), r, old(self).array_load_effect(true)),
    {
        self.array_load(true)
    }

    /// The array reference, index and value that `iastore` (or `castore`, when
    /// `narrow`) stores.
    pub open spec fn array_store_target(&self, narrow: bool) -> Result<(i32, i32, i32), RuntimeError> {
        let f = self.top();
        if self.frame_stack@.len() == 0 || f.operands.len() < 3 {
            Err(RuntimeError::StackFault)
        } else {
            let arrayref = f.peek(2);
            let index = f.peek(1);
            if !self.heap.valid_ref(arrayref) || !self.heap.objects@[arrayref as int].is_array || !(0 <= index
                < self.heap.objects@[arrayref as int].array@.len()) {
                Err(RuntimeError::IllegalOperand)
            } else {
                Ok((arrayref, index, if narrow { (f.peek(0) as u16) as i32 } else { f.peek(0) }))
            }
        }
    }

    /// What a store into an array leaves.
    pub open spec fn array_store_post(old: Runtime, new: Runtime, r: Result<(), RuntimeError>, narrow: bool) -> bool {
        &&& new.classloader == old.classloader
        &&& new.stringpool == old.stringpool
        &&& match old.array_store_target(narrow) {
            Err(e) => r == Err::<(), RuntimeError>(e),
            Ok((a, i, v)) => {
                let obj = old.heap.objects@[a as int];
                &&& r is Ok
                &&& new.heap.objects@.len() == old.heap.objects@.len()
                &&& forall|k: int|
                    0 <= k < old.heap.objects@.len() && k != a ==> #[trigger] new.heap.objects@[k] == old.heap.objects@[k]
                &&& new.heap.objects@[a as int].array@ == obj.array@.update(i as int, v)
                &&& new.heap.objects@[a as int].typename == obj.typename
                &&& new.heap.objects@[a as int].fields == obj.fields
                &&& new.frame_stack@.len() == old.frame_stack@.len()
                &&& forall|j: int|
                    0 <= j < old.frame_stack@.len() - 1 ==> #[trigger] new.frame_stack@[j] == old.frame_stack@[j]
                &&& old.top().replace_top(3, seq![]) == Ok::<FrameModel, RuntimeError>(new.top())
            },
        }
    }

    /// Pop a value, an index and an array reference, and store the value in that cell.
    fn store_cell(&mut self, narrow: bool) -> (r: Result<(), RuntimeError>)
        requires
            old(self).wf(),
        ensures
            final(self).wf(),
            Self::array_store_post(*old(self), *final(self), r, narrow),
    {
        let n = self.frame_stack.len();
        if n == 0 {
            return Err(RuntimeError::StackFault);
        }
        let len = self.frame_stack[n - 1].operands.len();
        if len < 3 {
            return Err(RuntimeError::StackFault);
        }
        let value = self.frame_stack[n - 1].operands[len - 1];
        let index = self.frame_stack[n - 1].operands[len - 2];
        let arrayref = self.frame_stack[n - 1].operands[len - 3];
        let v = if narrow {
            (value as u16) as i32
        } else {
            value
        };
        let ghost h0 = self.heap;
        let res = self.heap.set_array_cell(arrayref, index, v);
        proof {
            Self::lemma_pool_refs(self.stringpool@, h0, self.heap);
        }
        res?;
        self.frame_stack[n - 1].drop_top(3)
    }

    /// `iastore`: pop a value, an index and an array reference; store the value.
    pub fn iastore_op(&mut self) -> (r: Result<(), RuntimeError>)
        requires
            old(self).wf(),
        ensures
            final(self).wf(),
            Self::array_store_post(*old(self), *final(self), r, false),
    {
        self.store_cell(false)
    }

    /// `castore`: pop a value, an index and an array reference; store the value
    /// narrowed to 16 bits.
    pub fn castore_op(&mut self) -> (r: Result<(), RuntimeError>)
        requires
            old(self).wf(),
        ensures
            final(self).wf(),
            Self::array_store_post(*old(self), *final(self), r, true),
    {
        self.store_cell(true)
    }

    /// What `return_op` leaves.
    pub open spec fn return_post(old: Runtime, new: Runtime, r: Result<(), RuntimeError>) -> bool {
        &&& (new.heap == old.heap)
        &&& (new.classloader == old.classloader)
        &&& (new.stringpool == old.stringpool)
        &&& (r is Ok <==> old.frame_stack@.len() > 0)
        &&& (r is Ok ==> new.frame_stack@ == old.frame_stack@.drop_last())
    }

    /// `return`: discard the current frame.
    pub fn return_op(&mut self) -> (r: Result<(), RuntimeError>)
        requires
            old(self).wf(),
        ensures
            final(self).wf(),
            Self::return_post(*old(self), *final(self), r),
    {
        match self.frame_stack.pop() {
            Some(_) => Ok(()),
            None => Err(RuntimeError::StackFault),
        }
    }

    /// What `ireturn` and `areturn` leave: the returning frame is gone and its top cell
    /// is pushed on the invoker's stack; nothing else changes.
    pub open spec fn ireturn_post(old: Runtime, new: Runtime, r: Result<(), RuntimeError>) -> bool {
        let n = old.frame_stack@.len();
        &&& new.heap == old.heap
        &&& new.classloader == old.classloader
        &&& new.stringpool == old.stringpool
        &&& new.entry == old.entry
        &&& (r is Ok <==> (n >= 2 && old.top().operands.len() >= 1
            && old.frame_stack@[n - 2]@.operands.len() < old.frame_stack@[n - 2]@.max_stack))
        &&& (r is Err ==> r == Err::<(), RuntimeError>(RuntimeError::StackFault))
        &&& (r is Ok ==> {
            &&& new.frame_stack@.len() == n - 1
            &&& forall|i: int| 0 <= i < n - 2 ==> #[trigger] new.frame_stack@[i] == old.frame_stack@[i]
            &&& old.frame_stack@[n - 2]@.push(old.top().peek(0)) == Ok::<FrameModel, RuntimeError>(new.top())
        })
    }

    /// `ireturn`: pop a value, discard the current frame, push the value on the invoker's stack.
    pub fn ireturn_op(&mut self) -> (r: Result<(), RuntimeError>)
        requires
            old(self).wf(),
        ensures
            final(self).wf(),
            Self::ireturn_post(*old(self), *final(self), r),
    {
        let n = self.frame_stack.len();
        if n < 2 || self.frame_stack[n - 1].operands.len() < 1
            || self.frame_stack[n - 2].operands.len() >= self.frame_stack[n - 2].max_stack {
            return Err(RuntimeError::StackFault);
        }
        let len = self.frame_stack[n - 1].operands.len();
        let value = self.frame_stack[n - 1].operands[len - 1];
        self.frame_stack.pop();
        let res = self.frame_stack[n - 2].push(value);
        assert(res is Ok);
        res
    }

    /// `areturn`: as `ireturn`, for a reference.
    pub fn areturn_op(&mut self) -> (r: Result<(), RuntimeError>)
        requires
            old(self).wf(),
        ensures
            final(self).wf(),
            Self::ireturn_post(*old(self), *final(self), r),
    {
        self.ireturn_op()
    }

    /// Invoke the method that the reference at `index` names. `receiver` says whether an
    /// object reference precedes the arguments; `native_ok` whether a native method may
    /// be bridged. Arguments are popped into locals `receiver ..`, the receiver into
    /// local 0.
    fn invoke(&mut self, index: u16, receiver: bool, native_ok: bool) -> (r: Result<Step, RuntimeError>)
        requires
            old(self).wf(),
        ensures
            final(self).wf(),
            Self::asked_for_class(*old(self), *final(self), r),
            r matches Ok(s) ==> !(s is Halted),
            final(self).classloader == old(self).classloader,
            Self::invoke_post(*old(self), *final(self), r, index as int, receiver, native_ok),
    {
        let ci = self.current_class_index()?;
        let m = resolve_member(&self.classloader.loaded_classes[ci].class, index as usize)?;
        let target = match self.classloader.find_loaded_class(m.class_name.as_slice()) {
            Some(t) => t,
            None => return Ok(Step::NeedClass(m.class_name)),
        };
        let mi = match self.classloader.loaded_classes[target].class.find_method(
            m.name.as_slice(),
            m.descriptor.as_slice(),
        ) {
            Some(i) => i,
            None => return Err(RuntimeError::LinkError),
        };
        let nargs = descriptor_arg_slots(m.descriptor.as_slice())?;
        let first: usize = if receiver {
            1
        } else {
            0
        };
        let total: usize = nargs + first;
        let n = self.frame_stack.len();
        if self.frame_stack[n - 1].operands.len() < total {
            return Err(RuntimeError::StackFault);
        }
        let code = self.classloader.loaded_classes[target].class.methods[mi].get_code_attribute(
            &self.classloader.loaded_classes[target].class,
        );
        proof {
            crate::engine::lemma_code_found(self.classloader.loaded_classes@[target as int].class, mi as int, code);
        }
        match code {
            Some(code) => {
                self.push_invoked_frame(target, mi, code, total)?;
                Ok(Step::Ran)
            },
            None => {
                if !native_ok || !self.classloader.loaded_classes[target].class.methods[mi].is_native() {
                    return Err(RuntimeError::LinkError);
                }
                let native = get_assoc_native_method(
                    m.class_name.as_slice(),
                    m.name.as_slice(),
                    m.descriptor.as_slice(),
                )?;
                if total <= first {
                    return Err(RuntimeError::LinkError);
                }
                let arg: i32 = self.frame_stack[n - 1].operands[self.frame_stack[n - 1].operands.len() - nargs];
                assert(arg == old(self).top().peek(nargs - 1));
                match native {
                    NativeMethod::PrintStreamWrite => self.print_native(arg, total),
                }
            },
        }
    }

    /// Move the top `total` cells of the caller's stack into the first locals of a fresh
    /// frame for `code`, method `mi` of class `target`, and push that frame.
    fn push_invoked_frame(&mut self, target: usize, mi: usize, code: crate::class::Code, total: usize) -> (r: Result<(), RuntimeError>)
        requires
            old(self).wf(),
            old(self).frame_stack@.len() > 0,
            old(self).top().operands.len() >= total,
            target < old(self).classloader.loaded_classes@.len(),
            crate::class::code_of_payload(
                crate::engine::code_info(old(self).classloader.loaded_classes@[target as int].class, mi as int),
                code,
            ),
        ensures
            final(self).wf(),
            final(self).entry == old(self).entry,
            r is Ok <==> code.max_locals >= total,
            r is Ok ==> Self::invoked(*old(self), *final(self), target as int, mi as int, total as nat),
            r is Err ==> r == Err::<(), RuntimeError>(RuntimeError::StackFault) && final(self).classloader
                == old(self).classloader,
    {
        if (code.max_locals as usize) < total {
            return Err(RuntimeError::StackFault);
        }
        let n = self.frame_stack.len();
        let ghost ops0 = self.top().operands;
        let ghost len0 = ops0.len();
        let ghost cv = (code.max_stack, code.max_locals, code.code@);
        let mut frame = Self::frame_for(target, mi, code);
        let base = self.frame_stack[n - 1].operands.len() - total;
        let mut k: usize = 0;
        while k < total
            invariant
                n == old(self).frame_stack@.len() && n > 0,
                *self == *old(self),
                ops0 == old(self).top().operands,
                len0 == ops0.len(),
                total <= len0,
                base == len0 - total,
                ops0 == self.frame_stack@[n - 1].operands@,
                len0 == self.frame_stack[n - 1].operands.len(),
                frame@.wf(),
                k <= total <= frame@.locals.len(),
                frame@.locals.subrange(0, k as int) == ops0.subrange(base as int, base + k),
                forall|j: int| total <= j < frame@.locals.len() ==> #[trigger] frame@.locals[j] == 0,
                frame@.class_index == target,
                frame@.method_index == mi,
                frame@.pc == 0,
                frame@.operands.len() == 0,
                frame@.max_stack == cv.0,
                frame@.max_locals == cv.1,
                frame@.code == cv.2,
            decreases total - k,
        {
            let v = self.frame_stack[n - 1].operands[base + k];
            frame.locals.set(k, v);
            k += 1;
            assert(frame@.locals.subrange(0, k as int) =~= ops0.subrange(base as int, base + k));
        }
        let res = self.frame_stack[n - 1].drop_top(total);
        assert(res is Ok);
        assert(self.top().operands =~= ops0.subrange(0, len0 - total));
        self.push_frame(frame);
        assert(self.frame_stack@[n - 1]@ == old(self).top().with_operands(ops0.subrange(0, len0 - total)));
        Ok(())
    }

    /// Drop the `total` cells of a native call and hand back the text of `arg`, the
    /// `java/lang/String` to write.
    fn print_native(&mut self, arg: i32, total: usize) -> (r: Result<Step, RuntimeError>)
        requires
            old(self).wf(),
            old(self).frame_stack@.len() > 0,
            old(self).top().operands.len() >= total,
        ensures
            final(self).wf(),
            final(self).classloader == old(self).classloader,
            final(self).entry == old(self).entry,
            r is Ok ==> r matches Ok(Step::Print(_)),
            (r matches Ok(Step::Print(u))) <==> old(self).string_units(arg) is Ok,
            r matches Ok(Step::Print(u)) ==> old(self).string_units(arg) == Ok::<Seq<u16>, RuntimeError>(u@),
            r is Ok ==> Self::native_called(*old(self), *final(self), total as nat),
    {
        let n = self.frame_stack.len();
        let ghost ops0 = self.top().operands;
        let res = self.frame_stack[n - 1].drop_top(total);
        assert(res is Ok);
        assert(self.top().operands =~= ops0.subrange(0, ops0.len() - total));
        let units = self.get_string_from_obj(arg)?;
        Ok(Step::Print(units))
    }

    /// `invokestatic`: invoke a static method; its arguments go to locals `0 ..`.
    pub fn invokestatic_op(&mut self, index: u16) -> (r: Result<Step, RuntimeError>)
        requires
            old(self).wf(),
        ensures
            final(self).wf(),
            Self::invoke_post(*old(self), *final(self), r, index as int, false, true),
            Self::asked_for_class(*old(self), *final(self), r),
            r matches Ok(s) ==> !(s is Halted),
            final(self).classloader == old(self).classloader,
    {
        self.invoke(index, false, true)
    }

    /// `invokevirtual`: invoke a method on a receiver, or bridge to a native method
    /// where it has no code and is marked native.
    pub fn invokevirtual_op(&mut self, index: u16) -> (r: Result<Step, RuntimeError>)
        requires
            old(self).wf(),
        ensures
            final(self).wf(),
            Self::invoke_post(*old(self), *final(self), r, index as int, true, true),
            Self::asked_for_class(*old(self), *final(self), r),
            r matches Ok(s) ==> !(s is Halted),
            final(self).classloader == old(self).classloader,
    {
        self.invoke(index, true, true)
    }

    /// `invokespecial`: invoke a method with code on a receiver.
    pub fn invokespecial_op(&mut self, index: u16) -> (r: Result<Step, RuntimeError>)
        requires
            old(self).wf(),
        ensures
            final(self).wf(),
            Self::invoke_post(*old(self), *final(self), r, index as int, true, false),
            Self::asked_for_class(*old(self), *final(self), r),
            r matches Ok(s) ==> !(s is Halted),
            final(self).classloader == old(self).classloader,
    {
        self.invoke(index, true, false)
    }

    /// The entry method of `class`: its first `main([Ljava/lang/String;)V`.
    pub open spec fn main_method(class: Class) -> Option<int> {
        class.first_method("main".spec_bytes(), "([Ljava/lang/String;)V".spec_bytes())
    }

    /// What starting the entry class `e` leaves. Without a static `main` it fails with
    /// `NoSuchEntry` and changes nothing. Otherwise `e` is registered under its name; a
    /// `main` without code fails with `NoSuchEntry`; and on success the stack is the old
    /// one, then `main`'s frame at pc 0, then the `<clinit>` frame if there is one, then
    /// the frames that intern the class's literals.
    pub open spec fn start_main_post(old: Runtime, new: Runtime, r: Result<(), RuntimeError>, e: EntryPoint) -> bool {
        let n = old.frame_stack@.len();
        let sn = crate::engine::string_class_name();
        &&& !Self::can_run(e.class) ==> r == Err::<(), RuntimeError>(RuntimeError::NoSuchEntry)
            && new.classloader == old.classloader && new.frame_stack@ == old.frame_stack@ && new.heap
            == old.heap && new.stringpool == old.stringpool
        &&& Self::can_run(e.class) ==> {
            let ci = new.classloader.index_of(e.name@);
            let clinit = e.class.first_method("<clinit>".spec_bytes(), "()V".spec_bytes());
            &&& Self::main_method(e.class) is Some
            &&& new.classloader.has(e.name@)
            &&& new.classloader.loaded_classes@[ci].class == e.class
            &&& !crate::engine::has_code(e.class, Self::main_method(e.class)->0) ==> r == Err::<(), RuntimeError>(
                RuntimeError::NoSuchEntry,
            )
            &&& (crate::engine::has_code(e.class, Self::main_method(e.class)->0) && (clinit matches Some(c)
                ==> crate::engine::has_code(e.class, c)) && Self::feed_ready_parts(
                new.classloader,
                old.heap.objects@.len() as int,
                ci,
            )) ==> r is Ok
            &&& r is Ok ==> {
                &&& new.frame_stack@.len() > n
                &&& new.frame_stack@.subrange(0, n as int) == old.frame_stack@
                &&& new.frame_stack@[n as int]@.class_index == ci
                &&& new.frame_stack@[n as int]@.method_index == Self::main_method(e.class)->0
                &&& new.frame_stack@[n as int]@.pc == 0
                &&& new.frame_stack@[n as int]@.operands.len() == 0
                &&& clinit matches Some(c) ==> new.frame_stack@.len() > n + 1
                    && new.frame_stack@[n + 1int]@.class_index == ci && new.frame_stack@[n + 1int]@.method_index == c
                    && new.frame_stack@[n + 1int]@.pc == 0
                &&& exists|mid: Runtime|
                    mid.stringpool == old.stringpool && mid.heap == old.heap && mid.frame_stack@ == new.frame_stack@.subrange(
                        0,
                        n + 1 + (if clinit is Some { 1int } else { 0int }),
                    ) && #[trigger] Self::fed(
                        mid,
                        new,
                        e.class,
                        new.classloader.index_of(sn),
                        new.classloader.loaded_classes@[new.classloader.index_of(sn)].class.first_method(
                            "<init>".spec_bytes(),
                            "([C)V".spec_bytes(),
                        ),
                    )
            }
        }
    }

    /// Register the entry class, push its `main` frame, then schedule its initialization.
    #[verifier::rlimit(100)]
    #[verifier::spinoff_prover]
    fn start_main(&mut self, e: EntryPoint) -> (r: Result<(), RuntimeError>)
        requires
            old(self).wf(),
        ensures
            final(self).wf(),
            final(self).entry == old(self).entry,
            Self::start_main_post(*old(self), *final(self), r, e),
    {
        let ghost ge = e;
        self.check_if_can_run(&e.class)?;
        let ci = self.classloader.set_class_as_loaded(e.name.as_slice(), e.class);
        proof {
            assert(Self::pool_refs_ok(self.stringpool@, self.heap));
        }
        let mi = match self.classloader.loaded_classes[ci].class.find_method(
            "main".as_bytes(),
            "([Ljava/lang/String;)V".as_bytes(),
        ) {
            Some(i) => i,
            None => return Err(RuntimeError::NoSuchEntry),
        };
        let c = self.classloader.loaded_classes[ci].class.methods[mi].get_code_attribute(
            &self.classloader.loaded_classes[ci].class,
        );
        proof {
            crate::engine::lemma_code_found(self.classloader.loaded_classes@[ci as int].class, mi as int, c);
        }
        let code = match c {
            Some(c) => c,
            None => return Err(RuntimeError::NoSuchEntry),
        };
        let frame = Self::frame_for(ci, mi, code);
        self.push_frame(frame);
        let ghost after_main = *self;
        self.add_static_code_frame(ci)?;
        let ghost mid = *self;
        let res = self.add_string_pool_feed_frame(ci);
        proof {
            let n = old(self).frame_stack@.len() as int;
            let ml = mid.frame_stack@.len() as int;
            assert(ml == n + 1 + (if ge.class.first_method("<clinit>".spec_bytes(), "()V".spec_bytes()) is Some { 1int } else { 0int }));
            assert forall|k: int| 0 <= k < ml implies #[trigger] self.frame_stack@[k] == mid.frame_stack@[k] by {
                assert(self.frame_stack@[k] == self.frame_stack@.subrange(0, ml)[k]);
            }
            assert forall|k: int| 0 <= k < n + 1 implies #[trigger] mid.frame_stack@[k] == after_main.frame_stack@[k] by {
                assert(mid.frame_stack@[k] == mid.frame_stack@.subrange(0, n + 1)[k]);
            }
            assert forall|k: int| 0 <= k < n implies #[trigger] after_main.frame_stack@[k] == old(self).frame_stack@[k] by {}
            assert(self.frame_stack@.subrange(0, n) =~= old(self).frame_stack@);
            assert(mid.frame_stack@ =~= self.frame_stack@.subrange(0, ml));
            assert(self.frame_stack@[n] == after_main.frame_stack@[n]);
            assert(mid.heap == old(self).heap);
            assert(mid.stringpool == old(self).stringpool);
            assert(self.classloader == mid.classloader);
        }
        res
    }

    /// The state just before an instruction runs: the top frame's pc has moved past
    /// `op` and its operands; nothing else differs from `old`.
    pub open spec fn stepped_from(old: Runtime, mid: Runtime, op: OpCode) -> bool {
        let n = old.frame_stack@.len();
        &&& n > 0
        &&& mid.heap == old.heap
        &&& mid.classloader == old.classloader
        &&& mid.stringpool == old.stringpool
        &&& mid.entry == old.entry
        &&& mid.frame_stack@.len() == n
        &&& forall|i: int| 0 <= i < n - 1 ==> #[trigger] mid.frame_stack@[i] == old.frame_stack@[i]
        &&& mid.top() == advanced(old.top(), op)
    }

    /// What running `op` leaves, each instruction by its own contract.
    pub open spec fn op_post(old: Runtime, new: Runtime, r: Result<Step, RuntimeError>, op: OpCode) -> bool {
        let ran_or_err = r matches Ok(Step::Ran) || r is Err;
        match local_effect(op, old.top()) {
            Some(res) => ran_or_err && Self::top_step(old, new, unit_of(r), res),
            None => match op {
                OpCode::Ldc { index } => ran_or_err && Self::top_step(old, new, unit_of(r), old.ldc_effect(index as int)),
                OpCode::Ldc2w { index } => ran_or_err && Self::top_step(
                    old,
                    new,
                    unit_of(r),
                    old.ldc2w_effect(index as int),
                ),
                OpCode::GetField { index } => ran_or_err && Self::top_step(
                    old,
                    new,
                    unit_of(r),
                    old.getfield_effect(index as int),
                ),
                OpCode::PutField { index } => ran_or_err && Self::putfield_post(old, new, unit_of(r), index),
                OpCode::NewArray { atype } => ran_or_err && Self::newarray_post(old, new, unit_of(r), atype),
                OpCode::ArrayLength => ran_or_err && Self::top_step(old, new, unit_of(r), old.arraylength_effect()),
                OpCode::Iaload => ran_or_err && Self::top_step(old, new, unit_of(r), old.array_load_effect(false)),
                OpCode::Caload => ran_or_err && Self::top_step(old, new, unit_of(r), old.array_load_effect(true)),
                OpCode::Iastore => ran_or_err && Self::array_store_post(old, new, unit_of(r), false),
                OpCode::Castore => ran_or_err && Self::array_store_post(old, new, unit_of(r), true),
                OpCode::Return => ran_or_err && Self::return_post(old, new, unit_of(r)),
                OpCode::Ireturn => ran_or_err && Self::ireturn_post(old, new, unit_of(r)),
                OpCode::Areturn => ran_or_err && Self::ireturn_post(old, new, unit_of(r)),
                OpCode::New { index } => Self::new_post(old, new, r, index),
                OpCode::GetStatic { index } => Self::getstatic_post(old, new, r, index),
                OpCode::PutStatic { index } => Self::putstatic_post(old, new, r, index),
                OpCode::InvokeStatic { index } => Self::invoke_post(old, new, r, index as int, false, true),
                OpCode::InvokeVirtual { index } => Self::invoke_post(old, new, r, index as int, true, true),
                OpCode::InvokeSpecial { index } => Self::invoke_post(old, new, r, index as int, true, false),
                _ => true,
            },
        }
    }

    /// Run one instruction of the top frame. With no frame left, ask for the next
    /// bootstrap class that is not registered, else start `main` if it waits, else halt.
    pub fn step(&mut self) -> (r: Result<Step, RuntimeError>)
        requires
            old(self).wf(),
        ensures
            final(self).wf(),
            r matches Ok(Step::Halted) ==> old(self).frame_stack@.len() == 0 && old(self).entry is None
                && *final(self) == *old(self),
            old(self).frame_stack@.len() == 0 ==> {
                let string = "java/lang/String".spec_bytes();
                let integer = "java/lang/Integer".spec_bytes();
                let object = "java/lang/Object".spec_bytes();
                if !old(self).classloader.has(string) {
                    Self::asks_for(*old(self), *final(self), r, string)
                } else if !old(self).classloader.has(integer) {
                    Self::asks_for(*old(self), *final(self), r, integer)
                } else if !old(self).classloader.has(object) {
                    Self::asks_for(*old(self), *final(self), r, object)
                } else if old(self).entry is None {
                    r matches Ok(Step::Halted)
                } else {
                    &&& (r matches Ok(Step::Ran) || r is Err)
                    &&& final(self).entry is None
                    &&& Self::start_main_post(*old(self), *final(self), unit_of(r), old(self).entry->0)
                }
            },
            r matches Ok(Step::NeedClass(n)) ==> !old(self).classloader.has(n@) && final(self).frame_stack@
                == old(self).frame_stack@ && final(self).heap == old(self).heap && final(self).classloader
                == old(self).classloader && final(self).stringpool == old(self).stringpool && final(self).entry
                == old(self).entry,
            old(self).frame_stack@.len() > 0 ==> match crate::opcodes::decode(
                old(self).top().code,
                old(self).top().pc,
            ) {
                Err(e) => r == Err::<Step, RuntimeError>(e) && *final(self) == *old(self),
                Ok(op) => {
                    &&& local_effect(op, advanced(old(self).top(), op)) matches Some(res) ==> (r matches Ok(
                        Step::Ran,
                    ) || r is Err) && Self::top_step(*old(self), *final(self), unit_of(r), res)
                    &&& !(r matches Ok(Step::NeedClass(_))) ==> exists|mid: Runtime|
                        #[trigger] Self::stepped_from(*old(self), mid, op) && Self::op_post(
                            mid,
                            *final(self),
                            r,
                            op,
                        )
                },
            },
    {
        let n = self.frame_stack.len();
        if n == 0 {
            if self.classloader.find_loaded_class("java/lang/String".as_bytes()).is_none() {
                return Ok(Step::NeedClass(crate::object::bytes_of("java/lang/String")));
            }
            if self.classloader.find_loaded_class("java/lang/Integer".as_bytes()).is_none() {
                return Ok(Step::NeedClass(crate::object::bytes_of("java/lang/Integer")));
            }
            if self.classloader.find_loaded_class("java/lang/Object".as_bytes()).is_none() {
                return Ok(Step::NeedClass(crate::object::bytes_of("java/lang/Object")));
            }
            return match self.entry.take() {
                Some(e) => {
                    self.start_main(e)?;
                    Ok(Step::Ran)
                },
                None => Ok(Step::Halted),
            };
        }
        let pc = self.frame_stack[n - 1].pc;
        let op = OpCode::from(self.frame_stack[n - 1].location.code.as_slice(), pc)?;
        let len = self.frame_stack[n - 1].location.code.len();
        let w = op.width();
        if pc >= len || w >= len - pc {
            return Err(RuntimeError::UnsupportedOpcode);
        }
        let next = pc + 1 + w;
        self.frame_stack[n - 1].pc = next;
        let ghost mid = *self;
        assert(Self::stepped_from(*old(self), mid, op));
        let r = self.execute(op);
        match r {
            Ok(Step::NeedClass(_)) => {
                self.frame_stack[n - 1].pc = pc;
                assert(self.frame_stack@ =~= old(self).frame_stack@);
            },
            _ => {},
        }
        r
    }

    /// Run a decoded instruction, whose operands the pc has already passed.
    fn execute(&mut self, op: OpCode) -> (r: Result<Step, RuntimeError>)
        requires
            old(self).wf(),
            old(self).frame_stack@.len() > 0,
        ensures
            final(self).wf(),
            r matches Ok(s) ==> !(s is Halted),
            Self::asked_for_class(*old(self), *final(self), r),
            local_effect(op, old(self).top()) matches Some(res) ==> (r matches Ok(Step::Ran) || r is Err)
                && Self::top_step(*old(self), *final(self), unit_of(r), res),
            Self::op_post(*old(self), *final(self), r, op),
    {
        let res = match op {
            OpCode::Nop => Ok(()),
            OpCode::IconstM1 => self.iconst_op(-1),
            OpCode::Iconst0 => self.iconst_op(0),
            OpCode::Iconst1 => self.iconst_op(1),
            OpCode::Iconst2 => self.iconst_op(2),
            OpCode::Iconst3 => self.iconst_op(3),
            OpCode::Iconst4 => self.iconst_op(4),
            OpCode::Iconst5 => self.iconst_op(5),
            OpCode::Lconst0 => self.lconst_op(0),
            OpCode::Lconst1 => self.lconst_op(1),
            OpCode::Bipush { byte } => self.bipush_op(byte),
            OpCode::Sipush { value } => self.sipush_op(value),
            OpCode::Ldc { index } => self.ldc_op(index),
            OpCode::Ldc2w { index } => self.ldc2w_op(index),
            OpCode::Iload { index } => self.iload_op(index as usize),
            OpCode::Lload { index } => self.lload_op(index as usize),
            OpCode::Iload0 => self.iload_op(0),
            OpCode::Iload1 => self.iload_op(1),
            OpCode::Iload2 => self.iload_op(2),
            OpCode::Iload3 => self.iload_op(3),
            OpCode::Lload0 => self.lload_op(0),
            OpCode::Lload1 => self.lload_op(1),
            OpCode::Lload2 => self.lload_op(2),
            OpCode::Lload3 => self.lload_op(3),
            OpCode::Aload0 => self.aload_op(0),
            OpCode::Aload1 => self.aload_op(1),
            OpCode::Aload2 => self.aload_op(2),
            OpCode::Aload3 => self.aload_op(3),
            OpCode::Iaload => self.iaload_op(),
            OpCode::Caload => self.caload_op(),
            OpCode::Istore { index } => self.istore_op(index as usize),
            OpCode::Lstore { index } => self.lstore_op(index as usize),
            OpCode::Istore0 => self.istore_op(0),
            OpCode::Istore1 => self.istore_op(1),
            OpCode::Istore2 => self.istore_op(2),
            OpCode::Istore3 => self.istore_op(3),
            OpCode::Lstore0 => self.lstore_op(0),
            OpCode::Lstore1 => self.lstore_op(1),
            OpCode::Lstore2 => self.lstore_op(2),
            OpCode::Lstore3 => self.lstore_op(3),
            OpCode::Astore0 => self.astore_op(0),
            OpCode::Astore1 => self.astore_op(1),
            OpCode::Astore2 => self.astore_op(2),
            OpCode::Astore3 => self.astore_op(3),
            OpCode::Iastore => self.iastore_op(),
            OpCode::Castore => self.castore_op(),
            OpCode::Pop => self.pop_op(),
            OpCode::Dup => self.dup_op(),
            OpCode::Iadd => self.iadd_op(),
            OpCode::Ladd => self.ladd_op(),
            OpCode::Isub => self.isub_op(),
            OpCode::Lsub => self.lsub_op(),
            OpCode::Imul => self.imul_op(),
            OpCode::Lmul => self.lmul_op(),
            OpCode::Idiv => self.idiv_op(),
            OpCode::Ldiv => self.ldiv_op(),
            OpCode::Irem => self.irem_op(),
            OpCode::Ineg => self.ineg_op(),
            OpCode::Ishl => self.ishl_op(),
            OpCode::Lshl => self.lshl_op(),
            OpCode::Iushr => self.iushr_op(),
            OpCode::Iand => self.iand_op(),
            OpCode::Ior => self.ior_op(),
            OpCode::Iinc { index, immediate } => self.iinc_op(index, immediate),
            OpCode::I2l => self.i2l_op(),
            OpCode::L2i => self.l2i_op(),
            OpCode::I2b => self.i2b_op(),
            OpCode::I2c => self.i2c_op(),
            OpCode::Lcmp => self.lcmp_op(),
            OpCode::IfEq { offset } => self.if_op(offset, Cond::Eq),
            OpCode::IfNe { offset } => self.if_op(offset, Cond::Ne),
            OpCode::IfLt { offset } => self.if_op(offset, Cond::Lt),
            OpCode::IfGe { offset } => self.if_op(offset, Cond::Ge),
            OpCode::IfGt { offset } => self.if_op(offset, Cond::Gt),
            OpCode::IfLe { offset } => self.if_op(offset, Cond::Le),
            OpCode::IfICmpEq { offset } => self.if_icmp_op(offset, Cond::Eq),
            OpCode::IfICmpNe { offset } => self.if_icmp_op(offset, Cond::Ne),
            OpCode::IfICmpLt { offset } => self.if_icmp_op(offset, Cond::Lt),
            OpCode::IfICmpGe { offset } => self.if_icmp_op(offset, Cond::Ge),
            OpCode::IfICmpGt { offset } => self.if_icmp_op(offset, Cond::Gt),
            OpCode::IfICmpLe { offset } => self.if_icmp_op(offset, Cond::Le),
            OpCode::Goto { offset } => self.goto_op(offset),
            OpCode::Ireturn => self.ireturn_op(),
            OpCode::Areturn => self.areturn_op(),
            OpCode::Return => self.return_op(),
            OpCode::GetStatic { index } => return self.getstatic_op(index),
            OpCode::PutStatic { index } => return self.putstatic_op(index),
            OpCode::GetField { index } => self.getfield_op(index),
            OpCode::PutField { index } => self.putfield_op(index),
            OpCode::InvokeVirtual { index } => return self.invokevirtual_op(index),
            OpCode::InvokeSpecial { index } => return self.invokespecial_op(index),
            OpCode::InvokeStatic { index } => return self.invokestatic_op(index),
            OpCode::New { index } => return self.new_op(index),
            OpCode::NewArray { atype } => self.newarray_op(atype),
            OpCode::ArrayLength => self.arraylength_op(),
            OpCode::IfNull { offset } => self.ifnull_op(offset),
            OpCode::IfNonNull { offset } => self.ifnonnull_op(offset),
        };
        match res {
            Ok(()) => Ok(Step::Ran),
            Err(e) => Err(e),
        }
    }
}

} // verus!
