//! The runtime: heap, class registry, frame stack and string pool, with class
//! initialization and string interning.
use vstd::prelude::*;
use vstd::string::StringSliceAdditionalSpecFns;
use crate::class::{Class, Code};
use crate::classloader::Classloader;
use crate::error::RuntimeError;
use crate::frame::{Frame, FrameModel, Location};
use crate::heap::Heap;
use crate::object::bytes_of;
use crate::utils::be_u16;

verus! {

/// An interned string literal and the `java/lang/String` instance that holds it.
#[derive(Debug)]
pub struct StringEntry {
    pub key: Vec<u8>,
    pub objectref: i32,
}

/// The class whose `main` runs once the bootstrap classes are initialized.
#[derive(Debug)]
pub struct EntryPoint {
    pub name: Vec<u8>,
    pub class: Class,
}

/// What the runtime asks of its driver after one step.
#[derive(Debug)]
pub enum Step {
    /// One instruction ran; step again.
    Ran,
    /// The class with this binary name must be read from the classpath and handed to
    /// `load_and_initialize`; then step again.
    NeedClass(Vec<u8>),
    /// The native `PrintStream.write` ran: write these UTF-16 code units out.
    Print(Vec<u16>),
    /// No frame is left and nothing waits to run.
    Halted,
}

/// The whole state of a running program: heap, class registry, frame stack, string
/// pool, and the entry class waiting for the bootstrap classes.
pub struct Runtime {
    pub heap: Heap,
    pub classloader: Classloader,
    pub frame_stack: Vec<Frame>,
    pub stringpool: Vec<StringEntry>,
    pub entry: Option<EntryPoint>,
}

pub open spec fn string_class_name() -> Seq<u8> {
    "java/lang/String".spec_bytes()
}

/// The native methods the runtime provides.
#[derive(Debug, Clone, Copy, PartialEq, Eq, Structural)]
pub enum NativeMethod {
    /// `java/io/PrintStream.write(Ljava/lang/String;)V`
    PrintStreamWrite,
}

/// Whether the triple names `java/io/PrintStream.write(Ljava/lang/String;)V`.
pub open spec fn is_print_stream_write(class_name: Seq<u8>, method_name: Seq<u8>, descriptor: Seq<u8>) -> bool {
    class_name == "java/io/PrintStream".spec_bytes() && method_name == "write".spec_bytes() && descriptor
        == "(Ljava/lang/String;)V".spec_bytes()
}

/// The native implementation registered for a class, method name and descriptor.
pub fn get_assoc_native_method(class_name: &[u8], method_name: &[u8], descriptor: &[u8]) -> (r: Result<NativeMethod, RuntimeError>)
    ensures
        r is Ok <==> is_print_stream_write(class_name@, method_name@, descriptor@),
        r is Ok ==> r == Ok::<NativeMethod, RuntimeError>(NativeMethod::PrintStreamWrite),
        r is Err ==> r == Err::<NativeMethod, RuntimeError>(RuntimeError::NoNativeImpl),
{
    if crate::class::bytes_eq(class_name, "java/io/PrintStream".as_bytes()) && crate::class::bytes_eq(
        method_name,
        "write".as_bytes(),
    ) && crate::class::bytes_eq(descriptor, "(Ljava/lang/String;)V".as_bytes()) {
        Ok(NativeMethod::PrintStreamWrite)
    } else {
        Err(RuntimeError::NoNativeImpl)
    }
}

/// Whether `i` is the first position of a field with id `id`.
pub open spec fn is_first_field(fields: Seq<crate::object::Field>, id: Seq<u8>, i: int) -> bool {
    0 <= i < fields.len() && fields[i].id@ == id && forall|j: int| 0 <= j < i ==> (#[trigger] fields[j]).id@ != id
}

/// The position of the first field with id `id`.
pub open spec fn first_field(fields: Seq<crate::object::Field>, id: Seq<u8>) -> Option<int> {
    if exists|i: int| is_first_field(fields, id, i) {
        Some(choose|i: int| is_first_field(fields, id, i))
    } else {
        None
    }
}

/// The first position is what `first_field` names.
pub proof fn lemma_first_field_at(fields: Seq<crate::object::Field>, id: Seq<u8>, i: int)
    requires
        is_first_field(fields, id, i),
    ensures
        first_field(fields, id) == Some(i),
{
    let c = choose|c: int| is_first_field(fields, id, c);
    if c < i {
        assert(fields[c].id@ != id);
    } else if c > i {
        assert(fields[i].id@ != id);
    }
}

/// What a field lookup returns is the first position.
pub proof fn lemma_first_field(fields: Seq<crate::object::Field>, id: Seq<u8>, r: Option<usize>)
    requires
        match r {
            Some(i) => is_first_field(fields, id, i as int),
            None => forall|k: int| 0 <= k < fields.len() ==> (#[trigger] fields[k]).id@ != id,
        },
    ensures
        match r {
            Some(i) => first_field(fields, id) == Some(i as int),
            None => first_field(fields, id) is None,
        },
{
    if let Some(i) = r {
        assert(is_first_field(fields, id, i as int));
        let c = choose|c: int| is_first_field(fields, id, c);
        if c < i {
            assert(fields[c].id@ != id);
        } else if c > i {
            assert(fields[i as int].id@ != id);
        }
    } else {
        if exists|i: int| is_first_field(fields, id, i) {
            let c = choose|c: int| is_first_field(fields, id, c);
            assert(fields[c].id@ != id);
        }
    }
}

/// Whether method `mi` of `class` has a usable `Code` attribute.
pub open spec fn has_code(class: Class, mi: int) -> bool {
    exists|i: int|
        #[trigger] class.methods@[mi].is_first_code_attr(class, i) && crate::class::code_payload_fits(
            class.methods@[mi].attribute_info@[i].info@,
        )
}

/// The payload of the first `Code` attribute of method `mi`.
pub open spec fn code_info(class: Class, mi: int) -> Seq<u8> {
    class.methods@[mi].attribute_info@[choose|i: int| class.methods@[mi].is_first_code_attr(class, i)].info@
}

/// There is one first `Code` attribute.
pub proof fn lemma_first_code_attr_unique(m: crate::class::MethodInfo, class: Class, i: int, j: int)
    requires
        m.is_first_code_attr(class, i),
        m.is_first_code_attr(class, j),
    ensures
        i == j,
{
    if i < j {
        assert(crate::class::MethodInfo::is_code_attr(class, m.attribute_info@[i]));
    } else if j < i {
        assert(crate::class::MethodInfo::is_code_attr(class, m.attribute_info@[j]));
    }
}

/// What `get_code_attribute` finds, in terms of `has_code` and `code_info`.
pub proof fn lemma_code_found(class: Class, mi: int, r: Option<Code>)
    requires
        0 <= mi < class.methods@.len(),
        match r {
            Some(c) => exists|i: int|
                #[trigger] class.methods@[mi].is_first_code_attr(class, i) && crate::class::code_payload_fits(
                    class.methods@[mi].attribute_info@[i].info@,
                ) && crate::class::code_of_payload(class.methods@[mi].attribute_info@[i].info@, c),
            None => forall|i: int| #[trigger]
                class.methods@[mi].is_first_code_attr(class, i) ==> !crate::class::code_payload_fits(
                    class.methods@[mi].attribute_info@[i].info@,
                ),
        },
    ensures
        r is Some <==> has_code(class, mi),
        r matches Some(c) ==> crate::class::code_of_payload(code_info(class, mi), c),
{
    let m = class.methods@[mi];
    if let Some(c) = r {
        let i = choose|i: int|
            #[trigger] m.is_first_code_attr(class, i) && crate::class::code_payload_fits(m.attribute_info@[i].info@)
                && crate::class::code_of_payload(m.attribute_info@[i].info@, c);
        let k = choose|k: int| m.is_first_code_attr(class, k);
        lemma_first_code_attr_unique(m, class, i, k);
    }
}

impl Runtime {
    /// The frame on top of the stack.
    pub open spec fn top(&self) -> FrameModel {
        self.frame_stack@.last()@
    }

    /// Whether the string pool holds `s`.
    pub open spec fn interned(&self, s: Seq<u8>) -> bool {
        exists|k: int| 0 <= k < self.stringpool@.len() && (#[trigger] self.stringpool@[k]).key@ == s
    }

    /// Every pool entry names a `java/lang/String` instance of the heap.
    pub open spec fn pool_refs_ok(pool: Seq<StringEntry>, heap: Heap) -> bool {
        forall|k: int|
            0 <= k < pool.len() ==> heap.valid_ref((#[trigger] pool[k]).objectref)
                && heap.objects@[pool[k].objectref as int].typename@ == string_class_name()
    }

    /// No literal is interned twice.
    pub open spec fn pool_keys_unique(pool: Seq<StringEntry>) -> bool {
        forall|j: int, k: int| 0 <= j < k < pool.len() ==> (#[trigger] pool[j]).key@ != (#[trigger] pool[k]).key@
    }

    pub open spec fn frames_wf(frames: Seq<Frame>) -> bool {
        forall|i: int| 0 <= i < frames.len() ==> (#[trigger] frames[i])@.wf()
    }

    /// The runtime's invariant: the heap keeps null at 0 and every reference in range;
    /// each frame's locals have their declared size and its stack stays within its
    /// bound; each interned string is a `java/lang/String` instance.
    pub open spec fn wf(&self) -> bool {
        &&& self.heap.wf()
        &&& self.classloader.wf()
        &&& Self::frames_wf(self.frame_stack@)
        &&& Self::pool_refs_ok(self.stringpool@, self.heap)
        &&& Self::pool_keys_unique(self.stringpool@)
    }

    pub fn new() -> (r: Runtime)
        ensures
            r.wf(),
            r.frame_stack@.len() == 0,
            r.stringpool@.len() == 0,
            r.classloader.loaded_classes@.len() == 0,
            r.heap.objects@.len() == 1,
            r.entry is None,
    {
        Runtime {
            heap: Heap::new(),
            classloader: Classloader::new(),
            frame_stack: Vec::new(),
            stringpool: Vec::new(),
            entry: None,
        }
    }

    /// The position of `s` in the string pool.
    pub fn find_interned(&self, s: &[u8]) -> (r: Option<usize>)
        ensures
            match r {
                Some(k) => k < self.stringpool@.len() && self.stringpool@[k as int].key@ == s@,
                None => !self.interned(s@),
            },
    {
        let mut k: usize = 0;
        while k < self.stringpool.len()
            invariant
                k <= self.stringpool@.len(),
                forall|j: int| 0 <= j < k ==> (#[trigger] self.stringpool@[j]).key@ != s@,
            decreases self.stringpool@.len() - k,
        {
            if crate::class::bytes_eq(self.stringpool[k].key.as_slice(), s) {
                return Some(k);
            }
            k += 1;
        }
        None
    }

    /// Push `frame` on top of the stack.
    pub(crate) fn push_frame(&mut self, frame: Frame)
        requires
            old(self).wf(),
            frame@.wf(),
        ensures
            final(self).wf(),
            final(self).frame_stack@ == old(self).frame_stack@.push(frame),
            final(self).heap == old(self).heap,
            final(self).classloader == old(self).classloader,
            final(self).stringpool == old(self).stringpool,
            final(self).entry == old(self).entry,
    {
        self.frame_stack.push(frame);
    }

    /// A fresh frame for a method's `Code`, at pc 0.
    pub(crate) fn frame_for(class_index: usize, method_index: usize, code: Code) -> (r: Frame)
        ensures
            r@.wf(),
            r@.pc == 0,
            r@.class_index == class_index,
            r@.method_index == method_index,
            r@.code == code.code@,
            r@.max_locals == code.max_locals,
            r@.max_stack == code.max_stack,
            r@.operands.len() == 0,
            r@.locals == Seq::new(code.max_locals as nat, |i: int| 0i32),
    {
        let location = Location::new(class_index, method_index, code.code);
        Frame::new(code.max_locals as usize, code.max_stack as usize, 0, location)
    }

    /// Push a frame for the class's `<clinit>:()V`, if it has one.
    pub fn add_static_code_frame(&mut self, class_index: usize) -> (r: Result<(), RuntimeError>)
        requires
            old(self).wf(),
        ensures
            final(self).wf(),
            final(self).heap == old(self).heap,
            final(self).classloader == old(self).classloader,
            final(self).stringpool == old(self).stringpool,
            final(self).entry == old(self).entry,
            final(self).frame_stack@.len() <= old(self).frame_stack@.len() + 1,
            final(self).frame_stack@.subrange(0, old(self).frame_stack@.len() as int)
                == old(self).frame_stack@,
            class_index >= old(self).classloader.loaded_classes@.len() ==> r == Err::<(), RuntimeError>(
                RuntimeError::LinkError,
            ),
            class_index < old(self).classloader.loaded_classes@.len() ==> {
                let cls = old(self).classloader.loaded_classes@[class_index as int].class;
                match cls.first_method("<clinit>".spec_bytes(), "()V".spec_bytes()) {
                    None => r is Ok && final(self).frame_stack == old(self).frame_stack,
                    Some(mi) => (r is Ok <==> has_code(cls, mi)) && (r is Err ==> r == Err::<(), RuntimeError>(
                        RuntimeError::LinkError,
                    )) && (r is Ok ==> final(self).frame_stack@.len() == old(self).frame_stack@.len() + 1
                        && final(self).top().class_index == class_index && final(self).top().method_index
                        == mi && final(self).top().pc == 0 && final(self).top().operands.len() == 0
                        && final(self).top().locals == Seq::new(final(self).top().max_locals, |i: int| 0i32)),
                }
            },
    {
        if class_index >= self.classloader.loaded_classes.len() {
            return Err(RuntimeError::LinkError);
        }
        let class = &self.classloader.loaded_classes[class_index].class;
        let mi = match class.find_method("<clinit>".as_bytes(), "()V".as_bytes()) {
            Some(mi) => mi,
            None => {
                assert(self.frame_stack@.subrange(0, self.frame_stack@.len() as int) =~= self.frame_stack@);
                return Ok(());
            },
        };
        let code = match class.methods[mi].get_code_attribute(class) {
            Some(c) => c,
            None => {
                assert(self.frame_stack@.subrange(0, self.frame_stack@.len() as int) =~= self.frame_stack@);
                return Err(RuntimeError::LinkError);
            },
        };
        let frame = Self::frame_for(class_index, mi, code);
        self.push_frame(frame);
        assert(self.frame_stack@.subrange(0, old(self).frame_stack@.len() as int) =~= old(self).frame_stack@);
        Ok(())
    }

    /// Whether every string literal (tag 8) of `class` whose text resolves is interned.
    pub open spec fn literals_interned(&self, class: Class, upto: int) -> bool {
        forall|i: int|
            0 <= i < upto && i < class.constant_pool@.len() && class.constant_pool@[i].tag == 8
                && (#[trigger] class.utf8_at(i)) is Some ==> self.interned(class.utf8_at(i)->0)
    }

    /// What interning keeps: the class registry and entry point, the frames already on
    /// the stack, the objects already on the heap, and the literals already interned.
    pub open spec fn extends(&self, old: &Runtime) -> bool {
        &&& self.classloader == old.classloader
        &&& self.entry == old.entry
        &&& self.frame_stack@.len() >= old.frame_stack@.len()
        &&& self.frame_stack@.subrange(0, old.frame_stack@.len() as int) == old.frame_stack@
        &&& self.heap.objects@.len() >= old.heap.objects@.len()
        &&& self.heap.objects@.subrange(0, old.heap.objects@.len() as int) == old.heap.objects@
        &&& self.stringpool@.len() >= old.stringpool@.len()
        &&& self.stringpool@.subrange(0, old.stringpool@.len() as int) == old.stringpool@
    }

    /// Whether `s` is the text of a string literal (tag 8) of `class`.
    pub open spec fn is_literal(class: Class, s: Seq<u8>) -> bool {
        exists|i: int|
            0 <= i < class.constant_pool@.len() && class.constant_pool@[i].tag == 8 && #[trigger] class.utf8_at(i)
                == Some(s)
    }

    /// When interning the literals of the class at `class_index` is owed to succeed:
    /// `java/lang/String` is registered under its own name, its fields resolve, its
    /// `<init>([C)V`, if any, has code with room for two locals, the heap has room for
    /// two objects per pool entry, and every literal fits a `[C` array.
    pub open spec fn feed_ready(rt: Runtime, class_index: int) -> bool {
        Self::feed_ready_parts(rt.classloader, rt.heap.objects@.len() as int, class_index)
    }

    /// `feed_ready` over the class registry and the heap's size.
    #[verifier::opaque]
    pub open spec fn feed_ready_parts(cl: Classloader, heap_len: int, class_index: int) -> bool {
        let sn = string_class_name();
        let strcls = cl.loaded_classes@[cl.index_of(sn)].class;
        let cls = cl.loaded_classes@[class_index].class;
        &&& 0 <= class_index < cl.loaded_classes@.len()
        &&& cl.has(sn)
        &&& strcls.utf8_at(strcls.this_class as int) == Some(sn)
        &&& crate::object::instance_field_ids(strcls, strcls.fields@.len() as int) is Some
        &&& strcls.first_method("<init>".spec_bytes(), "([C)V".spec_bytes()) matches Some(m) ==> has_code(strcls, m)
            && be_u16(code_info(strcls, m), 2) >= 2
        &&& heap_len + 2 * cls.constant_pool@.len() <= crate::heap::HEAP_LIMIT
        &&& forall|i: int| #[trigger] cls.utf8_at(i) matches Some(t) ==> t.len() <= 0x8000_0000
    }

    /// What interning the literals of `class` leaves, beyond `extends`: the pool gained
    /// exactly literals of `class` that were not interned before, each with a fresh
    /// instance, and (where `String` has `<init>([C)V`, method `ctor` of the class at
    /// `sci`) one constructor frame per new entry, in the same order.
    #[verifier::opaque]
    pub open spec fn fed(old: Runtime, new: Runtime, class: Class, sci: int, ctor: Option<int>) -> bool {
        let p0 = old.stringpool@.len();
        let f0 = old.frame_stack@.len();
        &&& forall|k: int|
            p0 <= k < new.stringpool@.len() ==> Self::is_literal(class, (#[trigger] new.stringpool@[k]).key@)
                && !old.interned(new.stringpool@[k].key@) && old.heap.objects@.len() <= new.stringpool@[k].objectref
        &&& forall|k1: int, k2: int|
            p0 <= k1 < k2 < new.stringpool@.len() ==> (#[trigger] new.stringpool@[k1]).objectref
                < (#[trigger] new.stringpool@[k2]).objectref
        &&& match ctor {
            None => new.frame_stack@ == old.frame_stack@,
            Some(m) => new.frame_stack@.len() == f0 + (new.stringpool@.len() - p0) && forall|k: int|
                p0 <= k < new.stringpool@.len() ==> Self::feed_frame(
                    new,
                    new.frame_stack@[f0 + k - p0]@,
                    sci,
                    m,
                    #[trigger] new.stringpool@[k],
                ),
        }
    }

    /// A constructor frame stays as it was while the heap only grows.
    proof fn lemma_feed_frame_kept(a: Runtime, b: Runtime, f: FrameModel, sci: int, ctor: int, e: StringEntry)
        requires
            Self::feed_frame(a, f, sci, ctor, e),
            b.extends(&a),
        ensures
            Self::feed_frame(b, f, sci, ctor, e),
    {
        let q = f.locals[1] as int;
        assert(b.heap.objects@[q] == b.heap.objects@.subrange(0, a.heap.objects@.len() as int)[q]);
    }

    /// Intern the string literals of the class at `class_index`: for each tag-8 constant
    /// whose text is not yet in the pool, allocate a `java/lang/String` instance, record
    /// it, allocate a `[C` array holding the text's bytes as chars, and push a frame for
    /// `java/lang/String.<init>([C)V` with the instance and the array in locals 0 and 1.
    pub fn add_string_pool_feed_frame(&mut self, class_index: usize) -> (r: Result<(), RuntimeError>)
        requires
            old(self).wf(),
        ensures
            final(self).wf(),
            final(self).extends(old(self)),
            Self::feed_ready(*old(self), class_index as int) ==> r is Ok,
            r is Ok ==> class_index < old(self).classloader.loaded_classes@.len() && final(self).literals_interned(
                old(self).classloader.loaded_classes@[class_index as int].class,
                old(self).classloader.loaded_classes@[class_index as int].class.constant_pool@.len() as int,
            ) && old(self).classloader.has(string_class_name()) && Self::fed(
                *old(self),
                *final(self),
                old(self).classloader.loaded_classes@[class_index as int].class,
                old(self).classloader.index_of(string_class_name()),
                old(self).loaded_class(string_class_name()).first_method("<init>".spec_bytes(), "([C)V".spec_bytes()),
            ),
    {
        proof {
            reveal(Runtime::fed);
            reveal(Runtime::feed_ready_parts);
            self.lemma_extends_refl();
        }
        if class_index >= self.classloader.loaded_classes.len() {
            return Err(RuntimeError::LinkError);
        }
        let sci = match self.classloader.find_loaded_class("java/lang/String".as_bytes()) {
            Some(i) => i,
            None => return Err(RuntimeError::LinkError),
        };
        if !self.classloader.loaded_classes[sci].class.utf8_matches(
            self.classloader.loaded_classes[sci].class.this_class as usize,
            "java/lang/String".as_bytes(),
        ) {
            return Err(RuntimeError::LinkError);
        }
        let ctor = self.classloader.loaded_classes[sci].class.find_method(
            "<init>".as_bytes(),
            "([C)V".as_bytes(),
        );
        let ghost gctor: Option<int> = match ctor {
            Some(m) => Some(m as int),
            None => None,
        };
        let n = self.classloader.loaded_classes[class_index].class.constant_pool.len();
        let ghost class = self.classloader.loaded_classes@[class_index as int].class;
        let ghost ready = Self::feed_ready(*old(self), class_index as int);
        let ghost p0 = old(self).stringpool@.len();
        let ghost f0 = old(self).frame_stack@.len();
        let ghost h0 = old(self).heap.objects@.len();
        proof {
            assert(Self::fed(*old(self), *self, class, sci as int, gctor)) by {
                assert(self.frame_stack@ == old(self).frame_stack@);
            }
        }
        let mut i: usize = 0;
        while i < n
            invariant
                self.wf(),
                self.extends(old(self)),
                class_index < self.classloader.loaded_classes@.len(),
                sci < self.classloader.loaded_classes@.len(),
                sci as int == old(self).classloader.index_of(string_class_name()),
                old(self).classloader.has(string_class_name()),
                self.classloader.loaded_classes@[sci as int].class.utf8_at(
                    self.classloader.loaded_classes@[sci as int].class.this_class as int,
                ) == Some(string_class_name()),
                ctor matches Some(m) ==> m < self.classloader.loaded_classes@[sci as int].class.methods@.len(),
                gctor == old(self).loaded_class(string_class_name()).first_method("<init>".spec_bytes(), "([C)V".spec_bytes()),
                gctor == (match ctor { Some(m) => Some(m as int), None => None::<int> }),
                class == self.classloader.loaded_classes@[class_index as int].class,
                class == old(self).classloader.loaded_classes@[class_index as int].class,
                n == class.constant_pool@.len(),
                i <= n,
                self.literals_interned(class, i as int),
                ready == Self::feed_ready(*old(self), class_index as int),
                p0 == old(self).stringpool@.len(),
                f0 == old(self).frame_stack@.len(),
                h0 == old(self).heap.objects@.len(),
                self.stringpool@.len() - p0 <= i,
                self.heap.objects@.len() <= h0 + 2 * (self.stringpool@.len() - p0),
                Self::fed(*old(self), *self, class, sci as int, gctor),
                forall|k: int| p0 <= k < self.stringpool@.len() ==> #[trigger] self.stringpool@[k].objectref < self.heap.objects@.len(),
            decreases n - i,
        {
            if self.classloader.loaded_classes[class_index].class.constant_pool[i].tag == 8 {
                let s = match self.classloader.loaded_classes[class_index].class.get_utf8(i) {
                    Some(b) => vstd::slice::slice_to_vec(b),
                    None => {
                        i += 1;
                        continue;
                    },
                };
                if self.find_interned(s.as_slice()).is_none() {
                    let ghost mid = *self;
                    proof {
                        reveal(Runtime::fed);
                        reveal(Runtime::feed_ready_parts);
                        if ready {
                            assert(class.utf8_at(i as int) matches Some(t) ==> t.len() <= 0x8000_0000);
                            assert(Self::intern_ok(mid, sci as int, ctor, s@));
                        }
                    }
                    let res = self.intern(sci, ctor, s);
                    proof {
                        reveal(Runtime::fed);
                        Self::lemma_extends_trans(old(self), &mid, self);
                        Self::lemma_interned_kept(&mid, self, class, i as int);
                        if res is Ok {
                            let pk = mid.stringpool@.len() as int;
                            assert(Self::is_literal(class, self.stringpool@[pk].key@));
                            assert(!old(self).interned(s@)) by {
                                if old(self).interned(s@) {
                                    let k = choose|k: int| 0 <= k < old(self).stringpool@.len() && (#[trigger] old(self).stringpool@[k]).key@ == s@;
                                    assert(mid.stringpool@[k] == mid.stringpool@.subrange(0, p0 as int)[k]);
                                }
                            }
                            assert forall|k: int| p0 <= k < self.stringpool@.len() implies #[trigger] self.stringpool@[k].objectref < self.heap.objects@.len() by {
                                if k < pk {
                                    assert(self.stringpool@[k] == self.stringpool@.subrange(0, pk)[k]);
                                }
                            }
                            assert forall|k: int|
                                p0 <= k < self.stringpool@.len() implies Self::is_literal(class, (#[trigger] self.stringpool@[k]).key@)
                                    && !old(self).interned(self.stringpool@[k].key@) && h0 <= self.stringpool@[k].objectref by {
                                if k < pk {
                                    assert(self.stringpool@[k] == self.stringpool@.subrange(0, pk)[k]);
                                }
                            }
                            assert forall|k1: int, k2: int|
                                p0 <= k1 < k2 < self.stringpool@.len() implies (#[trigger] self.stringpool@[k1]).objectref
                                    < (#[trigger] self.stringpool@[k2]).objectref by {
                                assert(self.stringpool@[k1] == self.stringpool@.subrange(0, pk)[k1]);
                                if k2 < pk {
                                    assert(self.stringpool@[k2] == self.stringpool@.subrange(0, pk)[k2]);
                                }
                            }
                            if let Some(m) = gctor {
                                assert forall|k: int| p0 <= k < self.stringpool@.len() implies Self::feed_frame(
                                    *self,
                                    self.frame_stack@[f0 + k - p0]@,
                                    sci as int,
                                    m,
                                    #[trigger] self.stringpool@[k],
                                ) by {
                                    if k < pk {
                                        assert(self.stringpool@[k] == self.stringpool@.subrange(0, pk)[k]);
                                        assert(self.frame_stack@[f0 + k - p0] == self.frame_stack@.subrange(0, mid.frame_stack@.len() as int)[f0 + k - p0]);
                                        Self::lemma_feed_frame_kept(mid, *self, mid.frame_stack@[f0 + k - p0]@, sci as int, m, mid.stringpool@[k]);
                                    }
                                }
                            }
                        }
                    }
                    if res.is_err() {
                        return res;
                    }
                }
            }
            i += 1;
        }
        Ok(())
    }

    pub proof fn lemma_extends_refl(&self)
        ensures
            self.extends(self),
    {
        assert(self.frame_stack@.subrange(0, self.frame_stack@.len() as int) =~= self.frame_stack@);
        assert(self.heap.objects@.subrange(0, self.heap.objects@.len() as int) =~= self.heap.objects@);
        assert(self.stringpool@.subrange(0, self.stringpool@.len() as int) =~= self.stringpool@);
    }

    pub proof fn lemma_extends_trans(a: &Runtime, b: &Runtime, c: &Runtime)
        requires
            b.extends(a),
            c.extends(b),
        ensures
            c.extends(a),
    {
        assert(c.frame_stack@.subrange(0, a.frame_stack@.len() as int) =~= c.frame_stack@.subrange(
            0,
            b.frame_stack@.len() as int,
        ).subrange(0, a.frame_stack@.len() as int));
        assert(c.heap.objects@.subrange(0, a.heap.objects@.len() as int) =~= c.heap.objects@.subrange(
            0,
            b.heap.objects@.len() as int,
        ).subrange(0, a.heap.objects@.len() as int));
        assert(c.stringpool@.subrange(0, a.stringpool@.len() as int) =~= c.stringpool@.subrange(
            0,
            b.stringpool@.len() as int,
        ).subrange(0, a.stringpool@.len() as int));
    }

    /// Interning more literals keeps those interned before.
    proof fn lemma_interned_kept(a: &Runtime, b: &Runtime, class: Class, upto: int)
        requires
            b.extends(a),
            a.literals_interned(class, upto),
        ensures
            b.literals_interned(class, upto),
    {
        assert forall|i: int|
            0 <= i < upto && i < class.constant_pool@.len() && class.constant_pool@[i].tag == 8
                && (#[trigger] class.utf8_at(i)) is Some implies b.interned(class.utf8_at(i)->0) by {
            let k = choose|k: int| 0 <= k < a.stringpool@.len() && (#[trigger] a.stringpool@[k]).key@ == class.utf8_at(i)->0;
            assert(b.stringpool@[k] == b.stringpool@.subrange(0, a.stringpool@.len() as int)[k]);
        }
    }

    /// A heap that keeps the typename of every object keeps the pool's references good.
    pub proof fn lemma_pool_refs(pool: Seq<StringEntry>, h0: Heap, h1: Heap)
        requires
            Self::pool_refs_ok(pool, h0),
            h1.objects@.len() >= h0.objects@.len(),
            forall|k: int| 0 <= k < h0.objects@.len() ==> (#[trigger] h1.objects@[k]).typename == h0.objects@[k].typename,
        ensures
            Self::pool_refs_ok(pool, h1),
    {
        assert forall|k: int| 0 <= k < pool.len() implies h1.valid_ref((#[trigger] pool[k]).objectref)
            && h1.objects@[pool[k].objectref as int].typename@ == string_class_name() by {
            assert(h1.objects@[pool[k].objectref as int].typename == h0.objects@[pool[k].objectref as int].typename);
        }
    }

    /// The cells of a `[C` array that holds `s`, one byte per char.
    pub open spec fn chars_of_bytes(s: Seq<u8>) -> Seq<i32> {
        s.map_values(|b: u8| b as i32)
    }

    /// `f` is the frame that runs `java/lang/String.<init>([C)V` (method `ctor` of the
    /// class at `sci`) on the instance of `e`, with a fresh `[C` array holding its text.
    pub open spec fn feed_frame(rt: Runtime, f: FrameModel, sci: int, ctor: int, e: StringEntry) -> bool {
        &&& f.class_index == sci
        &&& f.method_index == ctor
        &&& f.pc == 0
        &&& f.operands.len() == 0
        &&& f.locals.len() >= 2
        &&& f.locals[0] == e.objectref
        &&& f.locals[1] == e.objectref + 1
        &&& rt.heap.valid_ref(f.locals[1])
        &&& rt.heap.objects@[f.locals[1] as int].typename@ == "[C".spec_bytes()
        &&& rt.heap.objects@[f.locals[1] as int].is_array
        &&& rt.heap.objects@[f.locals[1] as int].array@ == Self::chars_of_bytes(e.key@)
    }

    /// When interning one literal with the string class at `sci` succeeds.
    pub open spec fn intern_ok(rt: Runtime, sci: int, ctor: Option<usize>, s: Seq<u8>) -> bool {
        let strcls = rt.classloader.loaded_classes@[sci].class;
        &&& crate::object::instance_field_ids(strcls, strcls.fields@.len() as int) is Some
        &&& rt.heap.objects@.len() + 2 <= crate::heap::HEAP_LIMIT
        &&& s.len() <= 0x8000_0000
        &&& ctor matches Some(m) ==> has_code(strcls, m as int) && be_u16(code_info(strcls, m as int), 2) >= 2
    }

    /// Intern `s`, which is not yet in the pool, with the string class at `sci` and its
    /// constructor `ctor`.
    fn intern(&mut self, sci: usize, ctor: Option<usize>, s: Vec<u8>) -> (r: Result<(), RuntimeError>)
        requires
            old(self).wf(),
            sci < old(self).classloader.loaded_classes@.len(),
            old(self).classloader.loaded_classes@[sci as int].class.utf8_at(
                old(self).classloader.loaded_classes@[sci as int].class.this_class as int,
            ) == Some(string_class_name()),
            ctor matches Some(m) ==> m < old(self).classloader.loaded_classes@[sci as int].class.methods@.len(),
            !old(self).interned(s@),
        ensures
            final(self).wf(),
            final(self).extends(old(self)),
            r is Ok <==> Self::intern_ok(*old(self), sci as int, ctor, s@),
            r is Ok ==> {
                let o = old(self).heap.objects@.len();
                let e = final(self).stringpool@.last();
                &&& final(self).interned(s@)
                &&& final(self).stringpool@.len() == old(self).stringpool@.len() + 1
                &&& e.key@ == s@
                &&& e.objectref == o
                &&& match ctor {
                    None => final(self).frame_stack@ == old(self).frame_stack@ && final(self).heap.objects@.len() == o + 1,
                    Some(m) => final(self).frame_stack@.len() == old(self).frame_stack@.len() + 1
                        && final(self).heap.objects@.len() == o + 2 && Self::feed_frame(
                        *final(self),
                        final(self).top(),
                        sci as int,
                        m as int,
                        e,
                    ),
                }
            },
    {
        proof {
            self.lemma_extends_refl();
        }
        let code = match ctor {
            Some(m) => {
                let c = self.classloader.loaded_classes[sci].class.methods[m].get_code_attribute(
                    &self.classloader.loaded_classes[sci].class,
                );
                proof {
                    lemma_code_found(self.classloader.loaded_classes@[sci as int].class, m as int, c);
                }
                match c {
                    Some(c) => {
                        if c.max_locals < 2 {
                            return Err(RuntimeError::StackFault);
                        }
                        Some(c)
                    },
                    None => return Err(RuntimeError::LinkError),
                }
            },
            None => None,
        };
        if s.len() > 0x8000_0000 {
            return Err(RuntimeError::IllegalOperand);
        }
        if self.heap.objects.len() > crate::heap::HEAP_LIMIT - 2 {
            return Err(RuntimeError::HeapExhausted);
        }
        let ghost h0 = self.heap;
        let objectref = self.heap.allocate_object(&self.classloader.loaded_classes[sci].class)?;
        proof {
            assert forall|k: int| 0 <= k < h0.objects@.len() implies (#[trigger] self.heap.objects@[k]).typename
                == h0.objects@[k].typename by {
                assert(self.heap.objects@[k] == self.heap.objects@.subrange(0, objectref as int)[k]);
            }
            Self::lemma_pool_refs(self.stringpool@, h0, self.heap);
        }
        self.stringpool.push(StringEntry { key: vstd::slice::slice_to_vec(s.as_slice()), objectref });
        proof {
            assert(self.stringpool@.subrange(0, old(self).stringpool@.len() as int) =~= old(self).stringpool@);
            assert(self.interned(s@)) by {
                assert(self.stringpool@[self.stringpool@.len() - 1].key@ == s@);
            }
            assert(self.heap.objects@[objectref as int].typename@ == string_class_name());
            assert(Self::pool_keys_unique(self.stringpool@)) by {
                assert forall|j: int, k: int| 0 <= j < k < self.stringpool@.len() implies (#[trigger] self.stringpool@[j]).key@
                    != (#[trigger] self.stringpool@[k]).key@ by {
                    if k == self.stringpool@.len() - 1 {
                        assert(old(self).stringpool@[j] == self.stringpool@[j]);
                    }
                }
            }
            assert(self.frame_stack@.subrange(0, old(self).frame_stack@.len() as int) =~= old(self).frame_stack@);
        }
        let (ctor_index, code) = match (ctor, code) {
            (Some(m), Some(c)) => (m, c),
            _ => return Ok(()),
        };
        let ghost h1 = self.heap;
        let arrayref = match self.heap.allocate_array(5, s.len()) {
            Ok(a) => a,
            Err(e) => return Err(e),
        };
        proof {
            assert forall|k: int| 0 <= k < h1.objects@.len() implies (#[trigger] self.heap.objects@[k]).typename
                == h1.objects@[k].typename by {
                assert(self.heap.objects@[k] == self.heap.objects@.subrange(0, arrayref as int)[k]);
            }
            Self::lemma_pool_refs(self.stringpool@, h1, self.heap);
            assert(self.heap.objects@.subrange(0, old(self).heap.objects@.len() as int) =~= old(self).heap.objects@) by {
                assert forall|k: int| 0 <= k < old(self).heap.objects@.len() implies self.heap.objects@[k]
                    == old(self).heap.objects@[k] by {
                    assert(old(self).heap.objects@[k] == h1.objects@.subrange(0, old(self).heap.objects@.len() as int)[k]);
                    assert(self.heap.objects@[k] == self.heap.objects@.subrange(0, h1.objects@.len() as int)[k]);
                }
            }
        }
        let ghost e = self.stringpool@.last();
        let mut j: usize = 0;
        while j < s.len()
            invariant
                self.wf(),
                self.extends(old(self)),
                self.interned(s@),
                self.frame_stack@ == old(self).frame_stack@,
                self.stringpool@.len() == old(self).stringpool@.len() + 1,
                self.stringpool@.last() == e,
                e.key@ == s@,
                e.objectref == objectref,
                objectref == old(self).heap.objects@.len(),
                arrayref == objectref + 1,
                self.heap.objects@.len() == arrayref + 1,
                s@.len() <= 0x8000_0000,
                j <= s@.len(),
                sci < self.classloader.loaded_classes@.len(),
                ctor_index < self.classloader.loaded_classes@[sci as int].class.methods@.len(),
                self.heap.objects@[arrayref as int].typename@ == "[C".spec_bytes(),
                self.heap.objects@[arrayref as int].is_array,
                self.heap.objects@[arrayref as int].array@.len() == s@.len(),
                forall|q: int| 0 <= q < j ==> #[trigger] self.heap.objects@[arrayref as int].array@[q] == s@[q] as i32,
            decreases s@.len() - j,
        {
            let ghost h3 = *self;
            let res = self.heap.set_array_cell(arrayref, j as i32, s[j] as i32);
            assert(res is Ok);
            proof {
                Self::lemma_pool_refs(self.stringpool@, h3.heap, self.heap);
                assert(self.heap.objects@.subrange(0, old(self).heap.objects@.len() as int) =~= old(self).heap.objects@) by {
                    assert forall|k: int| 0 <= k < old(self).heap.objects@.len() implies self.heap.objects@[k]
                        == old(self).heap.objects@[k] by {
                        assert(old(self).heap.objects@[k] == h3.heap.objects@.subrange(0, old(self).heap.objects@.len() as int)[k]);
                    }
                }
            }
            j += 1;
        }
        assert(self.heap.objects@[arrayref as int].array@ =~= Self::chars_of_bytes(s@));
        let mut frame = Self::frame_for(sci, ctor_index, code);
        frame.locals.set(0, objectref);
        frame.locals.set(1, arrayref);
        self.frame_stack.push(frame);
        proof {
            assert(self.frame_stack@.subrange(0, old(self).frame_stack@.len() as int) =~= old(self).frame_stack@);
        }
        Ok(())
    }


    /// `r` and `new` are what an instruction acting on the top frame alone, with effect
    /// `res` on it, leaves of `old`.
    pub open spec fn top_step(old: Runtime, new: Runtime, r: Result<(), RuntimeError>, res: Result<FrameModel, RuntimeError>) -> bool {
        &&& new.heap == old.heap
        &&& new.classloader == old.classloader
        &&& new.stringpool == old.stringpool
        &&& new.entry == old.entry
        &&& if old.frame_stack@.len() == 0 {
            r == Err::<(), RuntimeError>(RuntimeError::StackFault) && new.frame_stack == old.frame_stack
        } else {
            &&& new.frame_stack@.len() == old.frame_stack@.len()
            &&& forall|i: int|
                0 <= i < old.frame_stack@.len() - 1 ==> #[trigger] new.frame_stack@[i] == old.frame_stack@[i]
            &&& crate::frame::outcome(res, new.top(), r)
        }
    }

    /// Register the class read for `classname` and schedule its initialization: push
    /// its `<clinit>` frame, then the frames that intern its string literals, so that the
    /// literals are interned before `<clinit>` runs. A class already registered is left
    /// alone: nothing runs again and nothing is interned again.
    #[verifier::rlimit(100)]
    #[verifier::spinoff_prover]
    pub fn load_and_initialize(&mut self, classname: &[u8], bytes: &[u8]) -> (r: Result<bool, RuntimeError>)
        requires
            old(self).wf(),
        ensures
            final(self).wf(),
            old(self).classloader.has(classname@) ==> r == Ok::<bool, RuntimeError>(false) && *final(self)
                == *old(self),
            !old(self).classloader.has(classname@) ==> r != Ok::<bool, RuntimeError>(false),
            r == Ok::<bool, RuntimeError>(true) ==> final(self).classloader.has(classname@) && final(self).literals_interned(
                final(self).classloader.loaded_classes@[old(self).classloader.loaded_classes@.len() as int].class,
                final(self).classloader.loaded_classes@[old(self).classloader.loaded_classes@.len() as int].class.constant_pool@.len() as int,
            ),
            !old(self).classloader.has(classname@) && crate::decoder::well_formed(bytes@) ==> {
                let ci = old(self).classloader.loaded_classes@.len();
                let cls = final(self).classloader.loaded_classes@[ci as int].class;
                let clinit = cls.first_method("<clinit>".spec_bytes(), "()V".spec_bytes());
                &&& final(self).classloader.loaded_classes@.len() == ci + 1
                &&& final(self).classloader.loaded_classes@[ci as int].name@ == classname@
                &&& crate::decoder::decoded_from(bytes@, cls)
                &&& ((clinit matches Some(mi) ==> has_code(cls, mi)) && Self::feed_ready_parts(
                    final(self).classloader,
                    old(self).heap.objects@.len() as int,
                    ci as int,
                )) ==> r == Ok::<bool, RuntimeError>(true)
                &&& r == Ok::<bool, RuntimeError>(true) ==> (clinit matches Some(mi) ==> has_code(cls, mi))
            },
            !old(self).classloader.has(classname@) && !crate::decoder::well_formed(bytes@) ==> r
                == Err::<bool, RuntimeError>(RuntimeError::MalformedClassFile) && *final(self) == *old(self),
            r == Ok::<bool, RuntimeError>(true) ==> {
                let n = old(self).frame_stack@.len();
                let ci = old(self).classloader.loaded_classes@.len();
                let cls = final(self).classloader.loaded_classes@[ci as int].class;
                let clinit = cls.first_method("<clinit>".spec_bytes(), "()V".spec_bytes());
                let sn = string_class_name();
                &&& exists|mid: Runtime|
                    mid.stringpool == old(self).stringpool && mid.heap == old(self).heap
                        && mid.frame_stack@.subrange(0, n as int) == old(self).frame_stack@
                        && mid.frame_stack@.len() == n + (if clinit is Some { 1int } else { 0int })
                        && #[trigger] Self::fed(
                        mid,
                        *final(self),
                        cls,
                        final(self).classloader.index_of(sn),
                        final(self).classloader.loaded_classes@[final(self).classloader.index_of(sn)].class.first_method(
                            "<init>".spec_bytes(),
                            "([C)V".spec_bytes(),
                        ),
                    )
                &&& final(self).frame_stack@.len() >= n
                &&& final(self).frame_stack@.subrange(0, n as int) == old(self).frame_stack@
                &&& final(self).heap.objects@.subrange(0, old(self).heap.objects@.len() as int)
                    == old(self).heap.objects@
                &&& cls.first_method("<clinit>".spec_bytes(), "()V".spec_bytes()) matches Some(mi)
                    ==> final(self).frame_stack@.len() > n && final(self).frame_stack@[n as int]@.class_index
                    == ci && final(self).frame_stack@[n as int]@.method_index == mi
                    && final(self).frame_stack@[n as int]@.pc == 0
            },
    {
        let (ci, first) = self.classloader.load_class(classname, bytes)?;
        if !first {
            return Ok(false);
        }
        self.add_static_code_frame(ci)?;
        let ghost mid = *self;
        self.add_string_pool_feed_frame(ci)?;
        proof {
            assert(mid.frame_stack@.subrange(0, old(self).frame_stack@.len() as int) == old(self).frame_stack@);
            let n = old(self).frame_stack@.len() as int;
            if mid.frame_stack@.len() > n {
                assert(self.frame_stack@[n] == self.frame_stack@.subrange(0, mid.frame_stack@.len() as int)[n]);
            }
            assert(self.frame_stack@.subrange(0, n) =~= self.frame_stack@.subrange(
                0,
                mid.frame_stack@.len() as int,
            ).subrange(0, n));
        }
        assert(self.classloader.has(classname@)) by {
            assert(self.classloader.loaded_classes@[ci as int].name@ == classname@);
        }
        Ok(true)
    }

    /// Whether `class` has a static `main([Ljava/lang/String;)V`, the first method of that
    /// name and descriptor.
    pub open spec fn can_run(class: Class) -> bool {
        exists|i: int|
            0 <= i < class.methods@.len() && class.method_matches(i, "main".spec_bytes(), "([Ljava/lang/String;)V".spec_bytes())
                && (forall|j: int| 0 <= j < i ==> !#[trigger] class.method_matches(j, "main".spec_bytes(), "([Ljava/lang/String;)V".spec_bytes()))
                && class.methods@[i].access_flags & crate::class::ACC_STATIC == crate::class::ACC_STATIC
    }

    /// Look for the entry method `main([Ljava/lang/String;)V`, which must be static.
    pub fn check_if_can_run(&self, class: &Class) -> (r: Result<(), RuntimeError>)
        ensures
            r is Ok <==> Self::can_run(*class),
            r is Err ==> r == Err::<(), RuntimeError>(RuntimeError::NoSuchEntry),
    {
        match class.find_method("main".as_bytes(), "([Ljava/lang/String;)V".as_bytes()) {
            Some(i) => if class.methods[i].is_static() {
                Ok(())
            } else {
                Err(RuntimeError::NoSuchEntry)
            },
            None => Err(RuntimeError::NoSuchEntry),
        }
    }

    /// Name the class whose `main` runs once the bootstrap classes
    /// (`java/lang/String`, `java/lang/Integer`, `java/lang/Object`) are initialized.
    pub fn entrypoint(&mut self, classname: &str, class: Class)
        requires
            old(self).wf(),
        ensures
            final(self).wf(),
            final(self).entry matches Some(e) && e.name@ == classname.spec_bytes() && e.class == class,
            final(self).heap == old(self).heap,
            final(self).classloader == old(self).classloader,
            final(self).frame_stack == old(self).frame_stack,
            final(self).stringpool == old(self).stringpool,
    {
        self.entry = Some(EntryPoint { name: bytes_of(classname), class });
    }

    /// The UTF-16 code units of the `java/lang/String` instance at `objectref`: the first
    /// `count:I` cells of its `value:[C` array.
    pub open spec fn string_units(&self, objectref: i32) -> Result<Seq<u16>, RuntimeError> {
        if !self.heap.valid_ref(objectref) || self.heap.objects@[objectref as int].typename@
            != string_class_name() {
            Err(RuntimeError::IllegalOperand)
        } else {
            let o = self.heap.objects@[objectref as int];
            let ci = first_field(o.fields@, crate::object::field_id("count".spec_bytes(), "I".spec_bytes()));
            let vi = first_field(o.fields@, crate::object::field_id("value".spec_bytes(), "[C".spec_bytes()));
            if ci is None || vi is None {
                Err(RuntimeError::LinkError)
            } else {
                let count = o.fields@[ci->0].value;
                let arrayref = o.fields@[vi->0].value;
                if !self.heap.valid_ref(arrayref) || !self.heap.objects@[arrayref as int].is_array || count < 0
                    || count > self.heap.objects@[arrayref as int].array@.len() {
                    Err(RuntimeError::IllegalOperand)
                } else {
                    Ok(
                        self.heap.objects@[arrayref as int].array@.subrange(0, count as int).map_values(
                            |c: i32| c as u16,
                        ),
                    )
                }
            }
        }
    }

    /// Read out the text of a `java/lang/String` instance as UTF-16 code units.
    pub fn get_string_from_obj(&self, objectref: i32) -> (r: Result<Vec<u16>, RuntimeError>)
        ensures
            match r {
                Ok(v) => self.string_units(objectref) == Ok::<Seq<u16>, RuntimeError>(v@),
                Err(e) => self.string_units(objectref) == Err::<Seq<u16>, RuntimeError>(e),
            },
    {
        let object = match self.heap.get_object(objectref) {
            Some(o) => o,
            None => return Err(RuntimeError::IllegalOperand),
        };
        if !crate::class::bytes_eq(object.typename.as_slice(), "java/lang/String".as_bytes()) {
            return Err(RuntimeError::IllegalOperand);
        }
        let ci = object.find_field_by_name_and_descriptor("count".as_bytes(), "I".as_bytes());
        let vi = object.find_field_by_name_and_descriptor("value".as_bytes(), "[C".as_bytes());
        proof {
            lemma_first_field(object.fields@, crate::object::field_id("count".spec_bytes(), "I".spec_bytes()), ci);
            lemma_first_field(object.fields@, crate::object::field_id("value".spec_bytes(), "[C".spec_bytes()), vi);
        }
        let (ci, vi) = match (ci, vi) {
            (Some(c), Some(v)) => (c, v),
            _ => return Err(RuntimeError::LinkError),
        };
        let count = object.fields[ci].value;
        let arrayref = object.fields[vi].value;
        let array = match self.heap.get_object(arrayref) {
            Some(a) => a,
            None => return Err(RuntimeError::IllegalOperand),
        };
        if !array.is_array || count < 0 || count as usize > array.array.len() {
            return Err(RuntimeError::IllegalOperand);
        }
        let mut v: Vec<u16> = Vec::new();
        let mut k: usize = 0;
        while k < count as usize
            invariant
                0 <= count <= array.array@.len(),
                k <= count,
                v@ == array.array@.subrange(0, k as int).map_values(|c: i32| c as u16),
            decreases count - k,
        {
            v.push(array.array[k] as u16);
            k += 1;
            assert(v@ =~= array.array@.subrange(0, k as int).map_values(|c: i32| c as u16));
        }
        Ok(v)
    }
}

} // verus!
