//! The in-memory form of a decoded class file: constant pool, fields, methods, attributes.
use vstd::prelude::*;
use crate::utils::{be_u16, be_u32, slice_as_u16, slice_as_u32};
use vstd::string::StringSliceAdditionalSpecFns;

verus! {

/// The magic number that opens every class file.
pub const MAGIC: u32 = 0xCAFEBABE;

/// Access flag of a static field or method.
pub const ACC_STATIC: u16 = 0x0008;

/// Access flag of a native method.
pub const ACC_NATIVE: u16 = 0x0100;

/// One entry of the constant pool: a tag byte and its raw payload.
#[derive(Debug)]
pub struct Constant {
    pub tag: u8,
    pub bytes: Vec<u8>,
}

/// Whether `tag` is a constant tag that the decoder accepts.
pub open spec fn is_known_tag(tag: u8) -> bool {
    tag == 1 || (3 <= tag && tag <= 12)
}

impl Constant {
    pub fn new(tag: u8, bytes: &[u8]) -> (r: Constant)
        ensures
            r.tag == tag,
            r.bytes@ == bytes@,
    {
        let v = vstd::slice::slice_to_vec(bytes);
        Constant { tag, bytes: v }
    }

    /// The payload of a UTF-8 constant, as bytes.
    pub fn as_string(&self) -> (r: &[u8])
        ensures
            r@ == self.bytes@,
    {
        self.bytes.as_slice()
    }

    /// The payload read as a big-endian 32-bit integer.
    pub fn as_int(&self) -> (r: i32)
        requires
            self.bytes@.len() >= 4,
        ensures
            r == be_u32(self.bytes@, 0) as i32,
    {
        crate::utils::slice_as_i32(self.bytes.as_slice(), 0)
    }

    /// The payload of a long or double constant, as its high and low 32-bit halves.
    pub fn as_long(&self) -> (r: (i32, i32))
        requires
            self.bytes@.len() >= 8,
        ensures
            r.0 == be_u32(self.bytes@, 0) as i32,
            r.1 == be_u32(self.bytes@, 4) as i32,
    {
        let msb = crate::utils::slice_as_i32(self.bytes.as_slice(), 0);
        let lsb = crate::utils::slice_as_i32(self.bytes.as_slice(), 4);
        (msb, lsb)
    }

    /// The class index and name-and-type index of a field or method reference.
    pub fn field_or_method_to_name_and_type(&self) -> (r: Option<(usize, usize)>)
        ensures
            r is Some <==> (9 <= self.tag <= 11 && self.bytes@.len() >= 4),
            r is Some ==> r == Some((be_u16(self.bytes@, 0) as usize, be_u16(self.bytes@, 2) as usize)),
    {
        if 9 <= self.tag && self.tag <= 11 && self.bytes.len() >= 4 {
            let a = slice_as_u16(self.bytes.as_slice(), 0);
            let b = slice_as_u16(self.bytes.as_slice(), 2);
            Some((a as usize, b as usize))
        } else {
            None
        }
    }

    /// The name index and descriptor index of a name-and-type constant.
    pub fn name_and_type_to_name_and_descriptor(&self) -> (r: Option<(usize, usize)>)
        ensures
            r is Some <==> (self.tag == 12 && self.bytes@.len() >= 4),
            r is Some ==> r == Some((be_u16(self.bytes@, 0) as usize, be_u16(self.bytes@, 2) as usize)),
    {
        if self.tag == 12 && self.bytes.len() >= 4 {
            let a = slice_as_u16(self.bytes.as_slice(), 0);
            let b = slice_as_u16(self.bytes.as_slice(), 2);
            Some((a as usize, b as usize))
        } else {
            None
        }
    }
}

/// An attribute: a name index into the constant pool and an opaque payload.
#[derive(Debug)]
pub struct AttributeInfo {
    pub attribute_name_index: u16,
    pub attribute_length: u32,
    pub info: Vec<u8>,
}

/// Read access to the parts of a `Code` attribute.
pub trait CodeAttribute {
    fn max_stack(&self) -> u16;

    fn max_locals(&self) -> u16;

    fn code_length(&self) -> u32;

    fn code(&self) -> &[u8];
}

/// A decoded `Code` attribute.
#[derive(Debug)]
pub struct Code {
    pub max_stack: u16,
    pub max_locals: u16,
    pub code: Vec<u8>,
}

impl CodeAttribute for Code {
    fn max_stack(&self) -> u16 {
        self.max_stack
    }

    fn max_locals(&self) -> u16 {
        self.max_locals
    }

    fn code_length(&self) -> u32 {
        if self.code.len() <= 0xFFFF_FFFF {
            self.code.len() as u32
        } else {
            0xFFFF_FFFF
        }
    }

    fn code(&self) -> &[u8] {
        self.code.as_slice()
    }
}

/// Whether `info` is long enough to be a `Code` payload: max_stack(2), max_locals(2),
/// code_length(4) and that many bytes of code.
pub open spec fn code_payload_fits(info: Seq<u8>) -> bool {
    info.len() >= 8 && 8 + be_u32(info, 4) <= info.len()
}

/// The `Code` attribute that a payload holds.
pub open spec fn code_of_payload(info: Seq<u8>, c: Code) -> bool {
    &&& c.max_stack == be_u16(info, 0)
    &&& c.max_locals == be_u16(info, 2)
    &&& c.code@ == info.subrange(8, 8 + be_u32(info, 4))
}

/// A field declared by a class; `value` is the class-wide cell of a static field.
#[derive(Debug)]
pub struct FieldInfo {
    pub access_flags: u16,
    pub name_index: u16,
    pub descriptor_index: u16,
    pub attributes_count: u16,
    pub attribute_info: Vec<AttributeInfo>,
    pub value: i32,
}

impl FieldInfo {
    pub fn set_value(&mut self, value: i32)
        ensures
            *final(self) == (FieldInfo { value, ..*old(self) }),
    {
        self.value = value;
    }

    pub fn is_static(&self) -> (r: bool)
        ensures
            r == (self.access_flags & ACC_STATIC == ACC_STATIC),
    {
        self.access_flags & ACC_STATIC == ACC_STATIC
    }
}

/// A method declared by a class.
#[derive(Debug)]
pub struct MethodInfo {
    pub access_flags: u16,
    pub name_index: u16,
    pub descriptor_index: u16,
    pub attributes_count: u16,
    pub attribute_info: Vec<AttributeInfo>,
}

impl MethodInfo {
    pub fn is_native(&self) -> (r: bool)
        ensures
            r == (self.access_flags & ACC_NATIVE == ACC_NATIVE),
    {
        self.access_flags & ACC_NATIVE == ACC_NATIVE
    }

    pub fn is_static(&self) -> (r: bool)
        ensures
            r == (self.access_flags & ACC_STATIC == ACC_STATIC),
    {
        self.access_flags & ACC_STATIC == ACC_STATIC
    }

    /// Whether the attribute is named `Code` in `class`'s pool.
    pub open spec fn is_code_attr(class: Class, a: AttributeInfo) -> bool {
        class.utf8_at(a.attribute_name_index as int) == Some("Code".spec_bytes())
    }

    /// Whether attribute `i` is the first one named `Code`.
    pub open spec fn is_first_code_attr(self, class: Class, i: int) -> bool {
        &&& 0 <= i < self.attribute_info@.len()
        &&& Self::is_code_attr(class, self.attribute_info@[i])
        &&& forall|j: int| 0 <= j < i ==> !Self::is_code_attr(class, #[trigger] self.attribute_info@[j])
    }

    /// The first attribute named `Code`, decoded; `None` where there is none or where its
    /// payload is too short for what it declares.
    pub fn get_code_attribute(&self, class: &Class) -> (r: Option<Code>)
        ensures
            match r {
                Some(c) => exists|i: int|
                    #[trigger] self.is_first_code_attr(*class, i) && code_payload_fits(
                        self.attribute_info@[i].info@,
                    ) && code_of_payload(self.attribute_info@[i].info@, c),
                None => forall|i: int| #[trigger]
                    self.is_first_code_attr(*class, i) ==> !code_payload_fits(
                        self.attribute_info@[i].info@,
                    ),
            },
    {
        let code_name = "Code".as_bytes();
        let mut i: usize = 0;
        while i < self.attribute_info.len()
            invariant
                i <= self.attribute_info@.len(),
                code_name@ == "Code".spec_bytes(),
                forall|j: int| 0 <= j < i ==> !Self::is_code_attr(*class, #[trigger] self.attribute_info@[j]),
            decreases self.attribute_info@.len() - i,
        {
            let attr = &self.attribute_info[i];
            if class.utf8_matches(attr.attribute_name_index as usize, code_name) {
                let info = attr.info.as_slice();
                if info.len() < 8 {
                    proof {
                        assert forall|i2: int| #[trigger] self.is_first_code_attr(*class, i2) implies i2
                            == i by {
                            if i2 < i {
                            } else if i2 > i {
                                assert(Self::is_code_attr(*class, self.attribute_info@[i as int]));
                            }
                        }
                    }
                    return None;
                }
                let len = slice_as_u32(info, 4);
                if len as usize > info.len() - 8 {
                    proof {
                        assert forall|i2: int| #[trigger] self.is_first_code_attr(*class, i2) implies i2
                            == i by {
                            if i2 < i {
                            } else if i2 > i {
                                assert(Self::is_code_attr(*class, self.attribute_info@[i as int]));
                            }
                        }
                    }
                    return None;
                }
                let end: usize = 8 + len as usize;
                let mut code: Vec<u8> = Vec::new();
                let mut k: usize = 8;
                while k < end
                    invariant
                        end == 8 + len as usize,
                        8 <= k <= end <= info@.len(),
                        code@ == info@.subrange(8, k as int),
                    decreases end - k,
                {
                    code.push(info[k]);
                    k += 1;
                }
                let max_stack = slice_as_u16(info, 0);
                let max_locals = slice_as_u16(info, 2);
                let c = Code { max_stack, max_locals, code };
                assert(self.is_first_code_attr(*class, i as int));
                return Some(c);
            }
            i += 1;
        }
        None
    }
}

/// A parsed class file.
#[derive(Debug)]
pub struct Class {
    pub constant_pool_count: u16,
    pub constant_pool: Vec<Constant>,
    pub access_flags: u16,
    pub this_class: u16,
    pub super_class: u16,
    pub interface_count: u16,
    pub interfaces: Vec<u16>,
    pub fields: Vec<FieldInfo>,
    pub methods: Vec<MethodInfo>,
}

/// Whether `a` and `b` hold the same bytes.
pub fn bytes_eq(a: &[u8], b: &[u8]) -> (r: bool)
    ensures
        r == (a@ == b@),
{
    if a.len() != b.len() {
        return false;
    }
    let mut i: usize = 0;
    while i < a.len()
        invariant
            a@.len() == b@.len(),
            i <= a@.len(),
            forall|j: int| 0 <= j < i ==> a@[j] == b@[j],
        decreases a@.len() - i,
    {
        if a[i] != b[i] {
            return false;
        }
        i += 1;
    }
    proof {
        assert(a@ =~= b@);
    }
    true
}

impl Class {
    pub fn new() -> (r: Class)
        ensures
            r.constant_pool_count == 0,
            r.constant_pool@.len() == 0,
            r.fields@.len() == 0,
            r.methods@.len() == 0,
    {
        Class {
            constant_pool_count: 0,
            constant_pool: Vec::new(),
            access_flags: 0,
            this_class: 0,
            super_class: 0,
            interface_count: 0,
            interfaces: Vec::new(),
            fields: Vec::new(),
            methods: Vec::new(),
        }
    }

    /// The raw pool entry at `i`, where `i` is a usable index.
    pub open spec fn entry(self, i: int) -> Option<Constant> {
        if 1 <= i < self.constant_pool_count && i < self.constant_pool@.len() {
            Some(self.constant_pool@[i])
        } else {
            None
        }
    }

    /// The constant that `get_constant(i)` resolves to: a class or string reference
    /// stands for the UTF-8 entry it names; other known tags stand for themselves.
    pub open spec fn resolve(self, i: int) -> Option<Constant> {
        match self.entry(i) {
            Some(c) => if c.tag == 7 || c.tag == 8 {
                if c.bytes@.len() >= 2 {
                    match self.entry(be_u16(c.bytes@, 0) as int) {
                        Some(t) => if t.tag == 1 {
                            Some(t)
                        } else {
                            None
                        },
                        None => None,
                    }
                } else {
                    None
                }
            } else if is_known_tag(c.tag) {
                Some(c)
            } else {
                None
            },
            None => None,
        }
    }

    /// The UTF-8 bytes that index `i` resolves to, if it resolves to a UTF-8 entry.
    pub open spec fn utf8_at(self, i: int) -> Option<Seq<u8>> {
        match self.resolve(i) {
            Some(c) => if c.tag == 1 {
                Some(c.bytes@)
            } else {
                None
            },
            None => None,
        }
    }

    /// Resolve a constant of this class's pool.
    pub fn get_constant(&self, index: usize) -> (r: Option<&Constant>)
        ensures
            match r {
                Some(c) => self.resolve(index as int) == Some(*c),
                None => self.resolve(index as int) is None,
            },
    {
        if index < 1 || index >= self.constant_pool_count as usize || index >= self.constant_pool.len() {
            return None;
        }
        let constant = &self.constant_pool[index];
        if constant.tag == 7 || constant.tag == 8 {
            if constant.bytes.len() < 2 {
                return None;
            }
            let t = slice_as_u16(constant.bytes.as_slice(), 0) as usize;
            if t < 1 || t >= self.constant_pool_count as usize || t >= self.constant_pool.len() {
                return None;
            }
            let target = &self.constant_pool[t];
            if target.tag == 1 {
                Some(target)
            } else {
                None
            }
        } else if constant.tag == 1 || (3 <= constant.tag && constant.tag <= 12) {
            Some(constant)
        } else {
            None
        }
    }

    /// The UTF-8 bytes that index `i` resolves to.
    pub fn get_utf8(&self, index: usize) -> (r: Option<&[u8]>)
        ensures
            match r {
                Some(b) => self.utf8_at(index as int) == Some(b@),
                None => self.utf8_at(index as int) is None,
            },
    {
        match self.get_constant(index) {
            Some(c) => if c.tag == 1 {
                Some(c.as_string())
            } else {
                None
            },
            None => None,
        }
    }

    /// Whether index `i` resolves to UTF-8 bytes equal to `s`.
    pub fn utf8_matches(&self, index: usize, s: &[u8]) -> (r: bool)
        ensures
            r == (self.utf8_at(index as int) == Some(s@)),
    {
        match self.get_utf8(index) {
            Some(b) => bytes_eq(b, s),
            None => false,
        }
    }

    /// Whether a member with these name and descriptor indices is named `name` with
    /// descriptor `desc`.
    pub open spec fn member_matches(self, name_index: u16, descriptor_index: u16, name: Seq<u8>, desc: Seq<u8>) -> bool {
        self.utf8_at(name_index as int) == Some(name) && self.utf8_at(descriptor_index as int) == Some(desc)
    }

    pub open spec fn method_matches(self, i: int, name: Seq<u8>, desc: Seq<u8>) -> bool {
        self.member_matches(self.methods@[i].name_index, self.methods@[i].descriptor_index, name, desc)
    }

    pub open spec fn field_matches(self, i: int, name: Seq<u8>, desc: Seq<u8>) -> bool {
        self.member_matches(self.fields@[i].name_index, self.fields@[i].descriptor_index, name, desc)
    }

    pub open spec fn is_first_method(self, i: int, name: Seq<u8>, desc: Seq<u8>) -> bool {
        0 <= i < self.methods@.len() && self.method_matches(i, name, desc) && forall|j: int|
            0 <= j < i ==> !#[trigger] self.method_matches(j, name, desc)
    }

    /// The position of the first method named `name` with descriptor `desc`.
    pub open spec fn first_method(self, name: Seq<u8>, desc: Seq<u8>) -> Option<int> {
        if exists|i: int| self.is_first_method(i, name, desc) {
            Some(choose|i: int| self.is_first_method(i, name, desc))
        } else {
            None
        }
    }

    pub open spec fn is_first_field(self, i: int, name: Seq<u8>, desc: Seq<u8>) -> bool {
        0 <= i < self.fields@.len() && self.field_matches(i, name, desc) && forall|j: int|
            0 <= j < i ==> !#[trigger] self.field_matches(j, name, desc)
    }

    /// The position of the first field named `name` with descriptor `desc`.
    pub open spec fn first_field(self, name: Seq<u8>, desc: Seq<u8>) -> Option<int> {
        if exists|i: int| self.is_first_field(i, name, desc) {
            Some(choose|i: int| self.is_first_field(i, name, desc))
        } else {
            None
        }
    }

    /// The position of the first method named `name` with descriptor `desc`.
    pub fn find_method(&self, name: &[u8], desc: &[u8]) -> (r: Option<usize>)
        ensures
            match r {
                Some(i) => i < self.methods@.len() && self.method_matches(i as int, name@, desc@) && forall|j: int|
                    0 <= j < i ==> !#[trigger] self.method_matches(j, name@, desc@),
                None => forall|j: int|
                    0 <= j < self.methods@.len() ==> !#[trigger] self.method_matches(j, name@, desc@),
            },
            match r {
                Some(i) => self.first_method(name@, desc@) == Some(i as int),
                None => self.first_method(name@, desc@) is None,
            },
    {
        let mut i: usize = 0;
        while i < self.methods.len()
            invariant
                i <= self.methods@.len(),
                forall|j: int| 0 <= j < i ==> !#[trigger] self.method_matches(j, name@, desc@),
            decreases self.methods@.len() - i,
        {
            let m = &self.methods[i];
            if self.utf8_matches(m.name_index as usize, name) && self.utf8_matches(
                m.descriptor_index as usize,
                desc,
            ) {
                proof {
                    assert(self.is_first_method(i as int, name@, desc@));
                    let c = choose|c: int| self.is_first_method(c, name@, desc@);
                    if c < i {
                        assert(!self.method_matches(c, name@, desc@));
                    } else if c > i {
                        assert(!self.method_matches(i as int, name@, desc@));
                    }
                }
                return Some(i);
            }
            i += 1;
        }
        proof {
            if exists|c: int| self.is_first_method(c, name@, desc@) {
                let c = choose|c: int| self.is_first_method(c, name@, desc@);
                assert(!self.method_matches(c, name@, desc@));
            }
        }
        None
    }

    /// The position of the first field named `name` with descriptor `desc`.
    pub fn find_field(&self, name: &[u8], desc: &[u8]) -> (r: Option<usize>)
        ensures
            match r {
                Some(i) => i < self.fields@.len() && self.field_matches(i as int, name@, desc@) && forall|j: int|
                    0 <= j < i ==> !#[trigger] self.field_matches(j, name@, desc@),
                None => forall|j: int|
                    0 <= j < self.fields@.len() ==> !#[trigger] self.field_matches(j, name@, desc@),
            },
            match r {
                Some(i) => self.first_field(name@, desc@) == Some(i as int),
                None => self.first_field(name@, desc@) is None,
            },
    {
        let mut i: usize = 0;
        while i < self.fields.len()
            invariant
                i <= self.fields@.len(),
                forall|j: int| 0 <= j < i ==> !#[trigger] self.field_matches(j, name@, desc@),
            decreases self.fields@.len() - i,
        {
            let f = &self.fields[i];
            if self.utf8_matches(f.name_index as usize, name) && self.utf8_matches(
                f.descriptor_index as usize,
                desc,
            ) {
                proof {
                    assert(self.is_first_field(i as int, name@, desc@));
                    let c = choose|c: int| self.is_first_field(c, name@, desc@);
                    if c < i {
                        assert(!self.field_matches(c, name@, desc@));
                    } else if c > i {
                        assert(!self.field_matches(i as int, name@, desc@));
                    }
                }
                return Some(i);
            }
            i += 1;
        }
        proof {
            if exists|c: int| self.is_first_field(c, name@, desc@) {
                let c = choose|c: int| self.is_first_field(c, name@, desc@);
                assert(!self.field_matches(c, name@, desc@));
            }
        }
        None
    }

    /// The first method named `name` with descriptor `descriptor`.
    pub fn find_method_with_name_and_descriptor(&self, name: &str, descriptor: &str) -> (r: Option<&MethodInfo>)
        ensures
            match r {
                Some(m) => exists|i: int|
                    0 <= i < self.methods@.len() && self.methods@[i] == *m && self.method_matches(
                        i,
                        name.spec_bytes(),
                        descriptor.spec_bytes(),
                    ) && forall|j: int|
                        0 <= j < i ==> !#[trigger] self.method_matches(j, name.spec_bytes(), descriptor.spec_bytes()),
                None => forall|j: int|
                    0 <= j < self.methods@.len() ==> !#[trigger] self.method_matches(
                        j,
                        name.spec_bytes(),
                        descriptor.spec_bytes(),
                    ),
            },
    {
        match self.find_method(name.as_bytes(), descriptor.as_bytes()) {
            Some(i) => Some(&self.methods[i]),
            None => None,
        }
    }

    /// The first field named `name` with descriptor `descriptor`.
    pub fn find_field_with_name_and_descriptor(&self, name: &str, descriptor: &str) -> (r: Option<&FieldInfo>)
        ensures
            match r {
                Some(f) => exists|i: int|
                    0 <= i < self.fields@.len() && self.fields@[i] == *f && self.field_matches(
                        i,
                        name.spec_bytes(),
                        descriptor.spec_bytes(),
                    ) && forall|j: int|
                        0 <= j < i ==> !#[trigger] self.field_matches(j, name.spec_bytes(), descriptor.spec_bytes()),
                None => forall|j: int|
                    0 <= j < self.fields@.len() ==> !#[trigger] self.field_matches(
                        j,
                        name.spec_bytes(),
                        descriptor.spec_bytes(),
                    ),
            },
    {
        match self.find_field(name.as_bytes(), descriptor.as_bytes()) {
            Some(i) => Some(&self.fields[i]),
            None => None,
        }
    }

    /// The binary name of this class, as the pool gives it through `this_class`.
    pub fn name(&self) -> (r: Option<Vec<u8>>)
        ensures
            match r {
                Some(n) => self.utf8_at(self.this_class as int) == Some(n@),
                None => self.utf8_at(self.this_class as int) is None,
            },
    {
        match self.get_utf8(self.this_class as usize) {
            Some(b) => Some(vstd::slice::slice_to_vec(b)),
            None => None,
        }
    }
}

} // verus!
