//! Heap objects: class instances with named fields, and arrays of cells.
use vstd::prelude::*;
use vstd::string::StringSliceAdditionalSpecFns;
use crate::class::{Class, ACC_STATIC};
use crate::error::RuntimeError;

verus! {

/// A field of an instance: its `name:descriptor` id and its 32-bit value.
#[derive(Debug)]
pub struct Field {
    pub id: Vec<u8>,
    pub value: i32,
}

impl Field {
    pub fn set_value(&mut self, value: i32)
        ensures
            final(self).value == value,
            final(self).id == old(self).id,
    {
        self.value = value;
    }
}

/// An instance (typename and fields) or an array (typename and cells).
#[derive(Debug)]
pub struct Object {
    pub typename: Vec<u8>,
    pub fields: Vec<Field>,
    pub is_array: bool,
    pub array: Vec<i32>,
}

/// The byte `:` that joins a field's name and descriptor.
pub const COLON: u8 = 58;

/// The id of a field named `name` with descriptor `desc`.
pub open spec fn field_id(name: Seq<u8>, desc: Seq<u8>) -> Seq<u8> {
    name + seq![COLON] + desc
}

/// The id that the class gives its field `f`, if both indices resolve to UTF-8.
pub open spec fn class_field_id(class: Class, i: int) -> Option<Seq<u8>> {
    match (
        class.utf8_at(class.fields@[i].name_index as int),
        class.utf8_at(class.fields@[i].descriptor_index as int),
    ) {
        (Some(n), Some(d)) => Some(field_id(n, d)),
        _ => None,
    }
}

pub open spec fn is_static_flags(flags: u16) -> bool {
    flags & ACC_STATIC == ACC_STATIC
}

/// The ids of the instance (non-static) fields among the first `n` fields of `class`;
/// `None` if one of those fields has a name or descriptor that does not resolve.
pub open spec fn instance_field_ids(class: Class, n: int) -> Option<Seq<Seq<u8>>>
    decreases n,
{
    if n <= 0 {
        Some(Seq::empty())
    } else {
        match instance_field_ids(class, n - 1) {
            Some(ids) => match class_field_id(class, n - 1) {
                Some(id) => if is_static_flags(class.fields@[n - 1].access_flags) {
                    Some(ids)
                } else {
                    Some(ids.push(id))
                },
                None => None,
            },
            None => None,
        }
    }
}

pub open spec fn field_ids(fields: Seq<Field>) -> Seq<Seq<u8>> {
    fields.map_values(|f: Field| f.id@)
}

/// The bytes of `s`, in a vector of their own.
pub fn bytes_of(s: &str) -> (r: Vec<u8>)
    ensures
        r@ == s.spec_bytes(),
{
    vstd::slice::slice_to_vec(s.as_bytes())
}

/// `name`, a colon, then `desc`.
pub fn make_field_id(name: &[u8], desc: &[u8]) -> (r: Vec<u8>)
    ensures
        r@ == field_id(name@, desc@),
{
    let mut r = vstd::slice::slice_to_vec(name);
    r.push(COLON);
    let mut i: usize = 0;
    while i < desc.len()
        invariant
            i <= desc@.len(),
            r@ == name@ + seq![COLON] + desc@.subrange(0, i as int),
        decreases desc@.len() - i,
    {
        r.push(desc[i]);
        i += 1;
        assert(r@ =~= name@ + seq![COLON] + desc@.subrange(0, i as int));
    }
    assert(desc@.subrange(0, desc@.len() as int) =~= desc@);
    r
}

/// The null object stored at heap index 0.
pub open spec fn is_null_object(o: Object) -> bool {
    o.typename@ == "java/lang/Object".spec_bytes() && o.fields@.len() == 0 && !o.is_array
        && o.array@.len() == 0
}

pub fn make_null() -> (r: Object)
    ensures
        is_null_object(r),
{
    Object {
        is_array: false,
        array: Vec::new(),
        fields: Vec::new(),
        typename: bytes_of("java/lang/Object"),
    }
}

impl Object {
    /// An array of `count` zero cells.
    pub fn new_array(typename: Vec<u8>, count: usize) -> (r: Object)
        ensures
            r.typename == typename,
            r.is_array,
            r.fields@.len() == 0,
            r.array@ == Seq::new(count as nat, |i: int| 0i32),
    {
        let mut arr: Vec<i32> = Vec::new();
        let mut i: usize = 0;
        while i < count
            invariant
                i <= count,
                arr@ == Seq::new(i as nat, |j: int| 0i32),
            decreases count - i,
        {
            arr.push(0);
            i += 1;
            assert(arr@ =~= Seq::new(i as nat, |j: int| 0i32));
        }
        Object { typename, fields: Vec::new(), is_array: true, array: arr }
    }

    /// An instance of `class` whose non-static fields are all zero.
    pub fn new(typename: Vec<u8>, class: &Class) -> (r: Result<Object, RuntimeError>)
        ensures
            match r {
                Ok(o) => instance_field_ids(*class, class.fields@.len() as int) == Some(
                    field_ids(o.fields@),
                ) && o.typename == typename && !o.is_array && o.array@.len() == 0 && forall|k: int|
                    0 <= k < o.fields@.len() ==> (#[trigger] o.fields@[k]).value == 0,
                Err(e) => e == RuntimeError::LinkError && instance_field_ids(
                    *class,
                    class.fields@.len() as int,
                ) is None,
            },
    {
        let mut fields: Vec<Field> = Vec::new();
        let mut i: usize = 0;
        while i < class.fields.len()
            invariant
                i <= class.fields@.len(),
                instance_field_ids(*class, i as int) == Some(field_ids(fields@)),
                forall|k: int| 0 <= k < fields@.len() ==> (#[trigger] fields@[k]).value == 0,
            decreases class.fields@.len() - i,
        {
            let field = &class.fields[i];
            let name = class.get_utf8(field.name_index as usize);
            let desc = class.get_utf8(field.descriptor_index as usize);
            match (name, desc) {
                (Some(n), Some(d)) => {
                    if !field.is_static() {
                        let ghost prev = field_ids(fields@);
                        let id = make_field_id(n, d);
                        fields.push(Field { id, value: 0 });
                        assert(field_ids(fields@) =~= prev.push(field_id(n@, d@)));
                    }
                },
                _ => {
                    proof {
                        lemma_instance_ids_none_stays(*class, i as int + 1);
                    }
                    return Err(RuntimeError::LinkError);
                },
            }
            i += 1;
        }
        Ok(Object { typename, fields, is_array: false, array: Vec::new() })
    }

    /// The position of the field with id `name:descriptor`.
    pub fn find_field_by_name_and_descriptor(&self, name: &[u8], descriptor: &[u8]) -> (r: Option<usize>)
        ensures
            match r {
                Some(i) => i < self.fields@.len() && self.fields@[i as int].id@ == field_id(
                    name@,
                    descriptor@,
                ) && forall|k: int|
                    0 <= k < i ==> (#[trigger] self.fields@[k]).id@ != field_id(name@, descriptor@),
                None => forall|k: int|
                    0 <= k < self.fields@.len() ==> (#[trigger] self.fields@[k]).id@ != field_id(
                        name@,
                        descriptor@,
                    ),
            },
    {
        let id = make_field_id(name, descriptor);
        let mut i: usize = 0;
        while i < self.fields.len()
            invariant
                i <= self.fields@.len(),
                id@ == field_id(name@, descriptor@),
                forall|k: int| 0 <= k < i ==> (#[trigger] self.fields@[k]).id@ != id@,
            decreases self.fields@.len() - i,
        {
            if crate::class::bytes_eq(self.fields[i].id.as_slice(), id.as_slice()) {
                return Some(i);
            }
            i += 1;
        }
        None
    }

    pub fn set_array_value(&mut self, index: usize, value: i32)
        requires
            index < old(self).array@.len(),
        ensures
            final(self).array@ == old(self).array@.update(index as int, value),
            final(self).typename == old(self).typename,
            final(self).fields == old(self).fields,
            final(self).is_array == old(self).is_array,
    {
        self.array.set(index, value);
    }

    pub fn get_array_value(&self, index: usize) -> (r: i32)
        requires
            index < self.array@.len(),
        ensures
            r == self.array@[index as int],
    {
        self.array[index]
    }

    pub fn get_array_length(&self) -> (r: usize)
        ensures
            r == self.array@.len(),
    {
        self.array.len()
    }
}

/// Once a field fails to resolve, the ids of every longer prefix fail too.
proof fn lemma_instance_ids_none_stays(class: Class, n: int)
    requires
        0 <= n <= class.fields@.len(),
        instance_field_ids(class, n) is None,
    ensures
        instance_field_ids(class, class.fields@.len() as int) is None,
    decreases class.fields@.len() - n,
{
    if n < class.fields@.len() {
        lemma_instance_ids_none_stays(class, n + 1);
    }
}

} // verus!
