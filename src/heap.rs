//! The heap: an append-only store of objects addressed by 32-bit references.
use vstd::prelude::*;
use vstd::string::StringSliceAdditionalSpecFns;
use crate::class::Class;
use crate::error::RuntimeError;
use crate::object::{Field,
    bytes_of, field_id, field_ids, instance_field_ids, is_null_object, make_null, Object,
};

verus! {

/// The largest number of objects the heap holds: one per non-negative `i32`.
pub const HEAP_LIMIT: usize = 0x8000_0000;

/// Objects addressed by index; index 0 holds the null object and nothing is reclaimed.
#[derive(Debug)]
pub struct Heap {
    pub objects: Vec<Object>,
}

/// The array typename that `newarray`'s type tag stands for.
pub open spec fn array_typename(atype: u8) -> Option<Seq<u8>> {
    if atype == 4 || atype == 6 {
        Some("[Z".spec_bytes())
    } else if atype == 5 {
        Some("[C".spec_bytes())
    } else if atype == 8 {
        Some("[B".spec_bytes())
    } else if atype == 9 {
        Some("[S".spec_bytes())
    } else if atype == 10 {
        Some("[I".spec_bytes())
    } else {
        None
    }
}

/// Whether `o` is a fresh instance of `class`, named `name`.
pub open spec fn fresh_instance(o: Object, class: Class, name: Seq<u8>) -> bool {
    &&& o.typename@ == name
    &&& !o.is_array
    &&& o.array@.len() == 0
    &&& instance_field_ids(class, class.fields@.len() as int) == Some(field_ids(o.fields@))
    &&& forall|k: int| 0 <= k < o.fields@.len() ==> (#[trigger] o.fields@[k]).value == 0
}

impl Heap {
    /// Slot 0 holds the null object; every reference fits in an `i32`.
    pub open spec fn wf(&self) -> bool {
        &&& 1 <= self.objects@.len() <= HEAP_LIMIT
        &&& is_null_object(self.objects@[0])
    }

    /// Whether `r` names an object of this heap.
    pub open spec fn valid_ref(&self, r: i32) -> bool {
        0 <= r < self.objects@.len()
    }

    pub fn new() -> (r: Heap)
        ensures
            r.wf(),
            r.objects@.len() == 1,
    {
        let mut objects: Vec<Object> = Vec::new();
        objects.push(make_null());
        Heap { objects }
    }

    /// Append a fresh instance of `class` and return its reference.
    pub fn allocate_object(&mut self, class: &Class) -> (r: Result<i32, RuntimeError>)
        requires
            old(self).wf(),
        ensures
            final(self).wf(),
            match r {
                Ok(objectref) => {
                    &&& objectref > 0
                    &&& objectref == old(self).objects@.len()
                    &&& final(self).objects@.len() == objectref + 1
                    &&& final(self).objects@.subrange(0, objectref as int) == old(self).objects@
                    &&& class.utf8_at(class.this_class as int) is Some
                    &&& fresh_instance(
                        final(self).objects@[objectref as int],
                        *class,
                        class.utf8_at(class.this_class as int)->0,
                    )
                },
                Err(e) => final(self).objects == old(self).objects && (e == RuntimeError::LinkError
                    <==> (class.utf8_at(class.this_class as int) is None || instance_field_ids(
                    *class,
                    class.fields@.len() as int,
                ) is None)) && (e == RuntimeError::HeapExhausted <==> (class.utf8_at(
                    class.this_class as int,
                ) is Some && instance_field_ids(*class, class.fields@.len() as int) is Some
                    && old(self).objects@.len() == HEAP_LIMIT)) && (e == RuntimeError::LinkError
                    || e == RuntimeError::HeapExhausted),
            },
    {
        let name = match class.name() {
            Some(n) => n,
            None => return Err(RuntimeError::LinkError),
        };
        let object = match Object::new(name, class) {
            Ok(o) => o,
            Err(e) => return Err(e),
        };
        if self.objects.len() >= HEAP_LIMIT {
            return Err(RuntimeError::HeapExhausted);
        }
        let objectref = self.objects.len();
        self.objects.push(object);
        assert(self.objects@.subrange(0, objectref as int) =~= old(self).objects@);
        Ok(objectref as i32)
    }

    /// Append an array of `count` zero cells whose type `atype` names.
    pub fn allocate_array(&mut self, atype: u8, count: usize) -> (r: Result<i32, RuntimeError>)
        requires
            old(self).wf(),
        ensures
            final(self).wf(),
            match r {
                Ok(arrayref) => {
                    &&& arrayref > 0
                    &&& arrayref == old(self).objects@.len()
                    &&& final(self).objects@.len() == arrayref + 1
                    &&& final(self).objects@.subrange(0, arrayref as int) == old(self).objects@
                    &&& array_typename(atype) is Some
                    &&& final(self).objects@[arrayref as int].typename@ == array_typename(atype)->0
                    &&& final(self).objects@[arrayref as int].is_array
                    &&& final(self).objects@[arrayref as int].fields@.len() == 0
                    &&& final(self).objects@[arrayref as int].array@ == Seq::new(
                        count as nat,
                        |i: int| 0i32,
                    )
                },
                Err(e) => final(self).objects == old(self).objects && if array_typename(atype) is None {
                    e == RuntimeError::IllegalOperand
                } else {
                    e == RuntimeError::HeapExhausted && old(self).objects@.len() == HEAP_LIMIT
                },
            },
    {
        let typename = if atype == 4 || atype == 6 {
            bytes_of("[Z")
        } else if atype == 5 {
            bytes_of("[C")
        } else if atype == 8 {
            bytes_of("[B")
        } else if atype == 9 {
            bytes_of("[S")
        } else if atype == 10 {
            bytes_of("[I")
        } else {
            return Err(RuntimeError::IllegalOperand);
        };
        if self.objects.len() >= HEAP_LIMIT {
            return Err(RuntimeError::HeapExhausted);
        }
        let arrayref = self.objects.len();
        self.objects.push(Object::new_array(typename, count));
        assert(self.objects@.subrange(0, arrayref as int) =~= old(self).objects@);
        Ok(arrayref as i32)
    }

    /// The object that `objectref` names, if any.
    pub fn get_object(&self, objectref: i32) -> (r: Option<&Object>)
        ensures
            match r {
                Some(o) => self.valid_ref(objectref) && *o == self.objects@[objectref as int],
                None => !self.valid_ref(objectref),
            },
    {
        if objectref < 0 || objectref as usize >= self.objects.len() {
            None
        } else {
            Some(&self.objects[objectref as usize])
        }
    }

    /// Store `value` in cell `index` of the array at `arrayref`.
    pub fn set_array_cell(&mut self, arrayref: i32, index: i32, value: i32) -> (r: Result<(), RuntimeError>)
        requires
            old(self).wf(),
        ensures
            final(self).wf(),
            r is Ok <==> (old(self).valid_ref(arrayref) && old(self).objects@[arrayref as int].is_array
                && 0 <= index < old(self).objects@[arrayref as int].array@.len()),
            r is Err ==> r == Err::<(), RuntimeError>(RuntimeError::IllegalOperand) && final(self).objects
                == old(self).objects,
            r is Ok ==> final(self).objects@.len() == old(self).objects@.len() && (forall|k: int|
                0 <= k < old(self).objects@.len() && k != arrayref ==> final(self).objects@[k]
                    == old(self).objects@[k]) && final(self).objects@[arrayref as int].array@ == old(
                self,
            ).objects@[arrayref as int].array@.update(index as int, value)
                && final(self).objects@[arrayref as int].typename == old(
                self,
            ).objects@[arrayref as int].typename && final(self).objects@[arrayref as int].fields
                == old(self).objects@[arrayref as int].fields && final(self).objects@[arrayref as int].is_array,
    {
        if arrayref < 0 || arrayref as usize >= self.objects.len() {
            return Err(RuntimeError::IllegalOperand);
        }
        let a = arrayref as usize;
        if !self.objects[a].is_array || index < 0 || index as usize >= self.objects[a].array.len() {
            return Err(RuntimeError::IllegalOperand);
        }
        assert(a != 0);
        self.objects[a].set_array_value(index as usize, value);
        Ok(())
    }

    /// Store `value` in the field `name:descriptor` of the instance at `objectref`.
    pub fn set_field(&mut self, objectref: i32, name: &[u8], descriptor: &[u8], value: i32) -> (r: Result<(), RuntimeError>)
        requires
            old(self).wf(),
        ensures
            final(self).wf(),
            r is Err ==> final(self).objects == old(self).objects,
            match r {
                Ok(_) => old(self).valid_ref(objectref) && exists|i: int|
                    crate::engine::is_first_field(
                        old(self).objects@[objectref as int].fields@,
                        field_id(name@, descriptor@),
                        i,
                    ) && final(self).objects@ == old(self).objects@.update(
                        objectref as int,
                        Object {
                            fields: final(self).objects@[objectref as int].fields,
                            ..old(self).objects@[objectref as int]
                        },
                    ) && final(self).objects@[objectref as int].fields@ == old(self).objects@[objectref as int].fields@.update(
                        i,
                        Field { value, ..old(self).objects@[objectref as int].fields@[i] },
                    ),
                Err(e) => if !old(self).valid_ref(objectref) {
                    e == RuntimeError::IllegalOperand
                } else {
                    e == RuntimeError::LinkError && forall|k: int|
                        0 <= k < old(self).objects@[objectref as int].fields@.len() ==> (#[trigger] old(
                            self,
                        ).objects@[objectref as int].fields@[k]).id@ != field_id(name@, descriptor@)
                },
            },
    {
        if objectref < 0 || objectref as usize >= self.objects.len() {
            return Err(RuntimeError::IllegalOperand);
        }
        let o = objectref as usize;
        match self.objects[o].find_field_by_name_and_descriptor(name, descriptor) {
            Some(i) => {
                assert(o != 0);
                assert(crate::engine::is_first_field(
                    old(self).objects@[o as int].fields@,
                    field_id(name@, descriptor@),
                    i as int,
                ));
                self.objects[o].fields[i].set_value(value);
                Ok(())
            },
            None => Err(RuntimeError::LinkError),
        }
    }
}

} // verus!
