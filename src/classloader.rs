//! The class loader's registry: each binary name maps to one decoded class.
use vstd::prelude::*;
use crate::class::Class;
use crate::decoder::parse_class_file;
use crate::error::RuntimeError;

verus! {

/// A registered class and the binary name it was loaded under.
#[derive(Debug)]
pub struct LoadedClass {
    pub name: Vec<u8>,
    pub class: Class,
}

/// The classes loaded so far, each under its binary name.
#[derive(Debug)]
pub struct Classloader {
    pub loaded_classes: Vec<LoadedClass>,
}

impl Classloader {
    /// Whether `name` is registered.
    pub open spec fn has(&self, name: Seq<u8>) -> bool {
        exists|i: int| 0 <= i < self.loaded_classes@.len() && (#[trigger] self.loaded_classes@[i]).name@ == name
    }

    /// No binary name is registered twice.
    pub open spec fn wf(&self) -> bool {
        forall|i: int, j: int|
            0 <= i < j < self.loaded_classes@.len() ==> (#[trigger] self.loaded_classes@[i]).name@
                != (#[trigger] self.loaded_classes@[j]).name@
    }

    /// The position of the class registered under `name`.
    pub open spec fn index_of(&self, name: Seq<u8>) -> int {
        choose|i: int| 0 <= i < self.loaded_classes@.len() && (#[trigger] self.loaded_classes@[i]).name@ == name
    }

    /// In a registry without repeated names, the class registered under a name is the
    /// one `index_of` gives.
    pub proof fn lemma_index_of(&self, i: int)
        requires
            self.wf(),
            0 <= i < self.loaded_classes@.len(),
        ensures
            self.index_of(self.loaded_classes@[i].name@) == i,
    {
        let name = self.loaded_classes@[i].name@;
        let c = self.index_of(name);
        assert(0 <= c < self.loaded_classes@.len() && self.loaded_classes@[c].name@ == name);
        if c < i {
            assert(self.loaded_classes@[c].name@ != self.loaded_classes@[i].name@);
        } else if c > i {
            assert(self.loaded_classes@[i].name@ != self.loaded_classes@[c].name@);
        }
    }

    pub fn new() -> (r: Classloader)
        ensures
            r.wf(),
            r.loaded_classes@.len() == 0,
    {
        Classloader { loaded_classes: Vec::new() }
    }

    /// The position of the class registered under `classname`.
    pub fn find_loaded_class(&self, classname: &[u8]) -> (r: Option<usize>)
        ensures
            match r {
                Some(i) => i < self.loaded_classes@.len() && self.loaded_classes@[i as int].name@
                    == classname@ && (self.wf() ==> self.index_of(classname@) == i),
                None => !self.has(classname@),
            },
    {
        let mut i: usize = 0;
        while i < self.loaded_classes.len()
            invariant
                i <= self.loaded_classes@.len(),
                forall|j: int| 0 <= j < i ==> (#[trigger] self.loaded_classes@[j]).name@ != classname@,
            decreases self.loaded_classes@.len() - i,
        {
            if crate::class::bytes_eq(self.loaded_classes[i].name.as_slice(), classname) {
                proof {
                    if self.wf() {
                        let c = self.index_of(classname@);
                        assert(0 <= c < self.loaded_classes@.len() && self.loaded_classes@[c].name@ == classname@);
                        if c < i {
                            assert(self.loaded_classes@[c].name@ != self.loaded_classes@[i as int].name@);
                        } else if c > i {
                            assert(self.loaded_classes@[i as int].name@ != self.loaded_classes@[c].name@);
                        }
                    }
                }
                return Some(i);
            }
            i += 1;
        }
        None
    }

    /// Register `class` under `classname`, replacing any class registered under it.
    pub fn set_class_as_loaded(&mut self, classname: &[u8], class: Class) -> (r: usize)
        requires
            old(self).wf(),
        ensures
            final(self).wf(),
            r < final(self).loaded_classes@.len(),
            final(self).loaded_classes@[r as int].name@ == classname@,
            final(self).loaded_classes@[r as int].class == class,
            final(self).index_of(classname@) == r,
            old(self).has(classname@) ==> final(self).loaded_classes@.len() == old(self).loaded_classes@.len(),
            !old(self).has(classname@) ==> final(self).loaded_classes@ == old(self).loaded_classes@.push(
                final(self).loaded_classes@[r as int],
            ),
            forall|i: int|
                0 <= i < old(self).loaded_classes@.len() && i != r ==> final(self).loaded_classes@[i]
                    == old(self).loaded_classes@[i],
    {
        match self.find_loaded_class(classname) {
            Some(i) => {
                self.loaded_classes[i].class = class;
                proof {
                    self.lemma_index_of(i as int);
                }
                i
            },
            None => {
                let name = vstd::slice::slice_to_vec(classname);
                self.loaded_classes.push(LoadedClass { name, class });
                let r = self.loaded_classes.len() - 1;
                proof {
                    assert(self.wf());
                    self.lemma_index_of(r as int);
                }
                r
            },
        }
    }

    /// The class registered under `classname`; where there is none, decode `bytes` (the
    /// class file read from the classpath) and register the result. The flag says whether
    /// the class was registered by this call.
    pub fn load_class(&mut self, classname: &[u8], bytes: &[u8]) -> (r: Result<(usize, bool), RuntimeError>)
        requires
            old(self).wf(),
        ensures
            final(self).wf(),
            match r {
                Ok((i, first)) => {
                    &&& i < final(self).loaded_classes@.len()
                    &&& final(self).loaded_classes@[i as int].name@ == classname@
                    &&& first == !old(self).has(classname@)
                    &&& first ==> final(self).loaded_classes@.len() == old(self).loaded_classes@.len() + 1
                        && final(self).loaded_classes@.subrange(0, i as int) == old(self).loaded_classes@
                        && i == old(self).loaded_classes@.len()
                    &&& !first ==> final(self).loaded_classes == old(self).loaded_classes
                },
                Err(e) => e == RuntimeError::MalformedClassFile && !old(self).has(classname@)
                    && final(self).loaded_classes == old(self).loaded_classes,
            },
            !old(self).has(classname@) ==> (r is Ok <==> crate::decoder::well_formed(bytes@)),
            r matches Ok((i, true)) ==> crate::decoder::decoded_from(bytes@, final(self).loaded_classes@[i as int].class),
    {
        match self.find_loaded_class(classname) {
            Some(i) => Ok((i, false)),
            None => {
                let class = parse_class_file(bytes)?;
                let name = vstd::slice::slice_to_vec(classname);
                self.loaded_classes.push(LoadedClass { name, class });
                assert(self.loaded_classes@.subrange(0, old(self).loaded_classes@.len() as int)
                    =~= old(self).loaded_classes@);
                Ok((self.loaded_classes.len() - 1, true))
            },
        }
    }
}

} // verus!
