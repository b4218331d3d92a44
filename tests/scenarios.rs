use minijvm::engine::{Runtime, Step};
use minijvm::error::RuntimeError;

/// Assembles small class files.
struct ClassFile {
    pool: Vec<Vec<u8>>,
    count: u16,
    this_class: u16,
    fields: Vec<(u16, u16, u16)>,
    methods: Vec<(u16, u16, u16, Option<(u16, u16, Vec<u8>)>)>,
    code_name: u16,
}

impl ClassFile {
    fn new(name: &str) -> ClassFile {
        let mut c = ClassFile {
            pool: Vec::new(),
            count: 1,
            this_class: 0,
            fields: Vec::new(),
            methods: Vec::new(),
            code_name: 0,
        };
        c.this_class = c.class(name);
        c.code_name = c.utf8("Code");
        c
    }

    fn add(&mut self, entry: Vec<u8>) -> u16 {
        self.pool.push(entry);
        let i = self.count;
        self.count += 1;
        i
    }

    fn utf8(&mut self, s: &str) -> u16 {
        let mut e = vec![1];
        e.extend_from_slice(&(s.len() as u16).to_be_bytes());
        e.extend_from_slice(s.as_bytes());
        self.add(e)
    }

    fn class(&mut self, name: &str) -> u16 {
        let n = self.utf8(name);
        let mut e = vec![7];
        e.extend_from_slice(&n.to_be_bytes());
        self.add(e)
    }

    fn string(&mut self, s: &str) -> u16 {
        let n = self.utf8(s);
        let mut e = vec![8];
        e.extend_from_slice(&n.to_be_bytes());
        self.add(e)
    }

    fn member(&mut self, tag: u8, class: &str, name: &str, desc: &str) -> u16 {
        let c = self.class(class);
        let n = self.utf8(name);
        let d = self.utf8(desc);
        let mut nt = vec![12];
        nt.extend_from_slice(&n.to_be_bytes());
        nt.extend_from_slice(&d.to_be_bytes());
        let nt = self.add(nt);
        let mut e = vec![tag];
        e.extend_from_slice(&c.to_be_bytes());
        e.extend_from_slice(&nt.to_be_bytes());
        self.add(e)
    }

    fn field(&mut self, flags: u16, name: &str, desc: &str) {
        let n = self.utf8(name);
        let d = self.utf8(desc);
        self.fields.push((flags, n, d));
    }

    fn method(&mut self, flags: u16, name: &str, desc: &str, code: Option<(u16, u16, Vec<u8>)>) {
        let n = self.utf8(name);
        let d = self.utf8(desc);
        self.methods.push((flags, n, d, code));
    }

    fn bytes(&self) -> Vec<u8> {
        let mut b = vec![0xCA, 0xFE, 0xBA, 0xBE, 0, 0, 0, 51];
        b.extend_from_slice(&self.count.to_be_bytes());
        for e in &self.pool {
            b.extend_from_slice(e);
        }
        b.extend_from_slice(&[0, 0x21]);
        b.extend_from_slice(&self.this_class.to_be_bytes());
        b.extend_from_slice(&[0, 0, 0, 0]);
        b.extend_from_slice(&(self.fields.len() as u16).to_be_bytes());
        for (f, n, d) in &self.fields {
            for v in [*f, *n, *d, 0] {
                b.extend_from_slice(&v.to_be_bytes());
            }
        }
        b.extend_from_slice(&(self.methods.len() as u16).to_be_bytes());
        for (f, n, d, code) in &self.methods {
            for v in [*f, *n, *d] {
                b.extend_from_slice(&v.to_be_bytes());
            }
            match code {
                Some((max_stack, max_locals, code)) => {
                    b.extend_from_slice(&1u16.to_be_bytes());
                    b.extend_from_slice(&self.code_name.to_be_bytes());
                    b.extend_from_slice(&(12 + code.len() as u32).to_be_bytes());
                    b.extend_from_slice(&max_stack.to_be_bytes());
                    b.extend_from_slice(&max_locals.to_be_bytes());
                    b.extend_from_slice(&(code.len() as u32).to_be_bytes());
                    b.extend_from_slice(code);
                    b.extend_from_slice(&[0, 0, 0, 0]);
                }
                None => b.extend_from_slice(&0u16.to_be_bytes()),
            }
        }
        b.extend_from_slice(&[0, 0]);
        b
    }
}

const STATIC: u16 = 0x0009;

fn string_class() -> Vec<u8> {
    let mut c = ClassFile::new("java/lang/String");
    c.field(0x0002, "value", "[C");
    c.field(0x0002, "count", "I");
    let value = c.member(9, "java/lang/String", "value", "[C");
    let count = c.member(9, "java/lang/String", "count", "I");
    let [v1, v2] = value.to_be_bytes();
    let [c1, c2] = count.to_be_bytes();
    let code = vec![0x2a, 0x2b, 0xb5, v1, v2, 0x2a, 0x2b, 0xbe, 0xb5, c1, c2, 0xb1];
    c.method(0x0001, "<init>", "([C)V", Some((3, 2, code)));
    // static String valueOf(int x): the decimal digits of a non-negative x, built by
    // division by 10.
    let string = c.class("java/lang/String");
    let init = c.member(10, "java/lang/String", "<init>", "([C)V");
    let value_of = vec![
        0x1a, 0x3c, 0x03, 0x3d, // n = x; len = 0
        0x84, 2, 1, 0x1b, 0x10, 10, 0x6c, 0x3c, 0x1b, 0x9a, 0xff, 0xf7, // do { len++; n /= 10 } while (n != 0)
        0x1c, 0xbc, 5, 0x4e, 0x1c, 0x36, 4, 0x1a, 0x3c, // arr = new char[len]; i = len; n = x
        0x84, 4, 0xff, 0x2d, 0x15, 4, 0x10, 48, 0x1b, 0x10, 10, 0x70, 0x60, 0x55, // arr[--i] = '0' + n % 10
        0x1b, 0x10, 10, 0x6c, 0x3c, 0x1b, 0x9a, 0xff, 0xec, // n /= 10; while (n != 0)
        0xbb, string.to_be_bytes()[0], string.to_be_bytes()[1], 0x59, 0x2d, // new String, dup, arr
        0xb7, init.to_be_bytes()[0], init.to_be_bytes()[1], 0xb0, // <init>, areturn
    ];
    c.method(STATIC, "valueOf", "(I)Ljava/lang/String;", Some((5, 5, value_of)));
    c.bytes()
}

fn system_class() -> Vec<u8> {
    let mut c = ClassFile::new("java/lang/System");
    c.field(STATIC, "out", "Ljava/io/PrintStream;");
    c.bytes()
}

fn empty_class(name: &str) -> Vec<u8> {
    ClassFile::new(name).bytes()
}

fn print_stream_class() -> Vec<u8> {
    let mut c = ClassFile::new("java/io/PrintStream");
    c.method(0x0101, "write", "(Ljava/lang/String;)V", None);
    c.bytes()
}

fn library() -> Vec<(String, Vec<u8>)> {
    vec![
        ("java/lang/String".to_string(), string_class()),
        ("java/lang/Integer".to_string(), empty_class("java/lang/Integer")),
        ("java/lang/Object".to_string(), empty_class("java/lang/Object")),
        ("java/io/PrintStream".to_string(), print_stream_class()),
        ("java/lang/System".to_string(), system_class()),
    ]
}

/// Runs the runtime to the end, serving classes from `classes`; returns what was printed.
fn run(rt: &mut Runtime, classes: &[(String, Vec<u8>)]) -> Result<String, RuntimeError> {
    let mut out: Vec<u16> = Vec::new();
    for _ in 0..100_000 {
        match rt.step()? {
            Step::Ran => {}
            Step::NeedClass(name) => {
                let name = String::from_utf8(name).unwrap();
                let bytes = &classes.iter().find(|(n, _)| *n == name).expect("class not served").1;
                rt.load_and_initialize(name.as_bytes(), bytes)?;
            }
            Step::Print(units) => out.extend(units),
            Step::Halted => return Ok(String::from_utf16(&out).unwrap()),
        }
    }
    panic!("did not halt");
}

fn static_value(rt: &Runtime, class: &str, field: &str, desc: &str) -> i32 {
    let i = rt.classloader.find_loaded_class(class.as_bytes()).unwrap();
    let class = &rt.classloader.loaded_classes[i].class;
    class.find_field_with_name_and_descriptor(field, desc).unwrap().value
}

/// A main class `Example` with a static int field `result`; `build` adds the rest and
/// returns main's code.
fn example(build: impl FnOnce(&mut ClassFile) -> Vec<u8>) -> minijvm::class::Class {
    let mut c = ClassFile::new("Example");
    c.field(STATIC, "result", "I");
    let code = build(&mut c);
    c.method(STATIC, "main", "([Ljava/lang/String;)V", Some((6, 4, code)));
    minijvm::decoder::parse_class_file(&c.bytes()).unwrap()
}

fn run_example(class: minijvm::class::Class, extra: Vec<(String, Vec<u8>)>) -> (Runtime, Result<String, RuntimeError>) {
    let mut rt = Runtime::new();
    assert_eq!(rt.check_if_can_run(&class), Ok(()));
    rt.entrypoint("Example", class);
    let mut classes = library();
    classes.extend(extra);
    let r = run(&mut rt, &classes);
    (rt, r)
}

fn hi(x: u16) -> u8 {
    x.to_be_bytes()[0]
}

fn lo(x: u16) -> u8 {
    x.to_be_bytes()[1]
}

#[test]
fn arithmetic_scenario_yields_43() {
    let class = example(|c| {
        c.method(STATIC, "compute", "()I", Some((2, 0, vec![0x10, 7, 0x10, 6, 0x68, 0x04, 0x60, 0xac])));
        let compute = c.member(10, "Example", "compute", "()I");
        let result = c.member(9, "Example", "result", "I");
        vec![0xb8, hi(compute), lo(compute), 0xb3, hi(result), lo(result), 0xb1]
    });
    let (rt, r) = run_example(class, vec![]);
    assert_eq!(r, Ok(String::new()));
    assert_eq!(static_value(&rt, "Example", "result", "I"), 43);
}

#[test]
fn loop_scenario_visits_0_1_2() {
    let class = example(|c| {
        let result = c.member(9, "Example", "result", "I");
        let (r1, r2) = (hi(result), lo(result));
        // i = 0; do { result = result * 10 + i + 1; i++ } while (i < 3)
        vec![
            0x03, 0x3b, // iconst_0, istore_0
            0xb2, r1, r2, 0x10, 10, 0x68, 0x1a, 0x60, 0x04, 0x60, 0xb3, r1, r2, // body
            0x84, 0, 1, // iinc 0 1
            0x1a, 0x06, 0xa1, 0xff, 0xee, // iload_0, iconst_3, if_icmplt -16
            0xb1,
        ]
    });
    let (rt, r) = run_example(class, vec![]);
    assert_eq!(r, Ok(String::new()));
    assert_eq!(static_value(&rt, "Example", "result", "I"), 123);
}

#[test]
fn string_literal_scenario_prints_hi() {
    let class = example(|c| {
        let s = c.string("hi");
        let write = c.member(10, "java/io/PrintStream", "write", "(Ljava/lang/String;)V");
        vec![0x03, 0x12, s as u8, 0xb6, hi(write), lo(write), 0xb1]
    });
    let (rt, r) = run_example(class, vec![]);
    assert_eq!(r, Ok("hi".to_string()));
    assert_eq!(rt.stringpool.len(), 1);
    assert_eq!(rt.stringpool[0].key, b"hi".to_vec());
    assert!(rt.stringpool[0].objectref > 0);
}

#[test]
fn long_arithmetic_scenario_yields_2() {
    let class = example(|c| {
        let result = c.member(9, "Example", "result", "I");
        vec![0x0a, 0x0a, 0x61, 0x88, 0xb3, hi(result), lo(result), 0xb1]
    });
    let (rt, r) = run_example(class, vec![]);
    assert_eq!(r, Ok(String::new()));
    assert_eq!(static_value(&rt, "Example", "result", "I"), 2);
}

#[test]
fn null_check_scenario_returns_1() {
    let class = example(|c| {
        c.method(STATIC, "check", "()I", Some((1, 0, vec![0x03, 0xc7, 0, 5, 0x04, 0xac, 0x05, 0xac])));
        let check = c.member(10, "Example", "check", "()I");
        let result = c.member(9, "Example", "result", "I");
        vec![0xb8, hi(check), lo(check), 0xb3, hi(result), lo(result), 0xb1]
    });
    let (rt, r) = run_example(class, vec![]);
    assert_eq!(r, Ok(String::new()));
    assert_eq!(static_value(&rt, "Example", "result", "I"), 1);
}

/// A class `Widget` whose `<clinit>` reads its own literal `"lit"` with `ldc` and
/// sets `ready` to 1.
fn widget_class() -> Vec<u8> {
    let mut c = ClassFile::new("Widget");
    c.field(STATIC, "ready", "I");
    c.field(STATIC, "text", "I");
    c.field(0x0001, "size", "I");
    let s = c.string("lit");
    let ready = c.member(9, "Widget", "ready", "I");
    let text = c.member(9, "Widget", "text", "I");
    let code = vec![0x12, s as u8, 0xb3, hi(text), lo(text), 0x04, 0xb3, hi(ready), lo(ready), 0xb1];
    c.method(STATIC, "<clinit>", "()V", Some((1, 0, code)));
    c.bytes()
}

#[test]
fn new_on_fresh_class_runs_feed_and_clinit_first() {
    let class = example(|c| {
        let widget = c.class("Widget");
        let result = c.member(9, "Example", "result", "I");
        vec![0xbb, hi(widget), lo(widget), 0xb3, hi(result), lo(result), 0xb1]
    });
    let (rt, r) = run_example(class, vec![("Widget".to_string(), widget_class())]);
    assert_eq!(r, Ok(String::new()));
    assert_eq!(static_value(&rt, "Widget", "ready", "I"), 1);
    let objectref = static_value(&rt, "Example", "result", "I");
    let text = static_value(&rt, "Widget", "text", "I");
    assert!(text > 0);
    assert!(objectref > text);
    let o = rt.heap.get_object(objectref).unwrap();
    assert_eq!(o.typename, b"Widget".to_vec());
    assert_eq!(o.fields.len(), 1);
    assert_eq!(o.fields[0].id, b"size:I".to_vec());
}

#[test]
fn loading_twice_does_not_initialize_again() {
    let mut rt = Runtime::new();
    let classes = library();
    // Bring in the bootstrap classes.
    assert_eq!(run(&mut rt, &classes), Ok(String::new()));
    let w = widget_class();
    assert_eq!(rt.load_and_initialize(b"Widget", &w), Ok(true));
    let frames = rt.frame_stack.len();
    let pool = rt.stringpool.len();
    assert!(frames >= 2);
    assert_eq!(pool, 1);
    assert_eq!(rt.load_and_initialize(b"Widget", &w), Ok(false));
    assert_eq!(rt.frame_stack.len(), frames);
    assert_eq!(rt.stringpool.len(), pool);
    assert_eq!(run(&mut rt, &classes), Ok(String::new()));
    assert_eq!(static_value(&rt, "Widget", "ready", "I"), 1);
}

#[test]
fn missing_main_is_no_such_entry() {
    let c = ClassFile::new("Nothing");
    let class = minijvm::decoder::parse_class_file(&c.bytes()).unwrap();
    let rt = Runtime::new();
    assert_eq!(rt.check_if_can_run(&class), Err(RuntimeError::NoSuchEntry));
}

#[test]
fn unregistered_native_is_no_native_impl() {
    let class = example(|c| {
        let f = c.member(10, "java/io/PrintStream", "flush", "()V");
        vec![0x03, 0xb6, hi(f), lo(f), 0xb1]
    });
    let mut ps = ClassFile::new("java/io/PrintStream");
    ps.method(0x0101, "flush", "()V", None);
    let mut rt = Runtime::new();
    rt.entrypoint("Example", class);
    let mut classes = vec![("java/io/PrintStream".to_string(), ps.bytes())];
    classes.extend(library().into_iter().filter(|(n, _)| n != "java/io/PrintStream"));
    assert_eq!(run(&mut rt, &classes), Err(RuntimeError::NoNativeImpl));
}

#[test]
fn division_by_zero_traps() {
    let class = example(|_| vec![0x04, 0x03, 0x6c, 0xb1]);
    let (_, r) = run_example(class, vec![]);
    assert_eq!(r, Err(RuntimeError::DivisionByZero));
}

#[test]
fn arrays_store_and_load_chars() {
    let class = example(|c| {
        let result = c.member(9, "Example", "result", "I");
        vec![
            0x06, 0xbc, 5, 0x4b, // iconst_3, newarray char, astore_0
            0x2a, 0x04, 0x11, 0x12, 0x41, 0x55, // a[1] = 0x1241 (castore)
            0x2a, 0x04, 0x34, // caload a[1]
            0x2a, 0xbe, 0x60, // + arraylength
            0xb3, hi(result), lo(result), 0xb1,
        ]
    });
    let (rt, r) = run_example(class, vec![]);
    assert_eq!(r, Ok(String::new()));
    assert_eq!(static_value(&rt, "Example", "result", "I"), 0x1241 + 3);
}

#[test]
fn unsupported_array_type_is_illegal_operand() {
    let class = example(|_| vec![0x04, 0xbc, 7, 0xb1]);
    let (_, r) = run_example(class, vec![]);
    assert_eq!(r, Err(RuntimeError::IllegalOperand));
}

#[test]
fn missing_method_is_link_error() {
    let class = example(|c| {
        let m = c.member(10, "Example", "absent", "()V");
        vec![0xb8, hi(m), lo(m), 0xb1]
    });
    let (_, r) = run_example(class, vec![]);
    assert_eq!(r, Err(RuntimeError::LinkError));
}

#[test]
fn unknown_opcode_traps() {
    let class = example(|_| vec![0xff]);
    let (_, r) = run_example(class, vec![]);
    assert_eq!(r, Err(RuntimeError::UnsupportedOpcode));
}

#[test]
fn ldc_pushes_int_constant() {
    let class = example(|c| {
        let mut e = vec![3];
        e.extend_from_slice(&123456i32.to_be_bytes());
        let k = c.add(e);
        let result = c.member(9, "Example", "result", "I");
        vec![0x12, k as u8, 0xb3, hi(result), lo(result), 0xb1]
    });
    let (rt, r) = run_example(class, vec![]);
    assert_eq!(r, Ok(String::new()));
    assert_eq!(static_value(&rt, "Example", "result", "I"), 123456);
}

#[test]
fn ifnull_on_null_branches() {
    let class = example(|c| {
        c.method(STATIC, "check", "()I", Some((1, 0, vec![0x03, 0xc6, 0, 5, 0x04, 0xac, 0x05, 0xac])));
        let check = c.member(10, "Example", "check", "()I");
        let result = c.member(9, "Example", "result", "I");
        vec![0xb8, hi(check), lo(check), 0xb3, hi(result), lo(result), 0xb1]
    });
    let (rt, r) = run_example(class, vec![]);
    assert_eq!(r, Ok(String::new()));
    assert_eq!(static_value(&rt, "Example", "result", "I"), 2);
}

#[test]
fn instance_fields_round_trip_through_putfield_and_getfield() {
    let class = example(|c| {
        let widget = c.class("Widget");
        let size = c.member(9, "Widget", "size", "I");
        let result = c.member(9, "Example", "result", "I");
        vec![
            0xbb, hi(widget), lo(widget), 0x4b, // new Widget, astore_0
            0x2a, 0x10, 42, 0xb5, hi(size), lo(size), // w.size = 42
            0x2a, 0xb4, hi(size), lo(size), // w.size
            0xb3, hi(result), lo(result), 0xb1,
        ]
    });
    let (rt, r) = run_example(class, vec![("Widget".to_string(), widget_class())]);
    assert_eq!(r, Ok(String::new()));
    assert_eq!(static_value(&rt, "Example", "result", "I"), 42);
}

#[test]
fn invokestatic_passes_arguments_in_order() {
    let class = example(|c| {
        // static int sub(int a, long b, int c) { return a - (int) b - c; }
        c.method(STATIC, "sub", "(IJI)I", Some((4, 4, vec![0x1a, 0x1f, 0x88, 0x64, 0x1d, 0x64, 0xac])));
        let sub = c.member(10, "Example", "sub", "(IJI)I");
        let result = c.member(9, "Example", "result", "I");
        vec![0x10, 100, 0x0a, 0x10, 7, 0xb8, hi(sub), lo(sub), 0xb3, hi(result), lo(result), 0xb1]
    });
    let (rt, r) = run_example(class, vec![]);
    assert_eq!(r, Ok(String::new()));
    assert_eq!(static_value(&rt, "Example", "result", "I"), 92);
}

#[test]
fn interned_strings_are_string_instances_with_their_chars() {
    let class = example(|c| {
        let s = c.string("abc");
        let write = c.member(10, "java/io/PrintStream", "write", "(Ljava/lang/String;)V");
        vec![0x03, 0x12, s as u8, 0xb6, hi(write), lo(write), 0xb1]
    });
    let (rt, r) = run_example(class, vec![]);
    assert_eq!(r, Ok("abc".to_string()));
    let entry = &rt.stringpool[0];
    let o = rt.heap.get_object(entry.objectref).unwrap();
    assert_eq!(o.typename, b"java/lang/String".to_vec());
    let count = o.fields[o.find_field_by_name_and_descriptor(b"count", b"I").unwrap()].value;
    let value = o.fields[o.find_field_by_name_and_descriptor(b"value", b"[C").unwrap()].value;
    let array = rt.heap.get_object(value).unwrap();
    assert_eq!(array.typename, b"[C".to_vec());
    assert!(array.get_array_length() >= count as usize);
    assert_eq!(count, 3);
    assert_eq!(array.get_array_value(2), 'c' as i32);
    assert_eq!(rt.get_string_from_obj(entry.objectref), Ok(vec![97, 98, 99]));
}

#[test]
fn heap_reserves_null_at_zero() {
    let mut heap = minijvm::heap::Heap::new();
    let null = heap.get_object(0).unwrap();
    assert_eq!(null.typename, b"java/lang/Object".to_vec());
    assert!(!null.is_array);
    assert!(heap.get_object(1).is_none());
    assert!(heap.get_object(-1).is_none());
    let r = heap.allocate_array(10, 4).unwrap();
    assert_eq!(r, 1);
    let a = heap.get_object(r).unwrap();
    assert_eq!(a.typename, b"[I".to_vec());
    assert_eq!(a.get_array_length(), 4);
    assert_eq!(heap.allocate_array(7, 1), Err(RuntimeError::IllegalOperand));
    assert_eq!(heap.allocate_array(6, 1).unwrap(), 2);
    assert_eq!(heap.get_object(2).unwrap().typename, b"[Z".to_vec());
}

#[test]
fn println_integer_prints_5() {
    let class = example(|c| {
        let out = c.member(9, "java/lang/System", "out", "Ljava/io/PrintStream;");
        let value_of = c.member(10, "java/lang/String", "valueOf", "(I)Ljava/lang/String;");
        let write = c.member(10, "java/io/PrintStream", "write", "(Ljava/lang/String;)V");
        vec![
            0xb2, hi(out), lo(out), 0x08, 0xb8, hi(value_of), lo(value_of), 0xb6, hi(write), lo(write), 0xb1,
        ]
    });
    let (_, r) = run_example(class, vec![]);
    assert_eq!(r, Ok("5".to_string()));
}

#[test]
fn arithmetic_scenario_prints_43() {
    let class = example(|c| {
        c.method(STATIC, "compute", "()I", Some((2, 0, vec![0x10, 7, 0x10, 6, 0x68, 0x04, 0x60, 0xac])));
        let compute = c.member(10, "Example", "compute", "()I");
        let out = c.member(9, "java/lang/System", "out", "Ljava/io/PrintStream;");
        let value_of = c.member(10, "java/lang/String", "valueOf", "(I)Ljava/lang/String;");
        let write = c.member(10, "java/io/PrintStream", "write", "(Ljava/lang/String;)V");
        vec![
            0xb2, hi(out), lo(out), 0xb8, hi(compute), lo(compute), 0xb8, hi(value_of), lo(value_of), 0xb6,
            hi(write), lo(write), 0xb1,
        ]
    });
    let (_, r) = run_example(class, vec![]);
    assert_eq!(r, Ok("43".to_string()));
}

#[test]
fn loop_scenario_prints_012() {
    let class = example(|c| {
        let out = c.member(9, "java/lang/System", "out", "Ljava/io/PrintStream;");
        let value_of = c.member(10, "java/lang/String", "valueOf", "(I)Ljava/lang/String;");
        let write = c.member(10, "java/io/PrintStream", "write", "(Ljava/lang/String;)V");
        // for (i = 0; i < 3; i++) print(i);  written as: i = 0; goto test; body; iinc; test: if_icmplt body
        vec![
            0x03, 0x3b, 0xa7, 0, 16, // iconst_0, istore_0, goto +16 (to 18)
            0xb2, hi(out), lo(out), 0x1a, 0xb8, hi(value_of), lo(value_of), 0xb6, hi(write), lo(write), // 5..14
            0x84, 0, 1, // 15: iinc 0 1
            0x1a, 0x06, 0xa1, 0xff, 0xf1, // 18: iload_0, iconst_3, 20: if_icmplt -15 (to 5)
            0xb1,
        ]
    });
    let (_, r) = run_example(class, vec![]);
    assert_eq!(r, Ok("012".to_string()));
}
