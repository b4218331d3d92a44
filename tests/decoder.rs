use minijvm::decoder::parse_class_file;
use minijvm::error::RuntimeError;

fn header(count: u16) -> Vec<u8> {
    let mut b = vec![0xCA, 0xFE, 0xBA, 0xBE, 0, 0, 0, 51];
    b.extend_from_slice(&count.to_be_bytes());
    b
}

fn tail(b: &mut Vec<u8>) {
    // access flags, this, super, no interfaces, fields, methods or attributes
    b.extend_from_slice(&[0, 0x21, 0, 1, 0, 0, 0, 0, 0, 0, 0, 0, 0, 0]);
}

#[test]
fn rejects_bad_magic() {
    let mut b = header(1);
    b[0] = 0xCB;
    tail(&mut b);
    assert_eq!(parse_class_file(&b).unwrap_err(), RuntimeError::MalformedClassFile);
    assert_eq!(parse_class_file(&[0xCA, 0xFE]).unwrap_err(), RuntimeError::MalformedClassFile);
}

#[test]
fn rejects_unknown_tag() {
    let mut b = header(2);
    b.extend_from_slice(&[2, 0, 0]);
    tail(&mut b);
    assert_eq!(parse_class_file(&b).unwrap_err(), RuntimeError::MalformedClassFile);
}

#[test]
fn rejects_truncated_attribute() {
    let mut b = header(2);
    b.extend_from_slice(&[1, 0, 4]);
    b.extend_from_slice(b"Code");
    b.extend_from_slice(&[0, 0x21, 0, 0, 0, 0, 0, 0, 0, 0]);
    // one method with one attribute claiming 100 bytes but holding 2
    b.extend_from_slice(&[0, 1, 0, 9, 0, 1, 0, 1, 0, 1, 0, 1, 0, 0, 0, 100, 1, 2]);
    assert_eq!(parse_class_file(&b).unwrap_err(), RuntimeError::MalformedClassFile);
}

#[test]
fn long_constant_takes_two_slots() {
    let mut b = header(4);
    b.extend_from_slice(&[5, 0, 0, 0, 1, 0, 0, 0, 2]);
    b.extend_from_slice(&[3, 0, 0, 0, 7]);
    tail(&mut b);
    let c = parse_class_file(&b).unwrap();
    assert_eq!(c.constant_pool_count, 4);
    assert_eq!(c.constant_pool.len(), 4);
    assert_eq!(c.constant_pool[0].tag, 0);
    assert_eq!(c.constant_pool[1].tag, 5);
    assert_eq!(c.constant_pool[2].tag, 0);
    assert_eq!(c.constant_pool[3].tag, 3);
    assert_eq!(c.constant_pool[1].as_long(), (1, 2));
    assert_eq!(c.get_constant(3).unwrap().as_int(), 7);
    assert!(c.get_constant(2).is_none());
    assert!(c.get_constant(0).is_none());
}

#[test]
fn class_and_string_constants_resolve_to_utf8() {
    let mut b = header(4);
    b.extend_from_slice(&[1, 0, 3]);
    b.extend_from_slice(b"Foo");
    b.extend_from_slice(&[7, 0, 1]);
    b.extend_from_slice(&[8, 0, 1]);
    b.extend_from_slice(&[0, 0x21, 0, 2, 0, 0, 0, 0, 0, 0, 0, 0, 0, 0]);
    let c = parse_class_file(&b).unwrap();
    assert_eq!(c.get_constant(2).unwrap().as_string(), b"Foo");
    assert_eq!(c.get_constant(3).unwrap().tag, 1);
    assert_eq!(c.name(), Some(b"Foo".to_vec()));
}
