use flatbuf::{Located, Offset, Table, Vector};
use std::cmp::Ordering;

fn ints() -> Vec<u8> {
    vec![3, 0, 0, 0, 10, 0, 0, 0, 20, 0, 0, 0, 30, 0, 0, 0]
}

#[test]
fn vector_of_i32() {
    let buf = ints();
    let v: Vector<i32> = Vector::at(0);
    assert_eq!(v.len(&buf), 3);
    assert_eq!(v.get(&buf, 0), Some(10));
    assert_eq!(v.get(&buf, 2), Some(30));
    assert_eq!(v.get(&buf, 3), None);
    assert_eq!(v.get(&buf, usize::MAX), None);
    assert_eq!(v.to_vec(&buf), vec![10, 20, 30]);
}

#[test]
fn vector_iteration_repeats() {
    let buf = ints();
    let v: Vector<i32> = Vector::at(0);
    for _ in 0..2 {
        let mut it = v.iter();
        let mut seen = Vec::new();
        while let Some(x) = it.next(&buf) {
            seen.push(x);
        }
        assert_eq!(seen, vec![10, 20, 30]);
        assert_eq!(it.next(&buf), None);
    }
}

#[test]
fn empty_vector() {
    let buf = vec![0u8, 0, 0, 0];
    let v: Vector<u64> = Vector::at(0);
    assert_eq!(v.len(&buf), 0);
    assert_eq!(v.get(&buf, 0), None);
    assert!(v.to_vec(&buf).is_empty());
}

#[test]
fn vector_of_tables() {
    // vector at 0 of two offsets; tables at 12 and 16 share the vtable at 20.
    let buf = vec![
        2u8, 0, 0, 0, // length
        8, 0, 0, 0, // 4 + 8 = 12
        8, 0, 0, 0, // 8 + 8 = 16
        0xF8, 0xFF, 0xFF, 0xFF, // table at 12: vtable at 20
        0xFC, 0xFF, 0xFF, 0xFF, // table at 16: vtable at 20
        4, 0, 4, 0, // vtable: no field slots
    ];
    let v: Vector<Offset<Table>, Table> = Vector::at(0);
    let ts = v.to_vec(&buf);
    assert_eq!(ts.len(), 2);
    assert_eq!(ts[0].pos, 12);
    assert_eq!(ts[1].pos, 16);
    assert_eq!(ts[1].get_field::<u8>(&buf, 0, 3), 3);
}

#[test]
fn string_text_view_and_equality() {
    let a = vec![2u8, 0, 0, 0, 0x68, 0x69];
    let b = vec![7u8, 7, 2, 0, 0, 0, b'h', b'i', 0];
    let s: flatbuf::String = Vector::at(0);
    let t: flatbuf::String = Vector::at(2);
    assert_eq!(s.as_str(&a), Some("hi"));
    assert_eq!(s.as_bytes(&a), b"hi");
    assert!(s.text_eq(&a, &t, &b));
    assert_eq!(s.text_cmp(&a, &t, &b), Ordering::Equal);
}

#[test]
fn string_ordering() {
    let buf = vec![2u8, 0, 0, 0, b'a', b'b', 1, 0, 0, 0, b'b', 3, 0, 0, 0, b'a', b'b', b'c'];
    let ab: flatbuf::String = Vector::at(0);
    let bb: flatbuf::String = Vector::at(6);
    let abc: flatbuf::String = Vector::at(11);
    assert_eq!(ab.text_cmp(&buf, &bb, &buf), Ordering::Less);
    assert_eq!(bb.text_cmp(&buf, &ab, &buf), Ordering::Greater);
    assert_eq!(ab.text_cmp(&buf, &abc, &buf), Ordering::Less);
    assert_eq!(abc.text_cmp(&buf, &ab, &buf), Ordering::Greater);
    assert!(!ab.text_eq(&buf, &abc, &buf));
    assert_eq!("ab".cmp("abc"), Ordering::Less);
}

#[test]
fn string_not_utf8() {
    let buf = vec![1u8, 0, 0, 0, 0xFF];
    let s: flatbuf::String = Vector::at(0);
    assert_eq!(s.as_str(&buf), None);
}
