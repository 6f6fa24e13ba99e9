use flatbuf::{Located, Struct, Table, Vector};

/// Vtable at 0 (size 6: header and one slot, the field at offset 4), table at
/// 6 whose `i32` field holds 42.
fn one_field_table() -> Vec<u8> {
    vec![6, 0, 8, 0, 4, 0, 6, 0, 0, 0, 42, 0, 0, 0]
}

#[test]
fn table_present_and_past_vtable() {
    let buf = one_field_table();
    let t = Table::at(6);
    assert_eq!(t.get_field::<i32>(&buf, 0, 0), 42);
    assert_eq!(t.get_field::<i32>(&buf, 1, 7), 7);
    assert!(t.check_field(&buf, 0));
    assert!(!t.check_field(&buf, 1));
}

#[test]
fn table_zero_entry_is_absent() {
    let buf = vec![6u8, 0, 8, 0, 0, 0, 6, 0, 0, 0, 42, 0, 0, 0];
    let t = Table::at(6);
    assert_eq!(t.get_field::<i32>(&buf, 0, -3), -3);
    assert!(!t.check_field(&buf, 0));
}

#[test]
fn table_vtable_after_table() {
    // back-reference -8: the vtable lies 8 bytes after the table.
    let buf = vec![0xF8u8, 0xFF, 0xFF, 0xFF, 99, 0, 0, 0, 6, 0, 8, 0, 4, 0];
    let t = Table::at(0);
    assert_eq!(t.get_field::<u32>(&buf, 0, 0), 99);
}

#[test]
fn table_set_then_get() {
    let mut buf = one_field_table();
    let t = Table::at(6);
    t.set_field::<i32>(&mut buf, 0, -1234);
    assert_eq!(t.get_field::<i32>(&buf, 0, 0), -1234);
    assert_eq!(&buf[10..14], &(-1234i32).to_le_bytes());
    assert_eq!(&buf[0..10], &one_field_table()[0..10]);
}

#[test]
fn table_reference_and_struct_fields() {
    // vtable at 0: size 8, slots at offsets 4 and 8; table at 8.
    // slot 0: offset 4 from the field to a string at 16; slot 1: inline struct.
    let buf = vec![
        8u8, 0, 12, 0, 4, 0, 8, 0, // vtable
        8, 0, 0, 0, // back-reference
        4, 0, 0, 0, // offset to the string
        2, 0, 0, 0, b'o', b'k', // string at 16, struct at 16 too
    ];
    let t = Table::at(8);
    let s: Option<flatbuf::String> = t.get_ref(&buf, 0);
    let s = s.unwrap();
    assert_eq!(s.pos, 16);
    assert_eq!(s.as_str(&buf), Some("ok"));
    let st: Option<Struct> = t.get_struct(&buf, 1);
    assert_eq!(st.unwrap().get_field::<u32>(&buf, 0), 2);
    let absent: Option<Struct> = t.get_struct(&buf, 2);
    assert!(absent.is_none());
    let absent_ref: Option<Table> = t.get_ref(&buf, 2);
    assert!(absent_ref.is_none());
}

#[test]
fn struct_fixed_fields() {
    let buf = vec![5u8, 0, 0, 0, 0xFF, 0xFF, 0xFF, 0xFF];
    let s = Struct::at(0);
    assert_eq!(s.get_field::<u8>(&buf, 0), 5);
    assert_eq!(s.get_field::<i32>(&buf, 4), -1);
}

#[test]
fn struct_reference_and_nested() {
    // offset at 2 points 6 bytes on, to a vector of one u16 at 8.
    let buf = vec![0u8, 0, 6, 0, 0, 0, 0, 0, 1, 0, 0, 0, 0x34, 0x12];
    let s = Struct::at(0);
    let v: Vector<u16> = s.get_ref(&buf, 2);
    assert_eq!(v.pos, 8);
    assert_eq!(v.get(&buf, 0), Some(0x1234));
    let inner: Struct = s.get_struct(&buf, 12);
    assert_eq!(inner.get_field::<u16>(&buf, 0), 0x1234);
}
