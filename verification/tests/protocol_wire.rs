use coral::protocol::reader::Reader;
use coral::protocol::writer::Writer;

#[test]
fn varint_encodings() {
    let mut w = Writer::new();
    w.write_varint(0);
    w.write_varint(1);
    w.write_varint(127);
    w.write_varint(128);
    w.write_varint(255);
    w.write_varint(25565);
    w.write_varint(2147483647);
    assert_eq!(
        w.data,
        vec![0x00, 0x01, 0x7f, 0x80, 0x01, 0xff, 0x01, 0xdd, 0xc7, 0x01, 0xff, 0xff, 0xff, 0xff, 0x07]
    );
}

#[test]
fn varint_roundtrip_values() {
    for v in [0, 1, 2, 127, 128, 300, 25565, 2097151, 2147483647] {
        let mut w = Writer::new();
        w.write_varint(v);
        let n = w.data.len();
        let mut r = Reader::new(w.data);
        assert_eq!(r.read_varint(), v);
        assert_eq!(r.position, n);
        assert!(!r.has_remaining());
    }
}

#[test]
fn varint_reads_negative_from_five_bytes() {
    let mut r = Reader::new(vec![0xff, 0xff, 0xff, 0xff, 0x0f]);
    assert_eq!(r.read_varint(), -1);
}

#[test]
fn varlong_roundtrip() {
    let mut w = Writer::new();
    w.write_varlong(9223372036854775807);
    let mut r = Reader::new(w.data);
    assert_eq!(r.read_varlong(), 9223372036854775807);
}

#[test]
fn fixed_width_numbers() {
    let mut w = Writer::new();
    w.write_u16(0xBEEF);
    w.write_i16(-2);
    w.write_i32(-1);
    w.write_long(0x0102030405060708);
    w.write_bool(true);
    w.write_bool(false);
    assert_eq!(
        w.data,
        vec![0xBE, 0xEF, 0xFF, 0xFE, 0xFF, 0xFF, 0xFF, 0xFF, 1, 2, 3, 4, 5, 6, 7, 8, 1, 0]
    );
    let mut r = Reader::new(w.data);
    assert_eq!(r.read_u16(), 0xBEEF);
    assert_eq!(r.read_i16(), -2);
    assert_eq!(r.read_i32(), -1);
    assert_eq!(r.read_long(), 0x0102030405060708);
    assert!(r.read_bool());
    assert!(!r.read_bool());
    assert_eq!(r.remaining(), 0);
}

#[test]
fn string_roundtrip_with_unicode() {
    let mut w = Writer::new();
    w.write_string("héllo§");
    assert_eq!(w.data[0] as usize, "héllo§".len());
    let mut r = Reader::new(w.data);
    assert_eq!(r.read_string(), "héllo§");
}

#[test]
fn read_bytes_and_remaining() {
    let mut r = Reader::new(vec![1, 2, 3, 4, 5]);
    assert_eq!(r.read_byte(), 1);
    assert_eq!(r.remaining(), 4);
    assert_eq!(r.read_bytes(3), vec![2, 3, 4]);
    assert!(r.has_remaining());
}

#[test]
fn varshort_and_varbyte() {
    let mut w = Writer::new();
    w.write_varshort(300);
    w.write_varbyte(5);
    assert_eq!(w.data, vec![0xac, 0x02, 0x05]);
}
