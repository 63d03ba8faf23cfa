use lib::leb::{write_signed, write_unsigned};

fn unsigned(v: u64) -> Vec<u8> {
    let mut e = Vec::new();
    write_unsigned(&mut e, v);
    e
}

fn signed(v: i64) -> Vec<u8> {
    let mut e = Vec::new();
    write_signed(&mut e, v);
    e
}

#[test]
fn unsigned_leb128_values() {
    assert_eq!(unsigned(0), vec![0x00]);
    assert_eq!(unsigned(1), vec![0x01]);
    assert_eq!(unsigned(127), vec![0x7f]);
    assert_eq!(unsigned(128), vec![0x80, 0x01]);
    assert_eq!(unsigned(624485), vec![0xe5, 0x8e, 0x26]);
    assert_eq!(unsigned(u32::MAX as u64), vec![0xff, 0xff, 0xff, 0xff, 0x0f]);
    assert_eq!(
        unsigned(u64::MAX),
        vec![0xff, 0xff, 0xff, 0xff, 0xff, 0xff, 0xff, 0xff, 0xff, 0x01]
    );
}

#[test]
fn signed_leb128_values() {
    assert_eq!(signed(0), vec![0x00]);
    assert_eq!(signed(63), vec![0x3f]);
    assert_eq!(signed(64), vec![0xc0, 0x00]);
    assert_eq!(signed(-1), vec![0x7f]);
    assert_eq!(signed(-64), vec![0x40]);
    assert_eq!(signed(-65), vec![0xbf, 0x7f]);
    assert_eq!(signed(-123456), vec![0xc0, 0xbb, 0x78]);
    assert_eq!(
        signed(i64::MIN),
        vec![0x80, 0x80, 0x80, 0x80, 0x80, 0x80, 0x80, 0x80, 0x80, 0x7f]
    );
    assert_eq!(
        signed(i64::MAX),
        vec![0xff, 0xff, 0xff, 0xff, 0xff, 0xff, 0xff, 0xff, 0xff, 0x00]
    );
}

#[test]
fn leb128_appends_after_existing_bytes() {
    let mut e = vec![0xaa];
    write_unsigned(&mut e, 300);
    write_signed(&mut e, -2);
    assert_eq!(e, vec![0xaa, 0xac, 0x02, 0x7e]);
}
