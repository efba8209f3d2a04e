//! The mock serial port: writes append, reads drain from the front.

use pensel::mock_serial::MockSerial;

#[test]
fn write() {
    let mut ms = MockSerial::default();
    let written = ms.write(b"hello");
    assert_eq!(written, 5);
    ms.flush();
}

#[test]
fn read() {
    let mut ms = MockSerial::default();
    let mut buf: Vec<u8> = vec![0; 8];
    let got = ms.read(&mut buf);
    assert_eq!(got, 0);
}

#[test]
fn read_write() {
    let mut ms = MockSerial::default();
    let mut buf: Vec<u8> = vec![0; 4];

    ms.write(b"test");
    ms.write(b"t3st");

    ms.read(&mut buf);
    assert_eq!(buf, b"test".to_vec());
    ms.read(&mut buf);
    assert_eq!(buf, b"t3st".to_vec());
}

#[test]
fn read_partial_keeps_rest() {
    let mut ms = MockSerial::default();
    ms.write(b"abcdef");

    let mut buf: Vec<u8> = vec![0; 4];
    let got = ms.read(&mut buf);
    assert_eq!(got, 4);
    assert_eq!(buf, b"abcd".to_vec());

    let mut rest: Vec<u8> = vec![0; 4];
    let got = ms.read(&mut rest);
    assert_eq!(got, 2);
    assert_eq!(rest, b"ef\0\0".to_vec());
}
