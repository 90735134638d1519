use symphonia::errors::Error;
use symphonia::io::{read_exact_from_slice, read_exact_next, read_from_slice, BufReader, FiniteStream, ReadExactStep, SeekBuffered};

fn is_eof<T>(r: Result<T, Error>) -> bool {
    match r {
        Err(Error::IoError(e)) => e.is_eof(),
        _ => false,
    }
}

#[test]
fn reads_integers_of_both_endiannesses() {
    let data = [0x01, 0x02, 0x03, 0x04, 0x05, 0x06, 0x07, 0x08];
    let mut r = BufReader::new(&data);
    assert_eq!(r.read_u16().unwrap(), 0x0201);
    assert_eq!(r.read_be_u16().unwrap(), 0x0304);
    assert_eq!(r.read_u24().unwrap(), 0x070605);
    assert_eq!(r.pos(), 7);
    let mut r = BufReader::new(&data);
    assert_eq!(r.read_be_u24().unwrap(), 0x010203);
    assert_eq!(r.read_u32().unwrap(), 0x07060504);
    let mut r = BufReader::new(&data);
    assert_eq!(r.read_be_u32().unwrap(), 0x01020304);
    let mut r = BufReader::new(&data);
    assert_eq!(r.read_u64().unwrap(), 0x0807060504030201);
    let mut r = BufReader::new(&data);
    assert_eq!(r.read_be_u64().unwrap(), 0x0102030405060708);
}

#[test]
fn reads_signed_integers() {
    let data = [0xff; 8];
    let mut r = BufReader::new(&data);
    assert_eq!(r.read_i8().unwrap(), -1);
    assert_eq!(r.read_i16().unwrap(), -1);
    assert_eq!(r.read_i24().unwrap(), -1);
    let mut r = BufReader::new(&data);
    assert_eq!(r.read_be_i32().unwrap(), -1);
    assert_eq!(r.read_i32().unwrap(), -1);
    let mut r = BufReader::new(&data);
    assert_eq!(r.read_i64().unwrap(), -1);
    let data = [0x80, 0x00, 0x00, 0x7f, 0xff, 0xff];
    let mut r = BufReader::new(&data);
    assert_eq!(r.read_be_i24().unwrap(), -0x800000);
    assert_eq!(r.read_be_i24().unwrap(), 0x7fffff);
    let mut r = BufReader::new(&data);
    assert_eq!(r.read_be_i16().unwrap(), i16::MIN);
    let data = [0, 0, 0, 0, 0, 0, 0, 0x80];
    let mut r = BufReader::new(&data);
    assert_eq!(r.read_i64().unwrap(), i64::MIN);
    let mut r = BufReader::new(&data);
    assert_eq!(r.read_be_i64().unwrap(), 0x80);
}

#[test]
fn underrun_is_eof_and_consumes_nothing() {
    let data = [1, 2, 3];
    let mut r = BufReader::new(&data);
    assert!(is_eof(r.read_u32()));
    assert_eq!(r.pos(), 0);
    assert_eq!(r.read_double_bytes().unwrap(), [1, 2]);
    assert!(is_eof(r.read_quad_bytes()));
    assert!(is_eof(r.read_boxed_slice_exact(2)));
    assert!(is_eof(r.ignore_bytes(2)));
    assert_eq!(r.read_byte().unwrap(), 3);
    assert!(is_eof(r.read_byte()));
    assert_eq!(r.pos(), 3);
}

#[test]
fn reads_slices() {
    let data = [1, 2, 3, 4, 5];
    let mut r = BufReader::new(&data);
    assert_eq!(r.read_boxed_slice_exact(2).unwrap(), vec![1, 2]);
    assert_eq!(r.read_boxed_slice(10), vec![3, 4, 5]);
    assert_eq!(r.read_boxed_slice(10), Vec::<u8>::new());
    let mut r = BufReader::new(&data);
    let mut buf = [0u8; 3];
    r.read_buf_exact(&mut buf).unwrap();
    assert_eq!(buf, [1, 2, 3]);
    let mut big = [9u8; 3];
    assert!(is_eof(r.read_buf_exact(&mut big)));
    assert_eq!(big, [9, 9, 9]);
    assert_eq!(r.read_triple_bytes().is_err(), true);
    r.ignore_bytes(1).unwrap();
    assert_eq!(r.read_byte().unwrap(), 5);
}

#[test]
fn finite_stream_counts() {
    let data = [0u8; 10];
    let mut r = BufReader::new(&data);
    r.ignore_bytes(4).unwrap();
    assert_eq!(r.byte_len(), 10);
    assert_eq!(r.bytes_read(), 4);
    assert_eq!(r.bytes_available(), 6);
    assert_eq!(r.byte_len(), r.bytes_read() + r.bytes_available());
}

#[test]
fn seeks_within_buffer_clamped() {
    let data = [0u8, 1, 2, 3, 4, 5, 6, 7, 8, 9];
    let mut r = BufReader::new(&data);
    assert_eq!(r.seek_buffered(4), 4);
    assert_eq!(r.read_buffer_len(), 4);
    assert_eq!(r.unread_buffer_len(), 6);
    assert_eq!(r.seek_buffered_rel(3), 7);
    assert_eq!(r.seek_buffered_rel(100), 10);
    assert_eq!(r.seek_buffered_rel(-3), 7);
    assert_eq!(r.seek_buffered_rel(-100), 0);
    assert_eq!(r.seek_buffered_rel(isize::MIN), 0);
    assert_eq!(r.seek_buffered(100), 10);
    r.seek_buffered_rev(2);
    assert_eq!(r.pos(), 8);
    r.seek_buffered_rev(50);
    assert_eq!(r.pos(), 0);
    r.ensure_seekback_buffer(5);
    assert_eq!(r.read_byte().unwrap(), 0);
}

#[test]
fn io_error_constructors() {
    let e = symphonia::io::Error::eof("end");
    assert!(e.is_eof());
    let e = symphonia::io::Error::other("other");
    assert!(!e.is_eof());
    assert_eq!(e.kind(), embedded_io::ErrorKind::Other);
    let e = symphonia::io::Error::new(embedded_io::ErrorKind::InvalidData, "bad");
    assert_eq!(e.kind(), embedded_io::ErrorKind::InvalidData);
    assert!(!e.is_eof());
}

#[test]
fn io_error_from_kind() {
    let e: symphonia::io::Error = embedded_io::ErrorKind::InvalidData.into();
    assert_eq!(e.kind(), embedded_io::ErrorKind::InvalidData);
    assert!(!e.is_eof());
    let e = symphonia::io::Error::eof("end");
    assert!(e.is_eof());
    assert_eq!(e.kind(), embedded_io::ErrorKind::Other);
    let e = symphonia::io::Error::other("bad");
    assert!(!e.is_eof());
    assert_eq!(e.kind(), embedded_io::ErrorKind::Other);
}

#[test]
fn read_exact_steps() {
    assert_eq!(read_exact_next(0, 8, 0), ReadExactStep::UnexpectedEof);
    assert_eq!(read_exact_next(0, 8, 3), ReadExactStep::Continue(3));
    assert_eq!(read_exact_next(3, 8, 5), ReadExactStep::Finished);
    assert_eq!(read_exact_next(7, 8, 1), ReadExactStep::Finished);
    assert_eq!(read_exact_next(6, 8, 0), ReadExactStep::UnexpectedEof);
}

#[test]
fn reads_from_a_slice() {
    let src = [1u8, 2, 3];
    let mut buf = [9u8; 5];
    assert_eq!(read_from_slice(&src, &mut buf), 3);
    assert_eq!(buf, [1, 2, 3, 9, 9]);
    let mut small = [0u8; 2];
    assert_eq!(read_from_slice(&src, &mut small), 2);
    assert_eq!(small, [1, 2]);
    let mut none: [u8; 0] = [];
    assert_eq!(read_from_slice(&src, &mut none), 0);
    assert_eq!(read_from_slice(&[], &mut buf), 0);
    assert_eq!(buf, [1, 2, 3, 9, 9]);
}

#[test]
fn io_error_message() {
    let e = symphonia::io::Error::other("bad seek");
    assert_eq!(e.message(), "bad seek");
    let e: symphonia::io::Error = embedded_io::ErrorKind::NotFound.into();
    assert_eq!(e.message(), "no message");
}

#[test]
fn seeking_back_undoes_a_read() {
    let data = [1u8, 2, 3, 4, 5, 6];
    let mut r = BufReader::new(&data);
    r.read_u8().unwrap();
    let before = r.pos();
    assert_eq!(r.read_be_u32().unwrap(), 0x0203_0405);
    r.seek_buffered_rev(4);
    assert_eq!(r.pos(), before);
    assert_eq!(r.read_be_u32().unwrap(), 0x0203_0405);
    let mut a = BufReader::new(&data);
    let mut b = BufReader::new(&data);
    a.seek_buffered(5);
    b.seek_buffered(5);
    a.seek_buffered_rev(3);
    assert_eq!(b.seek_buffered_rel(-3), a.pos());
}

#[test]
fn reads_a_slice_exactly() {
    let src = [1u8, 2, 3, 4];
    let mut buf = [0u8; 3];
    assert!(read_exact_from_slice(&src, &mut buf));
    assert_eq!(buf, [1, 2, 3]);
    let mut big = [7u8; 5];
    assert!(!read_exact_from_slice(&src, &mut big));
    assert_eq!(big, [7u8; 5]);
    let mut exact = [0u8; 4];
    assert!(read_exact_from_slice(&src, &mut exact));
    assert_eq!(exact, src);
    let mut none: [u8; 0] = [];
    assert!(read_exact_from_slice(&[], &mut none));
}
