use kync::ffi::{bytes_eq, c_str_len, c_str_to_string, FromCStr, Slice, Writer};

#[test]
fn c_string_ends_at_the_first_nul() {
    assert_eq!(c_str_len(b"abc\0def\0"), 3);
    assert_eq!(c_str_len(b"\0abc"), 0);
    assert_eq!(c_str_len(b""), 0);
    assert_eq!(String::from_c_str(b"Key0\0\0\0\0"), "Key0");
    assert_eq!(String::from_c_str(b"\0Key0"), "");
}

#[test]
fn c_string_without_nul_is_taken_whole() {
    assert_eq!(c_str_len(b"abcdef"), 6);
    assert_eq!(String::from_c_str(b"abcdef"), "abcdef");
}

#[test]
fn c_string_must_be_utf8() {
    assert_eq!(c_str_to_string(b"gr\xc3\xbcn\0"), Some("grün".to_string()));
    assert_eq!(c_str_to_string(b"gr\xc3\0"), None);
    assert_eq!(c_str_to_string(b"\xff"), None);
    // what follows the terminator is not looked at
    assert_eq!(c_str_to_string(b"ok\0\xff"), Some("ok".to_string()));
}

#[test]
fn absent_is_not_empty() {
    let empty: &[u8] = b"";
    assert_eq!(Slice::new(empty).slice_t(), Some(empty));
    assert_eq!(Slice::absent().slice_t(), None);
    assert_eq!(Slice::from_option(None).slice_t(), None);
    assert_eq!(Slice::from_option(Some(b"abc")).slice_t(), Some(&b"abc"[..]));
    assert_eq!(Slice::new(b"abc").slice_t(), Some(&b"abc"[..]));
}

#[test]
fn a_new_sink_is_empty_and_grows() {
    let mut sink = Writer::new();
    assert_eq!(sink.len(), 0);
    assert_eq!(sink.remaining(), usize::MAX);
    {
        let view = sink.request(3).unwrap();
        assert_eq!(view, &[0, 0, 0]);
        view.copy_from_slice(b"abc");
    }
    assert_eq!(sink.as_slice(), b"abc");
    {
        let view = sink.request(5000).unwrap();
        assert_eq!(view.len(), 5000);
        view[4999] = 9;
    }
    assert_eq!(sink.len(), 5003);
    assert_eq!(&sink.as_slice()[..3], b"abc");
    assert_eq!(sink.as_slice()[5002], 9);
    assert_eq!(sink.remaining(), usize::MAX - 5003);
}

#[test]
fn a_limited_sink_refuses_to_grow_beyond_its_limit() {
    let mut sink = Writer::with_limit(4);
    assert_eq!(sink.remaining(), 4);
    assert!(sink.write(b"abc"));
    assert!(sink.request(2).is_none());
    assert_eq!(sink.as_slice(), b"abc");
    assert!(!sink.write(b"de"));
    assert_eq!(sink.as_slice(), b"abc");
    assert!(sink.request(0).is_some());
    assert!(sink.write(b"d"));
    assert_eq!(sink.remaining(), 0);
    assert!(sink.request(1).is_none());
    assert!(sink.request(0).is_some());
    assert_eq!(sink.into_vec(), b"abcd".to_vec());
}

#[test]
fn a_sink_without_room_takes_nothing() {
    let mut sink = Writer::with_limit(0);
    assert!(!sink.write(b"a"));
    assert!(sink.write(b""));
    assert_eq!(sink.len(), 0);
}

#[test]
fn a_request_that_cannot_be_counted_is_refused() {
    let mut sink = Writer::new();
    assert!(sink.write(b"abc"));
    assert!(sink.request(usize::MAX).is_none());
    assert!(sink.request(usize::MAX - 2).is_none());
    assert_eq!(sink.as_slice(), b"abc");
}

#[test]
fn writes_are_appended() {
    let mut sink = Writer::new();
    assert!(sink.write(b"Key0"));
    assert!(sink.write(b":"));
    assert!(sink.write(b"secret"));
    assert_eq!(sink.as_slice(), b"Key0:secret");
    sink.clear();
    assert_eq!(sink.len(), 0);
    assert!(sink.write(b"x"));
    assert_eq!(sink.into_vec(), vec![b'x']);
}

#[test]
fn bytes_are_equal_if_all_of_them_are() {
    assert!(bytes_eq(b"", b""));
    assert!(bytes_eq(b"secret", b"secret"));
    assert!(!bytes_eq(b"secret", b"secreT"));
    assert!(!bytes_eq(b"secret", b"Secret"));
    assert!(!bytes_eq(b"secret", b"secre"));
    assert!(!bytes_eq(b"secre", b"secret"));
    assert!(!bytes_eq(b"", b"\0"));
}
