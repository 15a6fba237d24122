use kync::capsule::{Capsule, Payload, CAPSULE_V1};
use kync::error::KyncErrorKind;

fn example() -> Capsule {
    Capsule::new("Example.v1".to_string(), Payload { tag: 0x04, data: vec![1, 2, 3, 4, 5] })
}

/// One object: the tag, the length in a single byte, the value.
fn object(tag: u8, value: &[u8]) -> Vec<u8> {
    assert!(value.len() < 128);
    let mut bytes = vec![tag, value.len() as u8];
    bytes.extend_from_slice(value);
    bytes
}

/// A sequence of objects that are written out already.
fn sequence(objects: &[Vec<u8>]) -> Vec<u8> {
    object(0x30, &objects.concat())
}

fn parse_error(data: &[u8]) -> KyncErrorKind {
    let err = Capsule::parse(data).unwrap_err();
    assert_eq!(err.description, None);
    err.kind
}

#[test]
fn capsule_bytes_are_a_sequence_of_three_objects() {
    let capsule = example();
    let mut buf = vec![0u8; capsule.serialized_len()];
    let written = capsule.serialize(&mut buf).unwrap();
    let mut expected = vec![0x30u8, 48, 0x0c, 27];
    expected.extend_from_slice(CAPSULE_V1.as_bytes());
    expected.extend_from_slice(&[0x0c, 10]);
    expected.extend_from_slice(b"Example.v1");
    expected.extend_from_slice(&[0x04, 5, 1, 2, 3, 4, 5]);
    assert_eq!(written, 50);
    assert_eq!(buf, expected);
    assert_eq!(
        buf,
        sequence(&[
            object(0x0c, b"de.KizzyCode.Kync.CapsuleV1"),
            object(0x0c, b"Example.v1"),
            object(0x04, &[1, 2, 3, 4, 5]),
        ])
    );
}

#[test]
fn a_new_capsule_has_the_supported_version() {
    let capsule = example();
    assert_eq!(capsule.version(), "de.KizzyCode.Kync.CapsuleV1");
    assert_eq!(capsule.version(), CAPSULE_V1);
    assert_eq!(capsule.capsule_format_uid(), "Example.v1");
    assert_eq!(capsule.plugin_payload(), &Payload { tag: 0x04, data: vec![1, 2, 3, 4, 5] });
}

#[test]
fn capsule_round_trip() {
    let capsule = example();
    let mut buf = vec![0u8; capsule.serialized_len()];
    let written = capsule.clone().serialize(&mut buf).unwrap();
    assert_eq!(written, buf.len());
    let parsed = Capsule::parse(&buf).unwrap();
    assert_eq!(parsed, capsule);
    assert_eq!(parsed.capsule_format_uid(), "Example.v1");
    assert_eq!(parsed.plugin_payload().tag, 0x04);
    assert_eq!(parsed.plugin_payload().data, vec![1, 2, 3, 4, 5]);
}

#[test]
fn capsule_round_trip_with_any_payload_tag_and_empty_fields() {
    let capsule = Capsule::new(String::new(), Payload { tag: 0xa5, data: Vec::new() });
    assert_eq!(capsule.serialized_len(), 2 + 29 + 2 + 2);
    let mut buf = vec![0u8; 35];
    assert_eq!(capsule.clone().serialize(&mut buf), Ok(35));
    assert_eq!(&buf[31..], &[0x0c, 0, 0xa5, 0]);
    assert_eq!(Capsule::parse(&buf).unwrap(), capsule);
}

#[test]
fn capsule_round_trip_with_text_beyond_ascii() {
    let capsule = Capsule::new("Schlüssel.鍵".to_string(), Payload { tag: 0x04, data: vec![0; 3] });
    let mut buf = vec![0u8; capsule.serialized_len()];
    capsule.clone().serialize(&mut buf).unwrap();
    assert_eq!(buf[31], 0x0c);
    assert_eq!(buf[32] as usize, "Schlüssel.鍵".len());
    assert_eq!(Capsule::parse(&buf).unwrap(), capsule);
}

#[test]
fn capsule_round_trip_with_long_payload() {
    let payload: Vec<u8> = (0..70000u32).map(|i| (i % 251) as u8).collect();
    let capsule = Capsule::new("Long".to_string(), Payload { tag: 0x04, data: payload.clone() });
    let predicted = Capsule::compute_serialized_len("Long", payload.len()).unwrap();
    assert_eq!(predicted, capsule.serialized_len());
    // 5 + 70000 for the payload, 29 + 6 for the strings, 5 for the header of the sequence
    assert_eq!(predicted, 5 + 70000 + 29 + 6 + 5);
    let mut buf = vec![0u8; predicted + 3];
    let written = capsule.clone().serialize(&mut buf).unwrap();
    assert_eq!(written, predicted);
    assert_eq!(&buf[..5], &[0x30, 0x83, 0x01, 0x11, 0x98]);
    assert_eq!(&buf[40..45], &[0x04, 0x83, 0x01, 0x11, 0x70]);
    assert_eq!(&buf[predicted..], &[0, 0, 0]);
    assert_eq!(Capsule::parse(&buf).unwrap(), capsule);
}

#[test]
fn length_fields_grow_with_the_length() {
    // up to 127 bytes the length takes one byte, then one more for each digit in base 256
    assert_eq!(Capsule::compute_serialized_len("", 0), Some(2 + 29 + 2 + 2));
    assert_eq!(Capsule::compute_serialized_len("", 92), Some(2 + 29 + 2 + 94));
    assert_eq!(Capsule::compute_serialized_len("", 94), Some(2 + 29 + 2 + 96));
    assert_eq!(Capsule::compute_serialized_len("", 95), Some(3 + 29 + 2 + 97));
    assert_eq!(Capsule::compute_serialized_len("", 127), Some(3 + 29 + 2 + 129));
    assert_eq!(Capsule::compute_serialized_len("", 128), Some(3 + 29 + 2 + 131));
    assert_eq!(Capsule::compute_serialized_len("", 255), Some(4 + 29 + 2 + 258));
    assert_eq!(Capsule::compute_serialized_len("", 256), Some(4 + 29 + 2 + 260));
    assert_eq!(Capsule::compute_serialized_len("", 65535), Some(5 + 29 + 2 + 65539));
    assert_eq!(Capsule::compute_serialized_len("", 65536), Some(5 + 29 + 2 + 65541));
    assert_eq!(Capsule::compute_serialized_len("Example.v1", 5), Some(50));
}

#[test]
fn a_length_that_cannot_be_counted_is_not_computed() {
    assert_eq!(Capsule::compute_serialized_len("Example.v1", usize::MAX), None);
    assert_eq!(Capsule::compute_serialized_len("Example.v1", usize::MAX - 9), None);
    // 10 bytes around the payload, 31 for the strings, 10 around the sequence
    assert_eq!(Capsule::compute_serialized_len("", usize::MAX - 50), None);
    assert_eq!(Capsule::compute_serialized_len("", usize::MAX - 51), Some(usize::MAX));
    assert_eq!(Capsule::compute_serialized_len("Example.v1", usize::MAX - 60), None);
    assert_eq!(Capsule::compute_serialized_len("Example.v1", usize::MAX - 61), Some(usize::MAX));
}

#[test]
fn serialize_refuses_a_short_buffer() {
    let capsule = example();
    let mut buf = vec![7u8; capsule.serialized_len() - 1];
    let err = capsule.serialize(&mut buf).unwrap_err();
    assert_eq!(err.kind, KyncErrorKind::IoError);
    assert!(buf.iter().all(|b| *b == 7));
}

#[test]
fn serialize_leaves_the_rest_of_the_buffer() {
    let capsule = example();
    let mut buf = vec![7u8; 60];
    assert_eq!(capsule.serialize(&mut buf), Ok(50));
    assert_eq!(buf[0], 0x30);
    assert_eq!(&buf[50..], &[7u8; 10]);
}

#[test]
fn parse_ignores_what_follows_the_capsule() {
    let capsule = example();
    let mut buf = vec![0xffu8; 64];
    capsule.clone().serialize(&mut buf).unwrap();
    assert_eq!(Capsule::parse(&buf).unwrap(), capsule);
}

#[test]
fn parse_rejects_empty_input() {
    assert_eq!(parse_error(&[]), KyncErrorKind::IoError);
}

#[test]
fn parse_rejects_an_empty_sequence() {
    assert_eq!(parse_error(&[0x30, 0]), KyncErrorKind::IoError);
}

#[test]
fn parse_rejects_what_is_not_a_sequence() {
    let mut bytes = sequence(&[
        object(0x0c, CAPSULE_V1.as_bytes()),
        object(0x0c, b"Example.v1"),
        object(0x04, &[1]),
    ]);
    assert!(Capsule::parse(&bytes).is_ok());
    bytes[0] = 0x31;
    assert_eq!(parse_error(&bytes), KyncErrorKind::IoError);
}

#[test]
fn parse_rejects_a_wrong_number_of_objects() {
    let version = object(0x0c, CAPSULE_V1.as_bytes());
    let uid = object(0x0c, b"Example.v1");
    let payload = object(0x04, &[1, 2, 3]);
    assert_eq!(parse_error(&sequence(&[version.clone()])), KyncErrorKind::IoError);
    assert_eq!(parse_error(&sequence(&[version.clone(), uid.clone()])), KyncErrorKind::IoError);
    assert_eq!(
        parse_error(&sequence(&[version.clone(), uid.clone(), payload.clone(), payload.clone()])),
        KyncErrorKind::IoError
    );
    assert!(Capsule::parse(&sequence(&[version, uid, payload])).is_ok());
}

#[test]
fn parse_rejects_another_version_as_unsupported() {
    let uid = object(0x0c, b"Example.v1");
    let payload = object(0x04, &[1, 2, 3]);
    let other = object(0x0c, b"de.KizzyCode.Kync.CapsuleV2");
    assert_eq!(
        parse_error(&sequence(&[other.clone(), uid.clone(), payload.clone()])),
        KyncErrorKind::Unsupported
    );
    // whatever the payload is
    assert_eq!(
        parse_error(&sequence(&[other.clone(), uid.clone(), object(0xff, &[])])),
        KyncErrorKind::Unsupported
    );
    // the version is looked at before the objects are counted
    assert_eq!(parse_error(&sequence(&[other.clone()])), KyncErrorKind::Unsupported);
    assert_eq!(
        parse_error(&sequence(&[other, uid.clone(), payload.clone(), payload.clone()])),
        KyncErrorKind::Unsupported
    );
    assert_eq!(
        parse_error(&sequence(&[object(0x0c, b""), uid, payload])),
        KyncErrorKind::Unsupported
    );
}

#[test]
fn parse_rejects_a_version_that_is_no_string() {
    let uid = object(0x0c, b"Example.v1");
    let payload = object(0x04, &[1, 2, 3]);
    assert_eq!(
        parse_error(&sequence(&[object(0x04, CAPSULE_V1.as_bytes()), uid.clone(), payload.clone()])),
        KyncErrorKind::IoError
    );
    assert_eq!(
        parse_error(&sequence(&[object(0x0c, &[0xff, 0xfe]), uid, payload])),
        KyncErrorKind::IoError
    );
}

#[test]
fn parse_rejects_a_format_uid_that_is_no_string() {
    let version = object(0x0c, CAPSULE_V1.as_bytes());
    let payload = object(0x04, &[1, 2, 3]);
    assert_eq!(
        parse_error(&sequence(&[version.clone(), object(0x04, b"Example.v1"), payload.clone()])),
        KyncErrorKind::IoError
    );
    assert_eq!(
        parse_error(&sequence(&[version, object(0x0c, &[b'a', 0xc3]), payload])),
        KyncErrorKind::IoError
    );
}

#[test]
fn parse_rejects_truncated_input() {
    let capsule = example();
    let mut buf = vec![0u8; 50];
    capsule.serialize(&mut buf).unwrap();
    for len in 0..50 {
        assert_eq!(parse_error(&buf[..len]), KyncErrorKind::IoError);
    }
}

#[test]
fn parse_rejects_objects_that_do_not_fill_the_sequence() {
    let mut bytes = sequence(&[
        object(0x0c, CAPSULE_V1.as_bytes()),
        object(0x0c, b"Example.v1"),
        object(0x04, &[1, 2, 3]),
    ]);
    // one more byte inside the sequence, after the payload
    bytes[1] += 1;
    bytes.push(0x04);
    assert_eq!(parse_error(&bytes), KyncErrorKind::IoError);
}

#[test]
fn parse_accepts_a_length_with_leading_zero_digits() {
    // the payload of 200 bytes, its length written in three digits instead of one
    let mut payload = vec![0x04u8, 0x83, 0, 0, 200];
    payload.extend_from_slice(&[9u8; 200]);
    let mut fields = object(0x0c, CAPSULE_V1.as_bytes());
    fields.extend_from_slice(&object(0x0c, b"F"));
    fields.extend_from_slice(&payload);
    let mut bytes = vec![0x30u8, 0x81, fields.len() as u8];
    bytes.extend_from_slice(&fields);
    let capsule = Capsule::parse(&bytes).unwrap();
    assert_eq!(capsule, Capsule::new("F".to_string(), Payload { tag: 0x04, data: vec![9u8; 200] }));
    // written again, the capsule is shorter by the two digits
    assert_eq!(capsule.serialized_len(), bytes.len() - 2);
}

#[test]
fn parse_rejects_a_long_length_below_128() {
    let mut fields = object(0x0c, CAPSULE_V1.as_bytes());
    fields.extend_from_slice(&object(0x0c, b"F"));
    fields.extend_from_slice(&[0x04, 0x81, 3, 1, 2, 3]);
    assert_eq!(parse_error(&object(0x30, &fields)), KyncErrorKind::IoError);
    // a length field without digits is a length of zero, and rejected alike
    let mut fields = object(0x0c, CAPSULE_V1.as_bytes());
    fields.extend_from_slice(&object(0x0c, b"F"));
    fields.extend_from_slice(&[0x04, 0x80]);
    assert_eq!(parse_error(&object(0x30, &fields)), KyncErrorKind::IoError);
}

#[test]
fn parse_reads_the_number_of_digits_from_the_low_four_bits() {
    // 0x91 is read as 0x81: one digit follows
    let mut payload = vec![0x04u8, 0x91, 130];
    payload.extend_from_slice(&[5u8; 130]);
    let mut fields = object(0x0c, CAPSULE_V1.as_bytes());
    fields.extend_from_slice(&object(0x0c, b"F"));
    fields.extend_from_slice(&payload);
    let mut bytes = vec![0x30u8, 0x81, fields.len() as u8];
    bytes.extend_from_slice(&fields);
    let capsule = Capsule::parse(&bytes).unwrap();
    assert_eq!(capsule.plugin_payload().data, vec![5u8; 130]);
}

#[test]
fn parse_rejects_a_length_of_more_digits_than_usize_has() {
    let mut bytes = vec![0x30u8, 0x80 + 9];
    bytes.extend_from_slice(&[0u8; 8]);
    bytes.push(200);
    bytes.extend_from_slice(&[0u8; 200]);
    assert_eq!(parse_error(&bytes), KyncErrorKind::IoError);
}
