use kync::capsule::{Capsule, Payload, CAPSULE_V1};
use kync::error::KyncErrorKind;

/// One object from the start of `bytes`: its tag, its value, and what follows it.
fn model_object(bytes: &[u8]) -> Option<(u8, &[u8], &[u8])> {
    let (&tag, rest) = bytes.split_first()?;
    let (&first, rest) = rest.split_first()?;
    let (len, rest) = if first < 128 {
        (first as usize, rest)
    } else {
        let digits = (first % 16) as usize;
        if digits > std::mem::size_of::<usize>() || rest.len() < digits {
            return None;
        }
        let len = rest[..digits].iter().fold(0usize, |len, digit| (len << 8) | *digit as usize);
        if len < 128 {
            return None;
        }
        (len, &rest[digits..])
    };
    if rest.len() < len {
        return None;
    }
    Some((tag, &rest[..len], &rest[len..]))
}

fn model_text(tag: u8, value: &[u8]) -> Option<String> {
    if tag != 0x0c {
        return None;
    }
    String::from_utf8(value.to_vec()).ok()
}

fn model_parse(data: &[u8]) -> Result<(String, u8, Vec<u8>), KyncErrorKind> {
    let (tag, mut fields, _) = model_object(data).ok_or(KyncErrorKind::IoError)?;
    if tag != 0x30 {
        return Err(KyncErrorKind::IoError);
    }
    let mut objects = Vec::new();
    while !fields.is_empty() {
        let (tag, value, rest) = model_object(fields).ok_or(KyncErrorKind::IoError)?;
        objects.push((tag, value));
        fields = rest;
    }
    let (tag, value) = *objects.first().ok_or(KyncErrorKind::IoError)?;
    let version = model_text(tag, value).ok_or(KyncErrorKind::IoError)?;
    if version != CAPSULE_V1 {
        return Err(KyncErrorKind::Unsupported);
    }
    if objects.len() != 3 {
        return Err(KyncErrorKind::IoError);
    }
    let uid = model_text(objects[1].0, objects[1].1).ok_or(KyncErrorKind::IoError)?;
    Ok((uid, objects[2].0, objects[2].1.to_vec()))
}

/// A small generator of numbers that repeats itself from run to run.
struct Numbers(u64);

impl Numbers {
    fn next(&mut self) -> u64 {
        self.0 = self.0.wrapping_mul(6364136223846793005).wrapping_add(1442695040888963407);
        self.0 >> 33
    }

    fn below(&mut self, n: u64) -> u64 {
        self.next() % n
    }

    /// A byte that is likely to matter to a reader.
    fn byte(&mut self) -> u8 {
        const LIKELY: [u8; 16] = [
            0x30, 0x0c, 0x04, 0x00, 0x01, 0x02, 0x03, 0x1b, 0x7f, 0x80, 0x81, 0x82, 0x88, 0x89,
            0x91, 0xff,
        ];
        if self.below(4) == 0 {
            self.next() as u8
        } else {
            LIKELY[self.below(16) as usize]
        }
    }

    fn bytes(&mut self, max: u64) -> Vec<u8> {
        let len = self.below(max + 1);
        (0..len).map(|_| self.byte()).collect()
    }

    /// A length field for `len`, sometimes with more digits than needed.
    fn length(&mut self, len: usize) -> Vec<u8> {
        let mut digits: Vec<u8> = len.to_be_bytes().iter().copied().skip_while(|d| *d == 0).collect();
        match self.below(6) {
            0 if len >= 128 => {
                digits.insert(0, 0);
            }
            1 if len >= 128 => {
                let mut field = vec![0x90 + digits.len() as u8];
                field.extend_from_slice(&digits);
                return field;
            }
            2 => {
                let mut field = vec![0x80 + digits.len() as u8];
                field.extend_from_slice(&digits);
                return field;
            }
            _ => {}
        }
        if len < 128 {
            vec![len as u8]
        } else {
            let mut field = vec![0x80 + digits.len() as u8];
            field.extend_from_slice(&digits);
            field
        }
    }

    fn object(&mut self, tag: u8, value: &[u8]) -> Vec<u8> {
        let mut object = vec![tag];
        object.extend_from_slice(&self.length(value.len()));
        object.extend_from_slice(value);
        object
    }

    /// Bytes that are nearly a capsule.
    fn nearly_a_capsule(&mut self) -> Vec<u8> {
        let version: &[u8] = match self.below(8) {
            0 => b"de.KizzyCode.Kync.CapsuleV2",
            1 => b"",
            _ => CAPSULE_V1.as_bytes(),
        };
        let string_tag = |n: u64| if n == 0 { 0x04 } else { 0x0c };
        let mut fields = Vec::new();
        let version_tag = string_tag(self.below(10));
        fields.extend(self.object(version_tag, version));
        let count = match self.below(6) {
            0 => 0,
            1 => 1,
            2 => 3,
            _ => 2,
        };
        for i in 0..count {
            let tag = if i == 0 { string_tag(self.below(10)) } else { self.byte() };
            let value = if self.below(5) == 0 { self.bytes(300) } else { b"Format.v1".to_vec() };
            fields.extend(self.object(tag, &value));
        }
        if self.below(10) == 0 {
            fields.extend(self.bytes(3));
        }
        let outer = if self.below(12) == 0 { 0x31 } else { 0x30 };
        let mut capsule = self.object(outer, &fields);
        match self.below(10) {
            0 => {
                let keep = self.below(capsule.len() as u64 + 1) as usize;
                capsule.truncate(keep);
            }
            1 => capsule.extend(self.bytes(5)),
            2 if !capsule.is_empty() => {
                let at = self.below(capsule.len() as u64) as usize;
                capsule[at] = self.byte();
            }
            _ => {}
        }
        capsule
    }
}

fn compare(data: &[u8]) {
    let expected = model_parse(data);
    match Capsule::parse(data) {
        Ok(capsule) => {
            let (uid, tag, payload) = expected.expect("the capsule was to be rejected");
            assert_eq!(capsule, Capsule::new(uid, Payload { tag, data: payload }));
            // the capsule is written again in no more bytes than it was read from
            let mut buf = vec![0u8; data.len()];
            let written = capsule.clone().serialize(&mut buf).unwrap();
            assert_eq!(written, capsule.serialized_len());
            assert_eq!(Capsule::parse(&buf[..written]), Ok(capsule));
        }
        Err(e) => {
            assert_eq!(Err(e.kind), expected);
            assert_eq!(e.description, None);
        }
    }
}

#[test]
fn parse_agrees_with_the_format_on_arbitrary_bytes() {
    let mut numbers = Numbers(0x5eed);
    for _ in 0..20000 {
        compare(&numbers.bytes(24));
    }
}

#[test]
fn parse_agrees_with_the_format_on_bytes_that_are_nearly_a_capsule() {
    let mut numbers = Numbers(0xc0ffee);
    let mut accepted = 0;
    let mut unsupported = 0;
    for _ in 0..20000 {
        let data = numbers.nearly_a_capsule();
        match model_parse(&data) {
            Ok(_) => accepted += 1,
            Err(KyncErrorKind::Unsupported) => unsupported += 1,
            Err(_) => {}
        }
        compare(&data);
    }
    assert!(accepted > 1000);
    assert!(unsupported > 200);
}
