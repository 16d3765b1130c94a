use jbcrs::basic::parser::decode::Decoder;
use jbcrs::basic::Error;

#[test]
fn read_str() {
    let mut decoder = Decoder::new("Hello, world!".as_bytes());
    assert_eq!(decoder.read_str(13).unwrap(), "Hello, world!".to_owned());
}

#[test]
fn read_u8() {
    let mut decoder = Decoder::new(&[0xAA, 0xBB, 0xCC]);
    assert_eq!(decoder.read_u8().unwrap(), 0xAA);
    assert_eq!(decoder.read_u8().unwrap(), 0xBB);
    assert_eq!(decoder.read_u8().unwrap(), 0xCC);
    assert_eq!(decoder.read_u8(), Err(Error::LimitExceeded));
    assert_eq!(Decoder::new(&[0]).read_u8().unwrap(), 0);
    assert_eq!(Decoder::new(&[0xFF]).read_u8().unwrap(), 0xFF);
}

#[test]
fn read_u16() {
    assert_eq!(Decoder::new(&[0x00, 0xFE]).read_u16().unwrap(), 0x00FE);
    assert_eq!(Decoder::new(&[0xAA, 0xBB]).read_u16().unwrap(), 0xAABB);
    let mut decoder = Decoder::new(&[0xFF, 0xFF, 0xCA, 0xFE, 0x01]);
    assert_eq!(decoder.read_u16().unwrap(), 0xFFFF);
    assert_eq!(decoder.read_u16().unwrap(), 0xCAFE);
    assert_eq!(decoder.read_u16(), Err(Error::LimitExceeded));
    assert_eq!(decoder.cursor(), 4);
}

#[test]
fn read_u32() {
    assert_eq!(Decoder::new(&[0x00, 0xFE, 0x00, 0xAB]).read_u32().unwrap(), 0x00FE00AB);
    assert_eq!(Decoder::new(&[0xCA, 0xFE, 0xBA, 0xBE]).read_u32().unwrap(), 0xCAFEBABE);
    assert_eq!(Decoder::new(&[0x00, 0x00, 0x00, 0x00]).read_u32().unwrap(), 0);
    assert_eq!(Decoder::new(&[0xFF, 0xFF, 0xFF, 0xFF]).read_u32().unwrap(), 0xFFFFFFFF);
    assert_eq!(Decoder::new(&[0xFF, 0xFF, 0xFF]).read_u32(), Err(Error::LimitExceeded));
    assert_eq!(Decoder::new(&[0x3F, 0x80, 0x00, 0x00]).read_f32().unwrap(), 1.0f32.to_bits());
}

#[test]
fn read_u64() {
    assert_eq!(
        Decoder::new(&[0x00, 0xFE, 0x00, 0xAB, 0xCD, 0x00, 0xEF, 0x00]).read_u64().unwrap(),
        0x00FE00AB_CD00EF00
    );
    assert_eq!(
        Decoder::new(&[0xCA, 0xFE, 0xBA, 0xBE, 0xCA, 0xFE, 0xD0, 0x0D]).read_u64().unwrap(),
        0xCAFEBABE_CAFED00D
    );
    assert_eq!(Decoder::new(&[0; 8]).read_u64().unwrap(), 0);
    assert_eq!(Decoder::new(&[0xFF; 8]).read_u64().unwrap(), 0xFFFFFFFF_FFFFFFFF);
    assert_eq!(Decoder::new(&[0xFF; 7]).read_u64(), Err(Error::LimitExceeded));
    assert_eq!(
        Decoder::new(&[0x3F, 0xF0, 0, 0, 0, 0, 0, 0]).read_f64().unwrap(),
        1.0f64.to_bits()
    );
}

#[test]
fn read_i8() {
    assert_eq!(Decoder::new(&[0]).read_i8().unwrap(), 0);
    assert_eq!(Decoder::new(&[5]).read_i8().unwrap(), 5);
    assert_eq!(Decoder::new(&[0xFF]).read_i8().unwrap(), -1);
    assert_eq!(Decoder::new(&[0x80]).read_i8().unwrap(), -128);
    assert_eq!(Decoder::new(&[0x7F]).read_i8().unwrap(), 127);
}

#[test]
fn read_i16() {
    assert_eq!(Decoder::new(&[0x00, 0xFE]).read_i16().unwrap(), 0x00FE);
    assert_eq!(Decoder::new(&[0xF5, 0x45]).read_i16().unwrap(), -0x0ABB);
    let mut decoder = Decoder::new(&[0x80, 0xFF, 0xCA, 0xFE]);
    assert_eq!(decoder.read_i16().unwrap(), -0x7F01);
    assert_eq!(decoder.read_i16().unwrap(), -0x3502);
    assert_eq!(Decoder::new(&[0x80, 0x00]).read_i16().unwrap(), i16::MIN);
}

#[test]
fn read_i32() {
    assert_eq!(Decoder::new(&[0xFF, 0x01, 0xFF, 0x55]).read_i32().unwrap(), -0x00FE00AB);
    assert_eq!(Decoder::new(&[0xCA, 0xFE, 0xBA, 0xBE]).read_i32().unwrap(), -0x35014542);
    assert_eq!(Decoder::new(&[0xFF, 0xFF, 0xFF, 0xFF]).read_i32().unwrap(), -1);
    assert_eq!(Decoder::new(&[0x00, 0x00, 0x00, 0x00]).read_i32().unwrap(), 0);
    assert_eq!(Decoder::new(&[0x80, 0x00, 0x00, 0x00]).read_i32().unwrap(), i32::MIN);
}

#[test]
fn read_i64() {
    assert_eq!(
        Decoder::new(&[0xA0, 0xFE, 0x00, 0xAB, 0xCD, 0x00, 0xEF, 0x00]).read_i64().unwrap(),
        -0x5F01FF54_32FF1100
    );
    assert_eq!(
        Decoder::new(&[0xA5, 0x01, 0x45, 0x41, 0x35, 0x01, 0x2F, 0xF3]).read_i64().unwrap(),
        -0x5AFEBABE_CAFED00D
    );
    assert_eq!(Decoder::new(&[0; 8]).read_i64().unwrap(), 0);
    assert_eq!(
        Decoder::new(&[0x7F, 0xFF, 0xFF, 0xFF, 0xFF, 0xFF, 0xFF, 0xFF]).read_i64().unwrap(),
        0x7FFFFFFF_FFFFFFFF
    );
    assert_eq!(Decoder::new(&[0x80, 0, 0, 0, 0, 0, 0, 0]).read_i64().unwrap(), i64::MIN);
}

#[test]
fn read_bytes_and_skip() {
    let bytes = [1, 2, 3, 4, 5];
    let mut decoder = Decoder::new(&bytes);
    assert_eq!(decoder.cursor(), 0);
    assert_eq!(decoder.read_bytes(2).unwrap(), &[1, 2]);
    assert_eq!(decoder.cursor(), 2);
    assert_eq!(decoder.skip(2), Ok(()));
    assert_eq!(decoder.cursor(), 4);
    assert_eq!(decoder.read_bytes(2), Err(Error::LimitExceeded));
    assert_eq!(decoder.skip(2), Err(Error::LimitExceeded));
    assert_eq!(decoder.skip(usize::MAX), Err(Error::LimitExceeded));
    assert_eq!(decoder.cursor(), 4);
    assert_eq!(decoder.read_bytes(0).unwrap(), &[] as &[u8]);
    assert!(!decoder.at_limit());
    assert_eq!(decoder.read_bytes(1).unwrap(), &[5]);
    assert!(decoder.at_limit());
}

#[test]
fn limit_must_be_consumed_exactly() {
    let bytes = [1, 2, 3, 4, 5, 6];
    let mut decoder = Decoder::new(&bytes);
    decoder.read_u8().unwrap();
    let outer = decoder.limit(3).unwrap();
    assert_eq!(outer, &bytes);
    assert_eq!(decoder.cursor(), 1);
    assert_eq!(decoder.read_u16().unwrap(), 0x0203);
    assert_eq!(decoder.read_u16(), Err(Error::LimitExceeded));
    assert_eq!(decoder.read_u8().unwrap(), 4);
    assert_eq!(decoder.remove_limit(outer), Ok(()));
    assert_eq!(decoder.cursor(), 4);
    let outer = decoder.limit(2).unwrap();
    assert_eq!(decoder.read_u8().unwrap(), 5);
    // one byte is left
    assert_eq!(decoder.remove_limit(outer), Err(Error::LimitExceeded));
    let mut decoder = Decoder::new(&bytes);
    assert!(decoder.limit(7).is_err());
    assert!(decoder.limit(usize::MAX).is_err());
    assert_eq!(decoder.cursor(), 0);
    let outer = decoder.limit(0).unwrap();
    assert_eq!(decoder.remove_limit(outer), Ok(()));
    assert_eq!(Decoder::new(&bytes).remove_limit(&bytes), Err(Error::LimitExceeded));
}

#[test]
fn limit_shares_the_cursor() {
    let bytes = [1, 2, 3, 4, 5, 6];
    let mut decoder = Decoder::new(&bytes);
    decoder.skip(1).unwrap();
    // a limit leaves the cursor where it is
    let outer = decoder.limit(4).unwrap();
    assert_eq!(decoder.cursor(), 1);
    // reads within the limit move the one cursor
    assert_eq!(decoder.read_u16().unwrap(), 0x0203);
    assert_eq!(decoder.cursor(), 3);
    assert!(!decoder.at_limit());
    // a limit that was not consumed fails, and the cursor stays
    assert_eq!(decoder.remove_limit(outer), Err(Error::LimitExceeded));
    assert_eq!(decoder.cursor(), 3);
    // behind it the outer bytes are read again
    assert_eq!(decoder.read_bytes(3).unwrap(), &[4, 5, 6]);
    assert!(decoder.at_limit());
    // a limit that cannot be had changes nothing
    let mut decoder = Decoder::new(&bytes);
    decoder.skip(2).unwrap();
    assert_eq!(decoder.limit(5).err(), Some(Error::LimitExceeded));
    assert_eq!(decoder.cursor(), 2);
    assert_eq!(decoder.read_u32().unwrap(), 0x03040506);
    // limits within limits
    let mut decoder = Decoder::new(&bytes);
    let first = decoder.limit(5).unwrap();
    decoder.skip(1).unwrap();
    let second = decoder.limit(2).unwrap();
    assert_eq!(decoder.read_u32(), Err(Error::LimitExceeded));
    assert_eq!(decoder.read_u16().unwrap(), 0x0203);
    assert_eq!(decoder.remove_limit(second), Ok(()));
    assert_eq!(decoder.read_u16().unwrap(), 0x0405);
    assert_eq!(decoder.read_u8(), Err(Error::LimitExceeded));
    assert_eq!(decoder.remove_limit(first), Ok(()));
    assert_eq!(decoder.read_u8().unwrap(), 6);
    // bytes that end before the cursor are not taken
    let mut decoder = Decoder::new(&bytes);
    decoder.skip(4).unwrap();
    assert_eq!(decoder.remove_limit(&bytes[..2]), Err(Error::LimitExceeded));
    assert_eq!(decoder.cursor(), 4);
    assert_eq!(decoder.read_u16().unwrap(), 0x0506);
}

#[test]
fn failed_reads_leave_the_cursor() {
    let bytes = [1, 2, 3];
    let mut decoder = Decoder::new(&bytes);
    decoder.read_u8().unwrap();
    assert_eq!(decoder.skip(3), Err(Error::LimitExceeded));
    assert_eq!(decoder.cursor(), 1);
    assert_eq!(decoder.read_bytes(3).err(), Some(Error::LimitExceeded));
    assert_eq!(decoder.cursor(), 1);
    assert_eq!(decoder.read_u32(), Err(Error::LimitExceeded));
    assert_eq!(decoder.read_i32(), Err(Error::LimitExceeded));
    assert_eq!(decoder.read_u64(), Err(Error::LimitExceeded));
    assert_eq!(decoder.read_i64(), Err(Error::LimitExceeded));
    assert_eq!(decoder.read_f32(), Err(Error::LimitExceeded));
    assert_eq!(decoder.read_f64(), Err(Error::LimitExceeded));
    assert_eq!(decoder.cursor(), 1);
    assert_eq!(decoder.read_u16().unwrap(), 0x0203);
    assert_eq!(decoder.read_u16(), Err(Error::LimitExceeded));
    assert_eq!(decoder.read_i16(), Err(Error::LimitExceeded));
    assert_eq!(decoder.read_u8(), Err(Error::LimitExceeded));
    assert_eq!(decoder.read_i8(), Err(Error::LimitExceeded));
    assert_eq!(decoder.cursor(), 3);
}

#[test]
fn read_str_modified_utf8() {
    // U+0000 takes two bytes
    assert_eq!(Decoder::new(&[0xC0, 0x80]).read_str(2).unwrap(), "\u{0}");
    // a plain zero byte is no char
    assert_eq!(Decoder::new(&[0x00]).read_str(1), Err(Error::InvalidUTF8));
    // two and three bytes
    assert_eq!(Decoder::new(&[0xC3, 0xA4]).read_str(2).unwrap(), "\u{E4}");
    assert_eq!(Decoder::new(&[0xE2, 0x82, 0xAC]).read_str(3).unwrap(), "\u{20AC}");
    // a pair of surrogates in six bytes
    assert_eq!(
        Decoder::new(&[0xED, 0xA0, 0xBD, 0xED, 0xB8, 0x80]).read_str(6).unwrap(),
        "\u{1F600}"
    );
    assert_eq!(
        Decoder::new(&[0x61, 0xED, 0xAF, 0xBF, 0xED, 0xBF, 0xBF, 0x62]).read_str(8).unwrap(),
        "a\u{10FFFF}b"
    );
    // the empty string
    assert_eq!(Decoder::new(&[0x61]).read_str(0).unwrap(), "");
}

#[test]
fn read_str_rejects_malformed_input() {
    // four bytes in the manner of UTF-8
    assert_eq!(Decoder::new(&[0xF0, 0x9F, 0x98, 0x80]).read_str(4), Err(Error::InvalidUTF8));
    // a continuation byte at the start
    assert_eq!(Decoder::new(&[0x80]).read_str(1), Err(Error::InvalidUTF8));
    // a group that the length cuts off
    assert_eq!(Decoder::new(&[0xC3, 0xA4]).read_str(1), Err(Error::InvalidUTF8));
    assert_eq!(Decoder::new(&[0xE2, 0x82, 0xAC]).read_str(2), Err(Error::InvalidUTF8));
    assert_eq!(
        Decoder::new(&[0xED, 0xA0, 0xBD, 0xED, 0xB8, 0x80]).read_str(5),
        Err(Error::InvalidUTF8)
    );
    // a low surrogate alone
    assert_eq!(Decoder::new(&[0xED, 0xB0, 0x80]).read_str(3), Err(Error::InvalidUTF8));
    // the input ends before the length
    assert_eq!(Decoder::new(&[0x61]).read_str(2), Err(Error::LimitExceeded));
    assert_eq!(Decoder::new(&[0xC3]).read_str(2), Err(Error::LimitExceeded));
    assert_eq!(Decoder::new(&[0xE2, 0x82]).read_str(3), Err(Error::LimitExceeded));
}
