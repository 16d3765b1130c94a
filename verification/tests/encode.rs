use jbcrs::basic::parser::decode::Decoder;
use jbcrs::basic::writer::encode::Encoder;

#[test]
fn encoder_starts_empty() {
    let encoder = Encoder::new();
    assert_eq!(encoder.len(), 0);
    assert_eq!(encoder.bytes(), Vec::<u8>::new());
    let sized = Encoder::with_capacity(32);
    assert_eq!(sized.len(), 0);
}

#[test]
fn write_unsigned() {
    let mut encoder = Encoder::new();
    encoder.write_u8(0xAB);
    encoder.write_u16(0xCAFE);
    encoder.write_u32(0xCAFEBABE);
    encoder.write_u64(0x0102030405060708);
    encoder.write_bytes(&[9, 10]);
    assert_eq!(encoder.len(), 17);
    assert_eq!(
        encoder.bytes(),
        vec![0xAB, 0xCA, 0xFE, 0xCA, 0xFE, 0xBA, 0xBE, 1, 2, 3, 4, 5, 6, 7, 8, 9, 10]
    );
}

#[test]
fn write_signed() {
    let mut encoder = Encoder::new();
    encoder.write_i8(-1);
    encoder.write_i8(-128);
    encoder.write_i8(5);
    encoder.write_i16(-0x0ABB);
    encoder.write_i32(-0x35014542);
    encoder.write_i64(-0x5AFEBABE_CAFED00D);
    assert_eq!(
        encoder.bytes(),
        vec![
            0xFF, 0x80, 0x05, 0xF5, 0x45, 0xCA, 0xFE, 0xBA, 0xBE, 0xA5, 0x01, 0x45, 0x41, 0x35,
            0x01, 0x2F, 0xF3
        ]
    );
    let mut encoder = Encoder::new();
    encoder.write_i16(i16::MIN);
    encoder.write_i32(i32::MIN);
    encoder.write_i64(i64::MIN);
    encoder.write_i16(0x00FE);
    assert_eq!(
        encoder.bytes(),
        vec![0x80, 0, 0x80, 0, 0, 0, 0x80, 0, 0, 0, 0, 0, 0, 0, 0x00, 0xFE]
    );
}

#[test]
fn write_floats_by_their_bits() {
    let mut encoder = Encoder::new();
    encoder.write_f32(1.0f32.to_bits());
    encoder.write_f64(1.0f64.to_bits());
    assert_eq!(encoder.bytes(), vec![0x3F, 0x80, 0, 0, 0x3F, 0xF0, 0, 0, 0, 0, 0, 0]);
}

#[test]
fn write_str_modified_utf8() {
    let mut encoder = Encoder::new();
    encoder.write_str("\u{0}");
    assert_eq!(encoder.bytes(), vec![0xC0, 0x80]);

    let mut encoder = Encoder::new();
    encoder.write_str("\u{1F600}");
    assert_eq!(encoder.bytes(), vec![0xED, 0xA0, 0xBD, 0xED, 0xB8, 0x80]);

    let mut encoder = Encoder::new();
    encoder.write_str("A\u{7F}\u{80}\u{7FF}\u{800}\u{FFFF}\u{10000}\u{10FFFF}");
    assert_eq!(
        encoder.bytes(),
        vec![
            0x41, 0x7F, 0xC2, 0x80, 0xDF, 0xBF, 0xE0, 0xA0, 0x80, 0xEF, 0xBF, 0xBF, 0xED, 0xA0,
            0x80, 0xED, 0xB0, 0x80, 0xED, 0xAF, 0xBF, 0xED, 0xBF, 0xBF
        ]
    );

    let mut encoder = Encoder::new();
    encoder.write_str("");
    assert_eq!(encoder.len(), 0);
}

#[test]
fn strings_are_read_as_they_were_written() {
    let samples = [
        "",
        "Hello, world!",
        "\u{0}",
        "a\u{0}b",
        "\u{E4}\u{F6}\u{FC}",
        "\u{20AC}",
        "\u{D7FF}\u{E000}",
        "\u{1F600}",
        "x\u{10000}y\u{10FFFF}z",
        "java/lang/String",
    ];
    for sample in samples.iter() {
        let mut encoder = Encoder::new();
        encoder.write_str(sample);
        let bytes = encoder.bytes();
        let mut decoder = Decoder::new(&bytes);
        assert_eq!(decoder.read_str(bytes.len()).unwrap(), *sample);
        assert_eq!(decoder.cursor(), bytes.len());
    }
}

#[test]
fn numbers_are_read_as_they_were_written() {
    let mut encoder = Encoder::new();
    encoder.write_u16(0xBEEF);
    encoder.write_i16(-2);
    encoder.write_u32(0xDEADBEEF);
    encoder.write_i32(-3);
    encoder.write_u64(0xDEADBEEF_CAFEBABE);
    encoder.write_i64(-4);
    encoder.write_i8(-5);
    let bytes = encoder.bytes();
    let mut decoder = Decoder::new(&bytes);
    assert_eq!(decoder.read_u16().unwrap(), 0xBEEF);
    assert_eq!(decoder.read_i16().unwrap(), -2);
    assert_eq!(decoder.read_u32().unwrap(), 0xDEADBEEF);
    assert_eq!(decoder.read_i32().unwrap(), -3);
    assert_eq!(decoder.read_u64().unwrap(), 0xDEADBEEF_CAFEBABE);
    assert_eq!(decoder.read_i64().unwrap(), -4);
    assert_eq!(decoder.read_i8().unwrap(), -5);
    assert!(decoder.at_limit());
}
