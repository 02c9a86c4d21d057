use bytecode::{
    parse_short_num, BytecodeAddrToken, CompilerError, LabelAddrToken, Literal, Operand, ToBytes,
};

#[test]
fn test_encode_string() {
    assert_eq!(
        Operand::String("Hello World".into()).to_bytes(),
        vec![0, 11, 72, 101, 108, 108, 111, 32, 87, 111, 114, 108, 100]
    );
}

#[test]
fn test_encode_registers_array() {
    assert_eq!(Operand::RegistersArray(vec![]).to_bytes(), vec![0]);
    assert_eq!(Operand::RegistersArray(vec![1, 2, 200]).to_bytes(), vec![3, 1, 2, 200]);
}

#[test]
fn test_encode_long_num() {
    assert_eq!(
        Operand::LongNum(1234567890123456789).to_bytes(),
        vec![0x11, 0x22, 0x10, 0xf4, 0x7d, 0xe9, 0x81, 0x15]
    );

    assert_eq!(
        Operand::LongNum(-1234567890123456789 as i64).to_bytes(),
        vec![0xEE, 0xDD, 0xEF, 0x0B, 0x82, 0x16, 0x7E, 0xEB]
    )
}

#[test]
fn test_encode_float_num() {
    assert_eq!(
        Operand::FloatNum(0.12345f64.to_bits()).to_bytes(),
        vec![63, 191, 154, 107, 80, 176, 242, 124]
    );

    assert_eq!(
        Operand::FloatNum((-1.1234f64).to_bits()).to_bytes(),
        vec![191, 241, 249, 114, 71, 69, 56, 239]
    )
}

#[test]
fn test_short_num_and_reg_are_one_byte() {
    assert_eq!(Operand::ShortNum(0).to_bytes(), vec![0]);
    assert_eq!(Operand::ShortNum(255).to_bytes(), vec![255]);
    assert_eq!(Operand::Reg(0).to_bytes(), vec![0]);
    assert_eq!(Operand::Reg(151).to_bytes(), vec![151]);
}

#[test]
fn test_string_length_prefix_is_big_endian() {
    let empty = Operand::String(String::new()).to_bytes();
    assert_eq!(empty, vec![0, 0]);

    let text = "a".repeat(255);
    let encoded = Operand::String(text.clone()).to_bytes();
    assert_eq!(&encoded[..2], &[0, 255]);
    assert_eq!(&encoded[2..], text.as_bytes());

    let text = "b".repeat(256);
    let encoded = Operand::String(text.clone()).to_bytes();
    assert_eq!(&encoded[..2], &[1, 0]);
    assert_eq!(&encoded[2..], text.as_bytes());

    let text = "c".repeat(0x1234);
    let encoded = Operand::String(text.clone()).to_bytes();
    assert_eq!(&encoded[..2], &[0x12, 0x34]);
    assert_eq!(encoded.len(), 2 + 0x1234);
    assert_eq!(&encoded[2..], text.as_bytes());
}

#[test]
fn test_string_round_trip_of_length_and_content() {
    for length in [0usize, 1, 2, 127, 128, 255, 256, 257, 4095, 65534, 65535] {
        let text = "x".repeat(length);
        let operand = Operand::String(text.clone());
        assert!(operand.is_encodable());
        let encoded = operand.to_bytes();
        let announced = 256 * encoded[0] as usize + encoded[1] as usize;
        assert_eq!(announced, length);
        assert_eq!(&encoded[2..], text.as_bytes());
    }
}

#[test]
fn test_string_length_counts_bytes() {
    let text = "h\u{e9}llo \u{20ac} \u{1f600}";
    assert_eq!(text.chars().count(), 9);
    assert_eq!(text.len(), 15);
    let encoded = Operand::String(text.to_string()).to_bytes();
    assert_eq!(&encoded[..2], &[0, 15]);
    assert_eq!(&encoded[2..], text.as_bytes());
    assert_eq!(std::str::from_utf8(&encoded[2..]).unwrap(), text);
}

#[test]
fn test_string_limit() {
    assert!(Operand::String("y".repeat(65535)).is_encodable());
    assert!(!Operand::String("y".repeat(65536)).is_encodable());
    // 32768 characters of two bytes each: 65536 bytes.
    assert!(!Operand::String("\u{e9}".repeat(32768)).is_encodable());
    assert!(Operand::String("\u{e9}".repeat(32767)).is_encodable());
    let encoded = Operand::String("y".repeat(65535)).to_bytes();
    assert_eq!(&encoded[..2], &[255, 255]);
    assert_eq!(encoded.len(), 65537);
}

#[test]
fn test_encode_string_directly() {
    assert_eq!(Operand::encode_string("ab".to_string()), vec![0, 2, 97, 98]);
    assert_eq!(Operand::str("ab".to_string()), Operand::String("ab".to_string()));
}

#[test]
fn test_registers_array_limit() {
    let registers: Vec<u8> = (0..255).map(|i| i as u8).collect();
    let operand = Operand::RegistersArray(registers.clone());
    assert!(operand.is_encodable());
    let encoded = operand.to_bytes();
    assert_eq!(encoded.len(), 256);
    assert_eq!(encoded[0], 255);
    assert_eq!(&encoded[1..], &registers[..]);

    assert!(!Operand::RegistersArray(vec![0; 256]).is_encodable());
    assert_eq!(Operand::encode_registers_array(&[9, 8]), vec![2, 9, 8]);
}

#[test]
fn test_long_num_is_big_endian_twos_complement() {
    assert_eq!(Operand::LongNum(0).to_bytes(), vec![0; 8]);
    assert_eq!(Operand::LongNum(1).to_bytes(), vec![0, 0, 0, 0, 0, 0, 0, 1]);
    assert_eq!(Operand::LongNum(256).to_bytes(), vec![0, 0, 0, 0, 0, 0, 1, 0]);
    assert_eq!(Operand::LongNum(-1).to_bytes(), vec![255; 8]);
    assert_eq!(Operand::LongNum(-2).to_bytes(), vec![255, 255, 255, 255, 255, 255, 255, 254]);
    assert_eq!(Operand::LongNum(i64::MAX).to_bytes(), vec![127, 255, 255, 255, 255, 255, 255, 255]);
    assert_eq!(Operand::LongNum(i64::MIN).to_bytes(), vec![128, 0, 0, 0, 0, 0, 0, 0]);
    for number in [0i64, 1, -1, 42, -42, 1 << 40, -(1 << 40), i64::MAX, i64::MIN] {
        assert_eq!(Operand::LongNum(number).to_bytes(), number.to_be_bytes().to_vec());
        assert_eq!(Operand::LongNum(number).to_bytes(), Operand::encode_long_num(number as u64));
    }
}

#[test]
fn test_long_num_negation_complements_and_increments() {
    for number in [0i64, 1, -1, 5, -77, 1234567890123456789, i64::MAX, i64::MIN + 1] {
        let plain = Operand::LongNum(number).to_bytes();
        let negated = Operand::LongNum(-number).to_bytes();
        let mut array = [0u8; 8];
        array.copy_from_slice(&plain);
        let complemented: Vec<u8> = plain.iter().map(|byte| !byte).collect();
        assert_eq!(Operand::encode_long_num(!u64::from_be_bytes(array)), complemented);
        let expected = (!u64::from_be_bytes(array)).wrapping_add(1);
        assert_eq!(negated, Operand::encode_long_num(expected));
    }
}

#[test]
fn test_encode_long_num_directly() {
    assert_eq!(
        Operand::encode_long_num(0x0102030405060708),
        vec![1, 2, 3, 4, 5, 6, 7, 8]
    );
    assert_eq!(Operand::encode_long_num(u64::MAX), vec![255; 8]);
    assert_eq!(Operand::encode_float_num(0x0102030405060708), vec![1, 2, 3, 4, 5, 6, 7, 8]);
}

#[test]
fn test_float_num_encodes_as_long_num_of_its_bits() {
    let numbers =
        [0.0f64, -0.0, 1.0, -1.5, 0.12345, f64::MAX, f64::MIN_POSITIVE, f64::INFINITY, f64::NAN];
    for number in numbers {
        let bits = number.to_bits();
        assert_eq!(
            Operand::FloatNum(bits).to_bytes(),
            Operand::LongNum(bits as i64).to_bytes()
        );
        assert_eq!(Operand::FloatNum(bits).to_bytes(), number.to_be_bytes().to_vec());
    }
}

#[test]
fn test_addresses_keep_an_empty_slot() {
    assert_eq!(Operand::function_addr("main".to_string()).to_bytes(), vec![0; 8]);
    assert_eq!(Operand::branch_addr(7).to_bytes(), vec![0; 8]);
    assert_eq!(
        Operand::function_addr("main".to_string()),
        Operand::FunctionAddr(BytecodeAddrToken { ident: "main".to_string() })
    );
    assert_eq!(Operand::branch_addr(7), Operand::BranchAddr(LabelAddrToken { label: 7 }));
    assert_eq!(BytecodeAddrToken { ident: "f".to_string() }.to_bytes(), vec![0; 8]);
    assert_eq!(LabelAddrToken { label: 1 }.to_bytes(), vec![0; 8]);
    assert_eq!(BytecodeAddrToken { ident: "f".to_string() }.length_in_bytes(), 8);
    assert_eq!(LabelAddrToken { label: 1 }.length_in_bytes(), 8);
}

#[test]
fn test_from_literal_of_supported_literals() {
    assert_eq!(Operand::from_literal(Literal::Null), Ok(Operand::Reg(0)));
    assert_eq!(
        Operand::from_literal(Literal::String("text".to_string())),
        Ok(Operand::String("text".to_string()))
    );
    assert_eq!(Operand::from_literal(Literal::Boolean(true)), Ok(Operand::ShortNum(1)));
    assert_eq!(Operand::from_literal(Literal::Boolean(false)), Ok(Operand::ShortNum(0)));
    assert_eq!(
        Operand::from_literal(Literal::Number("0".to_string())),
        Ok(Operand::ShortNum(0))
    );
    assert_eq!(
        Operand::from_literal(Literal::Number("42".to_string())),
        Ok(Operand::ShortNum(42))
    );
    assert_eq!(
        Operand::from_literal(Literal::Number("255".to_string())),
        Ok(Operand::ShortNum(255))
    );
}

#[test]
fn test_from_literal_of_unsupported_literals() {
    let expected = Err(CompilerError::Custom(
        "regex and template literals are not supported".to_string(),
    ));
    assert_eq!(Operand::from_literal(Literal::RegEx), expected);
    assert_eq!(Operand::from_literal(Literal::Template), expected);
    match Operand::from_literal(Literal::RegEx) {
        Err(error) => assert_eq!(error.message(), "regex and template literals are not supported"),
        Ok(_) => panic!("a regular expression has no operand"),
    }
}

#[test]
fn test_parse_short_num() {
    assert_eq!(parse_short_num("0"), Some(0));
    assert_eq!(parse_short_num("7"), Some(7));
    assert_eq!(parse_short_num("255"), Some(255));
    assert_eq!(parse_short_num("+5"), Some(5));
    assert_eq!(parse_short_num("007"), Some(7));
    assert_eq!(parse_short_num("0000000000000000000255"), Some(255));
    assert_eq!(parse_short_num("256"), None);
    assert_eq!(parse_short_num("260"), None);
    assert_eq!(parse_short_num("1000"), None);
    assert_eq!(parse_short_num("99999999999999999999999"), None);
    assert_eq!(parse_short_num(""), None);
    assert_eq!(parse_short_num("+"), None);
    assert_eq!(parse_short_num("-"), None);
    assert_eq!(parse_short_num("-1"), None);
    assert_eq!(parse_short_num("-0"), None);
    assert_eq!(parse_short_num("++1"), None);
    assert_eq!(parse_short_num("1+"), None);
    assert_eq!(parse_short_num("1.5"), None);
    assert_eq!(parse_short_num(".0"), None);
    assert_eq!(parse_short_num("0xf"), None);
    assert_eq!(parse_short_num("1e2"), None);
    assert_eq!(parse_short_num(" 1"), None);
    assert_eq!(parse_short_num("1 "), None);
    assert_eq!(parse_short_num("1_0"), None);
    assert_eq!(parse_short_num("\u{663}"), None);
    assert_eq!(parse_short_num("1\u{e9}"), None);
}

#[test]
fn test_parse_short_num_agrees_with_the_standard_parser() {
    let mut texts: Vec<String> = (0..400).map(|n| n.to_string()).collect();
    let others = [
        "", "+", "-", "+0", "+255", "+256", "-5", "00", "0255", "0256", "2 5", "a", "9a", "25.",
        "\u{ff11}",
    ];
    for text in others {
        texts.push(text.to_string());
    }
    for text in texts {
        assert_eq!(parse_short_num(&text), text.parse::<u8>().ok(), "{:?}", text);
    }
}
