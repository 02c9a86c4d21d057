use bytecode::Instruction;

fn all_instructions() -> Vec<Instruction> {
    vec![
        Instruction::LoadString,
        Instruction::LoadFloatNum,
        Instruction::LoadLongNum,
        Instruction::LoadNum,
        Instruction::LoadArray,
        Instruction::PropAccess,
        Instruction::CallFunc,
        Instruction::Eval,
        Instruction::CallBytecodeFunc,
        Instruction::ReturnBytecodeFunc,
        Instruction::Copy,
        Instruction::Exit,
        Instruction::JumpCond,
        Instruction::Jump,
        Instruction::JumpCondNeg,
        Instruction::LogicAnd,
        Instruction::LogicOr,
        Instruction::CompEqual,
        Instruction::CompNotEqual,
        Instruction::CompStrictEqual,
        Instruction::CompStrictNotEqual,
        Instruction::CompLessThan,
        Instruction::CompGreaterThan,
        Instruction::CompLessThanEqual,
        Instruction::CompGreaterThanEqual,
        Instruction::Add,
        Instruction::Minus,
        Instruction::Mul,
        Instruction::Div,
    ]
}

#[test]
fn test_instrution_to_byte() {
    assert_eq!(Instruction::Add.to_byte(), 100);
}

#[test]
fn test_opcode_table() {
    let expected: Vec<u8> = vec![
        1, 3, 4, 2, 5, 10, 11, 12, 13, 14, 15, 16, 17, 18, 19, 30, 31, 50, 51, 52, 53, 54, 55, 56,
        57, 100, 102, 101, 103,
    ];
    let actual: Vec<u8> = all_instructions().iter().map(|i| i.to_byte()).collect();
    assert_eq!(actual, expected);
}

#[test]
fn test_opcodes_are_distinct() {
    let all = all_instructions();
    assert_eq!(all.len(), 29);
    for (i, a) in all.iter().enumerate() {
        for (j, b) in all.iter().enumerate() {
            assert_eq!(a.to_byte() == b.to_byte(), i == j);
        }
    }
}

#[test]
fn test_opcodes_lie_in_their_bands() {
    for instruction in all_instructions() {
        let byte = instruction.to_byte();
        let in_band = (1..=9).contains(&byte)
            || (10..=19).contains(&byte)
            || (30..=39).contains(&byte)
            || (50..=59).contains(&byte)
            || byte >= 100;
        assert!(in_band);
    }
    assert!(Instruction::LoadArray.to_byte() <= 9);
    assert!((10..=19).contains(&Instruction::JumpCondNeg.to_byte()));
    assert!((30..=39).contains(&Instruction::LogicOr.to_byte()));
    assert!((50..=59).contains(&Instruction::CompGreaterThanEqual.to_byte()));
    assert!(Instruction::Div.to_byte() >= 100);
}
