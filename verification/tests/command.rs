use bytecode::{Command, Instruction, Operand, ToBytes};

#[test]
fn test_command() {
    assert_eq!(
        Command {
            instruction: Instruction::Add,
            operands: vec![Operand::Reg(150), Operand::Reg(151),]
        }
        .to_bytes(),
        vec![100, 150, 151]
    );
}

#[test]
fn test_command_new_keeps_its_parts() {
    let command = Command::new(Instruction::Copy, vec![Operand::Reg(0), Operand::Reg(1)]);
    assert_eq!(command.instruction, Instruction::Copy);
    assert_eq!(command.operands, vec![Operand::Reg(0), Operand::Reg(1)]);
}

#[test]
fn test_command_without_operands_is_its_opcode() {
    assert_eq!(Command::new(Instruction::ReturnBytecodeFunc, vec![]).to_bytes(), vec![14]);
    assert_eq!(Command::new(Instruction::Exit, vec![]).length_in_bytes(), 1);
}

#[test]
fn test_command_concatenates_operands_in_order() {
    let command = Command::new(
        Instruction::LoadString,
        vec![
            Operand::Reg(9),
            Operand::String("hi".to_string()),
            Operand::RegistersArray(vec![4, 5]),
            Operand::LongNum(-1),
            Operand::branch_addr(3),
            Operand::ShortNum(1),
        ],
    );
    let mut expected: Vec<u8> = vec![1, 9, 0, 2, 104, 105, 2, 4, 5];
    expected.extend_from_slice(&[255; 8]);
    expected.extend_from_slice(&[0; 8]);
    expected.push(1);
    assert!(command.is_encodable());
    assert_eq!(command.to_bytes(), expected);
    assert_eq!(command.length_in_bytes(), expected.len());
}

#[test]
fn test_command_is_not_held_to_an_arity() {
    let command = Command::new(Instruction::Add, vec![]);
    assert_eq!(command.to_bytes(), vec![100]);
    let command = Command::new(Instruction::Add, vec![Operand::Reg(1); 5]);
    assert_eq!(command.to_bytes(), vec![100, 1, 1, 1, 1, 1]);
}

#[test]
fn test_command_with_an_operand_over_the_limit() {
    let command = Command::new(
        Instruction::LoadArray,
        vec![Operand::Reg(1), Operand::RegistersArray(vec![0; 256])],
    );
    assert!(!command.is_encodable());
    let command = Command::new(
        Instruction::LoadArray,
        vec![Operand::Reg(1), Operand::RegistersArray(vec![0; 255])],
    );
    assert!(command.is_encodable());
}
