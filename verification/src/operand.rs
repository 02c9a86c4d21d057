//! Operands: the values that an instruction takes, and how each is encoded.

use vstd::prelude::*;
use vstd::utf8::{decode_utf8, encode_utf8};

use crate::encoding::{
    address_slot, be_value, lemma_u64_be_bytes_value, twos_complement, u64_be_bytes, ToBytes,
};
use crate::error::{CompilerError, CompilerErrorView};
use crate::literal::{parse_short_num, short_num_value, Literal, LiteralView};

verus! {

/// The number of a register of the virtual machine.
pub type Register = u8;

/// The number that marks a position in the instruction stream.
pub type Label = u32;

/// The largest number of bytes that the content of a string operand may
/// have.
pub const MAX_STRING_BYTES: usize = 65535;

/// The largest number of registers that a register array may hold.
pub const MAX_REGISTERS: usize = 255;

/// A reference to a callable, by its name.
#[derive(Debug, PartialEq, Clone)]
pub struct BytecodeAddrToken {
    pub ident: String,
}

/// A reference to a position in the instruction stream, by its label.
#[derive(Debug, PartialEq, Clone)]
pub struct LabelAddrToken {
    pub label: Label,
}

impl View for BytecodeAddrToken {
    type V = Seq<char>;

    open spec fn view(&self) -> Seq<char> {
        self.ident@
    }
}

impl View for LabelAddrToken {
    type V = Label;

    open spec fn view(&self) -> Label {
        self.label
    }
}

impl ToBytes for BytecodeAddrToken {
    open spec fn encodable(&self) -> bool {
        true
    }

    open spec fn encoding(&self) -> Seq<u8> {
        address_slot()
    }

    /// Returns the slot that is kept for the address of the callable.
    fn to_bytes(&self) -> (bytes: Vec<u8>) {
        let bytes: Vec<u8> = vec![0u8; 8];
        assert(bytes@ =~= address_slot());
        assert(self.encoding() == address_slot());
        bytes
    }
}

impl ToBytes for LabelAddrToken {
    open spec fn encodable(&self) -> bool {
        true
    }

    open spec fn encoding(&self) -> Seq<u8> {
        address_slot()
    }

    /// Returns the slot that is kept for the address of the label.
    fn to_bytes(&self) -> (bytes: Vec<u8>) {
        let bytes: Vec<u8> = vec![0u8; 8];
        assert(bytes@ =~= address_slot());
        assert(self.encoding() == address_slot());
        bytes
    }
}

/// A value that an instruction takes.
#[derive(Debug, PartialEq, Clone)]
pub enum Operand {
    /// A string.
    String(String),
    /// A 64-bit floating-point number, held as its IEEE-754 bit pattern.
    FloatNum(u64),
    /// A 64-bit signed integer.
    LongNum(i64),
    /// An immediate number from 0 to 255.
    ShortNum(u8),
    /// A register.
    Reg(Register),
    /// A list of registers.
    RegistersArray(Vec<Register>),
    /// The address of a callable.
    FunctionAddr(BytecodeAddrToken),
    /// The address of a label.
    BranchAddr(LabelAddrToken),
}

/// The mathematical model of an [`Operand`].
pub enum OperandView {
    String(Seq<char>),
    FloatNum(u64),
    LongNum(i64),
    ShortNum(u8),
    Reg(Register),
    RegistersArray(Seq<Register>),
    FunctionAddr(Seq<char>),
    BranchAddr(Label),
}

impl View for Operand {
    type V = OperandView;

    open spec fn view(&self) -> OperandView {
        match self {
            Operand::String(text) => OperandView::String(text@),
            Operand::FloatNum(bits) => OperandView::FloatNum(*bits),
            Operand::LongNum(number) => OperandView::LongNum(*number),
            Operand::ShortNum(number) => OperandView::ShortNum(*number),
            Operand::Reg(register) => OperandView::Reg(*register),
            Operand::RegistersArray(registers) => OperandView::RegistersArray(registers@),
            Operand::FunctionAddr(token) => OperandView::FunctionAddr(token@),
            Operand::BranchAddr(token) => OperandView::BranchAddr(token@),
        }
    }
}

/// The encoding of a string: the number of bytes of its UTF-8 content, as
/// two bytes with the more significant first, and then the content.
pub open spec fn string_bytes(text: Seq<char>) -> Seq<u8> {
    let content = encode_utf8(text);
    seq![(content.len() / 256) as u8, (content.len() % 256) as u8] + content
}

/// The length that the first two bytes of an encoded string announce.
pub open spec fn decode_length(bytes: Seq<u8>) -> nat {
    (256 * bytes[0] + bytes[1]) as nat
}

/// The encoding of a list of registers: their number as one byte, and then
/// the registers in order.
pub open spec fn registers_bytes(registers: Seq<Register>) -> Seq<u8> {
    seq![registers.len() as u8] + registers
}

/// The encoding of a 64-bit signed integer: the eight bytes of its two's
/// complement bit pattern, most significant first.
pub open spec fn long_num_bytes(number: i64) -> Seq<u8> {
    u64_be_bytes(twos_complement(number))
}

/// The text of the error that reports a literal with no operand.
pub open spec fn unsupported_literal_message() -> Seq<char> {
    "regex and template literals are not supported"@
}

/// Whether a literal denotes a value that an operand can hold: a number
/// literal must denote a one-byte number.
pub open spec fn literal_in_range(literal: LiteralView) -> bool {
    literal matches LiteralView::Number(text) ==> short_num_value(text) is Some
}

/// The operand that a literal is translated to, or the error where the
/// instruction set has no operand for it.
pub open spec fn literal_operand(literal: LiteralView) -> Result<OperandView, CompilerErrorView> {
    match literal {
        LiteralView::Null => Ok(OperandView::Reg(0)),
        LiteralView::String(text) => Ok(OperandView::String(text)),
        LiteralView::Number(text) => Ok(OperandView::ShortNum(short_num_value(text).unwrap())),
        LiteralView::Boolean(value) => Ok(
            OperandView::ShortNum(
                if value {
                    1
                } else {
                    0
                },
            ),
        ),
        LiteralView::RegEx | LiteralView::Template => Err(
            CompilerErrorView::Custom(unsupported_literal_message()),
        ),
    }
}

impl OperandView {
    /// Whether the operand is within the limits of its encoding: the content
    /// of a string has at most 65535 bytes, and a register array at most 255
    /// registers.
    pub open spec fn encodable(self) -> bool {
        match self {
            OperandView::String(text) => encode_utf8(text).len() <= MAX_STRING_BYTES,
            OperandView::RegistersArray(registers) => registers.len() <= MAX_REGISTERS,
            _ => true,
        }
    }

    /// The bytes that stand for the operand in the byte stream.
    pub open spec fn encoding(self) -> Seq<u8> {
        match self {
            OperandView::String(text) => string_bytes(text),
            OperandView::FloatNum(bits) => u64_be_bytes(bits),
            OperandView::LongNum(number) => long_num_bytes(number),
            OperandView::ShortNum(number) => seq![number],
            OperandView::Reg(register) => seq![register],
            OperandView::RegistersArray(registers) => registers_bytes(registers),
            OperandView::FunctionAddr(_) => address_slot(),
            OperandView::BranchAddr(_) => address_slot(),
        }
    }
}

impl Operand {
    /// Encodes the operand.
    pub fn to_bytes(&self) -> (bytes: Vec<u8>)
        requires
            self@.encodable(),
        ensures
            bytes@ == self@.encoding(),
    {
        match self {
            Operand::String(text) => Operand::encode_string(text.clone()),
            Operand::FloatNum(bits) => Operand::encode_float_num(*bits),
            Operand::LongNum(number) => {
                let number: i64 = *number;
                assert(number as u64 == twos_complement(number)) by (bit_vector);
                Operand::encode_long_num(
                    #[verifier::truncate]
                    (number as u64),
                )
            },
            Operand::ShortNum(number) => {
                let bytes: Vec<u8> = vec![*number];
                assert(bytes@ =~= seq![*number]);
                bytes
            },
            Operand::Reg(register) => {
                let bytes: Vec<u8> = vec![*register];
                assert(bytes@ =~= seq![*register]);
                bytes
            },
            Operand::RegistersArray(registers) => Operand::encode_registers_array(
                registers.as_slice(),
            ),
            Operand::FunctionAddr(token) => token.to_bytes(),
            Operand::BranchAddr(token) => token.to_bytes(),
        }
    }

    /// Tells whether the operand is within the limits of its encoding.
    pub fn is_encodable(&self) -> (encodable: bool)
        ensures
            encodable == self@.encodable(),
    {
        match self {
            Operand::String(text) => text.as_str().as_bytes().len() <= MAX_STRING_BYTES,
            Operand::RegistersArray(registers) => registers.len() <= MAX_REGISTERS,
            _ => true,
        }
    }

    /// Translates a literal of the source language to the operand that holds
    /// its value: `null` to the register 0, which is kept for the undefined
    /// value, a string to a string, a number to a short number, and a
    /// boolean to the short number 1 or 0. A number literal must denote a
    /// number from 0 to 255. There is no operand for a regular expression or
    /// a template: for them the error is returned.
    pub fn from_literal(lit: Literal) -> (translated: Result<Operand, CompilerError>)
        requires
            literal_in_range(lit@),
        ensures
            match literal_operand(lit@) {
                Ok(operand) => translated matches Ok(made) && made@ == operand,
                Err(error) => translated matches Err(raised) && raised@ == error,
            },
    {
        match lit {
            Literal::Null => Ok(Operand::Reg(0)),
            Literal::String(text) => Ok(Operand::String(text)),
            Literal::Number(text) => {
                let number: Option<u8> = parse_short_num(text.as_str());
                Ok(Operand::ShortNum(number.unwrap()))
            },
            Literal::Boolean(value) => Ok(
                Operand::ShortNum(
                    if value {
                        1
                    } else {
                        0
                    },
                ),
            ),
            Literal::RegEx | Literal::Template => Err(
                CompilerError::Custom("regex and template literals are not supported".to_owned()),
            ),
        }
    }

    /// Makes a string operand.
    pub fn str(string: String) -> (operand: Operand)
        ensures
            operand@ == OperandView::String(string@),
    {
        Operand::String(string)
    }

    /// Makes an operand that refers to the callable named `ident`.
    pub fn function_addr(ident: String) -> (operand: Operand)
        ensures
            operand@ == OperandView::FunctionAddr(ident@),
    {
        Operand::FunctionAddr(BytecodeAddrToken { ident })
    }

    /// Makes an operand that refers to the position of `label`.
    pub fn branch_addr(label: Label) -> (operand: Operand)
        ensures
            operand@ == OperandView::BranchAddr(label),
    {
        Operand::BranchAddr(LabelAddrToken { label })
    }

    /// Encodes a string whose content has at most 65535 bytes.
    pub fn encode_string(string: String) -> (encoded: Vec<u8>)
        requires
            encode_utf8(string@).len() <= MAX_STRING_BYTES,
        ensures
            encoded@ == string_bytes(string@),
    {
        let content: &[u8] = string.as_str().as_bytes();
        let length: usize = content.len();
        assert(length >> 8 == length / 256 && length >> 8 < 256 && length & 0xff == length % 256)
            by (bit_vector)
            requires
                length <= 65535,
        ;
        let mut encoded: Vec<u8> = Vec::new();
        encoded.push((length >> 8) as u8);
        encoded.push((length & 0xff) as u8);
        encoded.extend_from_slice(content);
        assert(encoded@ =~= string_bytes(string@));
        encoded
    }

    /// Encodes a list of at most 255 registers.
    pub fn encode_registers_array(regs: &[Register]) -> (encoded: Vec<u8>)
        requires
            regs@.len() <= MAX_REGISTERS,
        ensures
            encoded@ == registers_bytes(regs@),
    {
        let mut encoded: Vec<u8> = Vec::new();
        encoded.push(regs.len() as u8);
        encoded.extend_from_slice(regs);
        assert(encoded@ =~= registers_bytes(regs@));
        encoded
    }

    /// Encodes a 64-bit number as eight bytes, most significant first.
    pub fn encode_long_num(num: u64) -> (encoded: Vec<u8>)
        ensures
            encoded@ == u64_be_bytes(num),
    {
        let b0: u64 = (num & 0xff000000_00000000) >> 56;
        let b1: u64 = (num & 0x00ff0000_00000000) >> 48;
        let b2: u64 = (num & 0x0000ff00_00000000) >> 40;
        let b3: u64 = (num & 0x000000ff_00000000) >> 32;
        let b4: u64 = (num & 0x00000000_ff000000) >> 24;
        let b5: u64 = (num & 0x00000000_00ff0000) >> 16;
        let b6: u64 = (num & 0x00000000_0000ff00) >> 8;
        let b7: u64 = num & 0x00000000_000000ff;
        assert(b0 == num / 0x100_0000_0000_0000 && b0 < 256) by (bit_vector)
            requires
                b0 == (num & 0xff000000_00000000) >> 56,
        ;
        assert(b1 == num / 0x1_0000_0000_0000 % 256) by (bit_vector)
            requires
                b1 == (num & 0x00ff0000_00000000) >> 48,
        ;
        assert(b2 == num / 0x100_0000_0000 % 256) by (bit_vector)
            requires
                b2 == (num & 0x0000ff00_00000000) >> 40,
        ;
        assert(b3 == num / 0x1_0000_0000 % 256) by (bit_vector)
            requires
                b3 == (num & 0x000000ff_00000000) >> 32,
        ;
        assert(b4 == num / 0x100_0000 % 256) by (bit_vector)
            requires
                b4 == (num & 0x00000000_ff000000) >> 24,
        ;
        assert(b5 == num / 0x1_0000 % 256) by (bit_vector)
            requires
                b5 == (num & 0x00000000_00ff0000) >> 16,
        ;
        assert(b6 == num / 0x100 % 256) by (bit_vector)
            requires
                b6 == (num & 0x00000000_0000ff00) >> 8,
        ;
        assert(b7 == num % 256) by (bit_vector)
            requires
                b7 == num & 0x00000000_000000ff,
        ;
        let encoded: Vec<u8> = vec![
            b0 as u8,
            b1 as u8,
            b2 as u8,
            b3 as u8,
            b4 as u8,
            b5 as u8,
            b6 as u8,
            b7 as u8,
        ];
        assert(encoded@ =~= u64_be_bytes(num));
        encoded
    }

    /// Encodes a floating-point number, given as its IEEE-754 bit pattern, as
    /// eight bytes, most significant first.
    pub fn encode_float_num(bits: u64) -> (encoded: Vec<u8>)
        ensures
            encoded@ == u64_be_bytes(bits),
    {
        Operand::encode_long_num(bits)
    }
}

/// The number of bytes of each kind of operand: one for a short number and
/// for a register, eight for a number and for an address, and for a string
/// and a register array what their length prefix announces besides itself.
pub proof fn lemma_encoding_length(operand: OperandView)
    ensures
        operand.encoding().len() == match operand {
            OperandView::String(text) => 2 + encode_utf8(text).len(),
            OperandView::FloatNum(_) => 8,
            OperandView::LongNum(_) => 8,
            OperandView::ShortNum(_) => 1,
            OperandView::Reg(_) => 1,
            OperandView::RegistersArray(registers) => 1 + registers.len(),
            OperandView::FunctionAddr(_) => 8,
            OperandView::BranchAddr(_) => 8,
        },
{
}

/// The first two bytes of an encoded string announce the number of bytes of
/// its content, and the content follows them unchanged, so that the string
/// can be read back.
pub proof fn lemma_string_round_trip(text: Seq<char>)
    requires
        encode_utf8(text).len() <= MAX_STRING_BYTES,
    ensures
        string_bytes(text).len() == 2 + encode_utf8(text).len(),
        decode_length(string_bytes(text)) == encode_utf8(text).len(),
        string_bytes(text).skip(2) == encode_utf8(text),
        decode_utf8(string_bytes(text).skip(2)) == text,
{
    vstd::utf8::encode_utf8_decode_utf8(text);
    assert(string_bytes(text).skip(2) =~= encode_utf8(text));
}

/// An encoded register array is one byte more than the registers, starts
/// with their number, and holds them in order after it.
pub proof fn lemma_registers_round_trip(registers: Seq<Register>)
    requires
        registers.len() <= MAX_REGISTERS,
    ensures
        registers_bytes(registers).len() == 1 + registers.len(),
        registers_bytes(registers)[0] == registers.len(),
        registers_bytes(registers).skip(1) == registers,
{
    assert(registers_bytes(registers).skip(1) =~= registers);
}

/// The eight bytes of an encoded integer, read as a big-endian number, are
/// the integer itself where it is not negative, and the integer plus 2^64
/// where it is: its two's complement representation.
pub proof fn lemma_long_num_value(number: i64)
    ensures
        long_num_bytes(number).len() == 8,
        number >= 0 ==> be_value(long_num_bytes(number)) == number,
        number < 0 ==> be_value(long_num_bytes(number)) == number + 0x1_0000_0000_0000_0000,
{
    lemma_u64_be_bytes_value(twos_complement(number));
}

/// Negating an integer complements every bit of its pattern and adds one,
/// dropping the carry out of the 64 bits.
pub proof fn lemma_long_num_negation(number: i64)
    requires
        number > i64::MIN,
    ensures
        twos_complement((-number) as i64) == (!twos_complement(number) + 1)
            % 0x1_0000_0000_0000_0000,
        long_num_bytes((-number) as i64) == u64_be_bytes(
            ((!twos_complement(number) + 1) % 0x1_0000_0000_0000_0000) as u64,
        ),
{
    let bits = twos_complement(number);
    let negated = twos_complement((-number) as i64);
    assert(bits == number as u64) by (bit_vector)
        requires
            bits == twos_complement(number),
    ;
    assert(negated == ((-number) as i64) as u64) by (bit_vector)
        requires
            negated == twos_complement((-number) as i64),
    ;
    assert(((-number) as i64) as u64 == (!(number as u64) + 1) % 0x1_0000_0000_0000_0000)
        by (bit_vector)
        requires
            number > i64::MIN,
    ;
}

/// Complementing a 64-bit pattern complements each of its eight bytes.
pub proof fn lemma_complement_bytes(bits: u64)
    ensures
        forall|i: int| 0 <= i < 8 ==> u64_be_bytes(!bits)[i] == !#[trigger] u64_be_bytes(bits)[i],
{
    assert((!bits / 0x100_0000_0000_0000) as u8 == !((bits / 0x100_0000_0000_0000) as u8))
        by (bit_vector);
    assert((!bits / 0x1_0000_0000_0000 % 256) as u8 == !((bits / 0x1_0000_0000_0000 % 256) as u8))
        by (bit_vector);
    assert((!bits / 0x100_0000_0000 % 256) as u8 == !((bits / 0x100_0000_0000 % 256) as u8))
        by (bit_vector);
    assert((!bits / 0x1_0000_0000 % 256) as u8 == !((bits / 0x1_0000_0000 % 256) as u8))
        by (bit_vector);
    assert((!bits / 0x100_0000 % 256) as u8 == !((bits / 0x100_0000 % 256) as u8))
        by (bit_vector);
    assert((!bits / 0x1_0000 % 256) as u8 == !((bits / 0x1_0000 % 256) as u8)) by (bit_vector);
    assert((!bits / 0x100 % 256) as u8 == !((bits / 0x100 % 256) as u8)) by (bit_vector);
    assert((!bits % 256) as u8 == !((bits % 256) as u8)) by (bit_vector);
}

/// A floating-point operand is encoded as the integer operand with the same
/// bit pattern is.
pub proof fn lemma_float_num_as_long_num(bits: u64)
    ensures
        OperandView::FloatNum(bits).encoding() == OperandView::LongNum(bits as i64).encoding(),
{
    assert(twos_complement(bits as i64) == bits) by (bit_vector);
}

} // verus!
