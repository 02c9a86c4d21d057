//! Commands: an instruction together with its operands.

use vstd::prelude::*;

use crate::encoding::ToBytes;
use crate::instruction::Instruction;
use crate::operand::{Operand, OperandView};

verus! {

/// An instruction and the operands it is given, in order. Nothing holds the
/// operands to the number or the kinds that the instruction expects.
#[derive(Debug, PartialEq, Clone)]
pub struct Command {
    pub instruction: Instruction,
    pub operands: Vec<Operand>,
}

/// The mathematical model of a [`Command`].
pub struct CommandView {
    pub instruction: Instruction,
    pub operands: Seq<OperandView>,
}

impl View for Command {
    type V = CommandView;

    open spec fn view(&self) -> CommandView {
        CommandView {
            instruction: self.instruction,
            operands: self.operands@.map_values(|operand: Operand| operand@),
        }
    }
}

/// The encodings of the operands, one after the other.
pub open spec fn operands_bytes(operands: Seq<OperandView>) -> Seq<u8> {
    operands.flat_map(|operand: OperandView| operand.encoding())
}

/// Encoding one operand more appends its bytes to those of the operands
/// before it.
pub proof fn lemma_operands_bytes_step(operands: Seq<OperandView>, k: int)
    requires
        0 <= k < operands.len(),
    ensures
        operands_bytes(operands.take(k + 1)) == operands_bytes(operands.take(k))
            + operands[k].encoding(),
{
    let encode = |operand: OperandView| operand.encoding();
    assert(operands.take(k + 1).map_values(encode) =~= operands.take(k).map_values(encode).push(
        operands[k].encoding(),
    ));
    operands.take(k).map_values(encode).lemma_flatten_push(operands[k].encoding());
}

impl CommandView {
    /// Whether every operand is within the limits of its encoding.
    pub open spec fn encodable(self) -> bool {
        forall|i: int| 0 <= i < self.operands.len() ==> (#[trigger] self.operands[i]).encodable()
    }

    /// The bytes that stand for the command in the byte stream: the opcode
    /// of the instruction, and then the encodings of the operands in order,
    /// with nothing between them and nothing after.
    pub open spec fn encoding(self) -> Seq<u8> {
        seq![self.instruction.opcode()] + operands_bytes(self.operands)
    }
}

impl Command {
    /// Makes the command that gives `operands` to `instruction`.
    pub fn new(instruction: Instruction, operands: Vec<Operand>) -> (command: Command)
        ensures
            command.instruction == instruction,
            command.operands == operands,
            command@ == (CommandView {
                instruction,
                operands: operands@.map_values(|operand: Operand| operand@),
            }),
    {
        Command { instruction, operands }
    }

    /// Tells whether every operand is within the limits of its encoding.
    pub fn is_encodable(&self) -> (encodable: bool)
        ensures
            encodable == self@.encodable(),
    {
        let mut i: usize = 0;
        while i < self.operands.len()
            invariant
                i <= self.operands.len(),
                forall|j: int| 0 <= j < i ==> (#[trigger] self@.operands[j]).encodable(),
            decreases self.operands.len() - i,
        {
            if !self.operands[i].is_encodable() {
                assert(!self@.operands[i as int].encodable());
                return false;
            }
            i = i + 1;
        }
        true
    }
}

impl ToBytes for Command {
    open spec fn encodable(&self) -> bool {
        self@.encodable()
    }

    open spec fn encoding(&self) -> Seq<u8> {
        self@.encoding()
    }

    /// Encodes the command.
    fn to_bytes(&self) -> (bytes: Vec<u8>) {
        let mut line: Vec<u8> = vec![self.instruction.to_byte()];
        assert(line@ =~= seq![self.instruction.opcode()]);
        assert(operands_bytes(self@.operands.take(0)) =~= Seq::<u8>::empty()) by {
            assert(self@.operands.take(0).map_values(|operand: OperandView| operand.encoding())
                =~= Seq::<Seq<u8>>::empty());
        }
        let mut i: usize = 0;
        while i < self.operands.len()
            invariant
                i <= self.operands.len(),
                self@.encodable(),
                line@ == seq![self.instruction.opcode()] + operands_bytes(
                    self@.operands.take(i as int),
                ),
            decreases self.operands.len() - i,
        {
            assert(self@.operands[i as int].encodable());
            let mut bytes: Vec<u8> = self.operands[i].to_bytes();
            proof {
                lemma_operands_bytes_step(self@.operands, i as int);
            }
            line.append(&mut bytes);
            i = i + 1;
        }
        assert(self@.operands.take(i as int) =~= self@.operands);
        line
    }
}

} // verus!
