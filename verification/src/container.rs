//! The bytecode container: commands and labels in program order.

use vstd::prelude::*;

use crate::command::{Command, CommandView};
use crate::encoding::ToBytes;
use crate::error::CompilerError;
use crate::instruction::Instruction;
use crate::operand::Label;
use crate::text::{base64_encode, base64_length, base64_text};

verus! {

/// What a translation step hands back: the bytecode, or why there is none.
pub type BytecodeResult = Result<Bytecode, CompilerError>;

/// One entry of a bytecode: a command, or a label that marks the position
/// between two commands.
#[derive(Debug, PartialEq, Clone)]
pub enum BytecodeElement {
    Command(Command),
    Label(Label),
}

/// The mathematical model of a [`BytecodeElement`].
pub enum BytecodeElementView {
    Command(CommandView),
    Label(Label),
}

impl View for BytecodeElement {
    type V = BytecodeElementView;

    open spec fn view(&self) -> BytecodeElementView {
        match self {
            BytecodeElement::Command(command) => BytecodeElementView::Command(command@),
            BytecodeElement::Label(label) => BytecodeElementView::Label(*label),
        }
    }
}

impl BytecodeElementView {
    /// Whether the element is within the limits of its encoding.
    pub open spec fn encodable(self) -> bool {
        match self {
            BytecodeElementView::Command(command) => command.encodable(),
            BytecodeElementView::Label(_) => true,
        }
    }

    /// The bytes that stand for the element in the byte stream: those of the
    /// command, and none for a label.
    pub open spec fn encoding(self) -> Seq<u8> {
        match self {
            BytecodeElementView::Command(command) => command.encoding(),
            BytecodeElementView::Label(_) => Seq::empty(),
        }
    }
}

impl BytecodeElement {
    /// Tells whether the element is within the limits of its encoding.
    pub fn is_encodable(&self) -> (encodable: bool)
        ensures
            encodable == self@.encodable(),
    {
        match self {
            BytecodeElement::Command(command) => command.is_encodable(),
            BytecodeElement::Label(_) => true,
        }
    }
}

impl ToBytes for BytecodeElement {
    open spec fn encodable(&self) -> bool {
        self@.encodable()
    }

    open spec fn encoding(&self) -> Seq<u8> {
        self@.encoding()
    }

    /// Encodes the element.
    fn to_bytes(&self) -> (bytes: Vec<u8>) {
        match self {
            BytecodeElement::Command(command) => command.to_bytes(),
            BytecodeElement::Label(_) => Vec::new(),
        }
    }
}

/// A compiled unit: commands and labels in program order.
#[derive(Debug, PartialEq, Clone)]
pub struct Bytecode {
    pub elements: Vec<BytecodeElement>,
}

impl View for Bytecode {
    type V = Seq<BytecodeElementView>;

    open spec fn view(&self) -> Seq<BytecodeElementView> {
        self.elements@.map_values(|element: BytecodeElement| element@)
    }
}

/// Whether every element of a bytecode is within the limits of its encoding.
pub open spec fn elements_encodable(elements: Seq<BytecodeElementView>) -> bool {
    forall|i: int| 0 <= i < elements.len() ==> (#[trigger] elements[i]).encodable()
}

/// The byte stream of a bytecode: the encodings of its elements, one after
/// the other.
pub open spec fn elements_bytes(elements: Seq<BytecodeElementView>) -> Seq<u8> {
    elements.flat_map(|element: BytecodeElementView| element.encoding())
}

/// Whether the last element of a bytecode is a command that returns from a
/// bytecode function.
pub open spec fn ends_in_return(elements: Seq<BytecodeElementView>) -> bool {
    &&& elements.len() > 0
    &&& elements.last() matches BytecodeElementView::Command(command)
    &&& command.instruction == Instruction::ReturnBytecodeFunc
}

/// The number of commands among the first `i` elements of a bytecode.
pub open spec fn commands_before(elements: Seq<BytecodeElementView>, i: int) -> nat
    decreases i,
{
    if i <= 0 {
        0
    } else {
        commands_before(elements, i - 1) + if elements[i - 1] is Command {
            1nat
        } else {
            0nat
        }
    }
}

/// The number of commands of a bytecode.
pub open spec fn command_count(elements: Seq<BytecodeElementView>) -> nat {
    commands_before(elements, elements.len() as int)
}

/// The elements of all the fragments, in the order of the fragments.
pub open spec fn fragments_elements(fragments: Seq<Seq<BytecodeElementView>>) -> Seq<
    BytecodeElementView,
> {
    fragments.flatten()
}

impl Bytecode {
    /// Makes a bytecode without elements.
    pub fn new() -> (bytecode: Bytecode)
        ensures
            bytecode@ == Seq::<BytecodeElementView>::empty(),
    {
        let bytecode = Bytecode { elements: Vec::new() };
        assert(bytecode@ =~= Seq::<BytecodeElementView>::empty());
        bytecode
    }

    /// Appends a command.
    pub fn add(self, command: Command) -> (bytecode: Bytecode)
        ensures
            bytecode@ == self@.push(BytecodeElementView::Command(command@)),
    {
        let mut bytecode = self;
        bytecode.elements.push(BytecodeElement::Command(command));
        assert(bytecode@ =~= self@.push(BytecodeElementView::Command(command@)));
        bytecode
    }

    /// Appends a label. Nothing keeps a label from being used twice.
    pub fn add_label(self, label: Label) -> (bytecode: Bytecode)
        ensures
            bytecode@ == self@.push(BytecodeElementView::Label(label)),
    {
        let mut bytecode = self;
        bytecode.elements.push(BytecodeElement::Label(label));
        assert(bytecode@ =~= self@.push(BytecodeElementView::Label(label)));
        bytecode
    }

    /// Appends the elements of `other`, in their order and unchanged.
    pub fn combine(self, other: Bytecode) -> (bytecode: Bytecode)
        ensures
            bytecode@ == self@ + other@,
    {
        let mut bytecode = self;
        let mut rest = other;
        bytecode.elements.append(&mut rest.elements);
        assert(bytecode@ =~= self@ + other@);
        bytecode
    }

    /// Returns the byte stream of the bytecode as base64 text.
    pub fn encode(&self) -> (text: String)
        requires
            elements_encodable(self@),
            base64_length(elements_bytes(self@).len()) <= isize::MAX,
        ensures
            text@ == base64_text(elements_bytes(self@)),
    {
        let bytes: Vec<u8> = self.to_bytes();
        base64_encode(&bytes)
    }

    /// Tells whether the bytecode ends in a command that returns from a
    /// bytecode function.
    pub fn last_op_is_return(&self) -> (is_return: bool)
        ensures
            is_return == ends_in_return(self@),
    {
        let length: usize = self.elements.len();
        if length == 0 {
            return false;
        }
        match &self.elements[length - 1] {
            BytecodeElement::Command(command) => command.instruction
                == Instruction::ReturnBytecodeFunc,
            BytecodeElement::Label(_) => false,
        }
    }

    /// Hands out every command of the bytecode for rewriting in place, in
    /// program order and without the labels: the command at a position is
    /// found at the number of commands that stand before that position.
    /// When the references are given up, each command holds what was last
    /// written through its reference, and every label stands where it stood.
    pub fn commands_iter_mut(&mut self) -> (commands: Vec<&mut Command>)
        ensures
            commands@.len() == command_count(old(self)@),
            final(self)@.len() == old(self)@.len(),
            forall|i: int|
                0 <= i < old(self)@.len() ==> match #[trigger] old(self)@[i] {
                    BytecodeElementView::Label(label) => final(self)@[i]
                        == BytecodeElementView::Label(label),
                    BytecodeElementView::Command(command) => {
                        let k = commands_before(old(self)@, i) as int;
                        &&& k < commands@.len()
                        &&& (*commands@[k])@ == command
                        &&& final(self)@[i] == BytecodeElementView::Command((*final(commands@[k]))@)
                    },
                },
    {
        let ghost views = self@;
        let ghost olds = self.elements@;
        let length: usize = self.elements.len();
        let mut commands: Vec<&mut Command> = Vec::new();
        let mut rest: &mut [BytecodeElement] = self.elements.as_mut_slice();
        let ghost whole = final(rest)@;
        let mut i: usize = 0;
        while rest.len() > 0
            invariant
                0 <= i <= olds.len(),
                olds.len() == length,
                views == olds.map_values(|element: BytecodeElement| element@),
                rest@ == olds.skip(i as int),
                commands@.len() == commands_before(views, i as int),
                whole.len() >= i,
                whole.skip(i as int) == final(rest)@,
                forall|j: int|
                    0 <= j < i ==> match #[trigger] olds[j] {
                        BytecodeElement::Label(label) => whole[j] == BytecodeElement::Label(label),
                        BytecodeElement::Command(command) => {
                            let k = commands_before(views, j) as int;
                            &&& k < commands@.len()
                            &&& *commands@[k] == command
                            &&& whole[j] == BytecodeElement::Command(*final(commands@[k]))
                        },
                    },
            decreases rest.len(),
        {
            assert(rest@[0] == olds[i as int]);
            assert(views[i as int] == olds[i as int]@);
            let (head, tail) = rest.split_at_mut(1);
            let ghost head_final = final(head)@;
            let ghost tail_final = final(tail)@;
            match head.first_mut() {
                Some(BytecodeElement::Command(command)) => {
                    commands.push(command);
                },
                _ => {},
            }
            assert(whole.skip(i as int) == head_final + tail_final);
            assert(head_final.len() == 1);
            assert(whole[i as int] == head_final[0]) by {
                assert(whole.skip(i as int)[0] == head_final[0]);
            }
            assert(whole.skip(i + 1) =~= tail_final) by {
                assert(whole.skip(i + 1) =~= whole.skip(i as int).skip(1));
            }
            assert(tail@ =~= olds.skip(i + 1));
            proof {
                assert forall|j: int| 0 <= j < i implies commands_before(views, j) + (if views[j]
                    is Command {
                    1nat
                } else {
                    0nat
                }) <= commands_before(views, i as int) by {
                    lemma_commands_before_grows(views, j, i as int);
                }
            }
            rest = tail;
            i = i + 1;
        }
        assert(whole.map_values(|element: BytecodeElement| element@).len() == olds.len());
        commands
    }

    /// Joins the fragments into one bytecode that holds the elements of all
    /// of them, in the order of the fragments and unchanged.
    pub fn from_iter(fragments: Vec<Bytecode>) -> (bytecode: Bytecode)
        ensures
            bytecode@ == fragments_elements(fragments@.map_values(|fragment: Bytecode| fragment@)),
    {
        let ghost views = fragments@.map_values(|fragment: Bytecode| fragment@);
        let mut bytecode = Bytecode { elements: Vec::new() };
        assert(bytecode@ =~= views.take(0).flatten());
        for fragment in it: fragments
            invariant
                views == fragments@.map_values(|fragment: Bytecode| fragment@),
                it.seq() == fragments@,
                bytecode@ == views.take(it.index() as int).flatten(),
        {
            let ghost k = it.index() as int;
            let mut rest = fragment;
            assert(views.take(k + 1) =~= views.take(k).push(fragment@));
            proof {
                views.take(k).lemma_flatten_push(fragment@);
            }
            bytecode.elements.append(&mut rest.elements);
            assert(bytecode@ =~= views.take(k + 1).flatten());
        }
        assert(views.take(fragments@.len() as int) =~= views);
        bytecode
    }

    /// Tells whether every element is within the limits of its encoding.
    pub fn is_encodable(&self) -> (encodable: bool)
        ensures
            encodable == elements_encodable(self@),
    {
        let mut i: usize = 0;
        while i < self.elements.len()
            invariant
                i <= self.elements.len(),
                forall|j: int| 0 <= j < i ==> (#[trigger] self@[j]).encodable(),
            decreases self.elements.len() - i,
        {
            if !self.elements[i].is_encodable() {
                assert(!self@[i as int].encodable());
                return false;
            }
            i = i + 1;
        }
        true
    }
}

/// The commands before a position are fewer than those before a later one,
/// and one fewer at least where a command stands at the position itself.
pub proof fn lemma_commands_before_grows(elements: Seq<BytecodeElementView>, j: int, i: int)
    requires
        0 <= j < i,
    ensures
        commands_before(elements, j) + (if elements[j] is Command {
            1nat
        } else {
            0nat
        }) <= commands_before(elements, i),
    decreases i,
{
    if j + 1 < i {
        lemma_commands_before_grows(elements, j, i - 1);
    }
}

/// Every count below the number of commands is the count of the commands
/// before exactly one command: each reference that is handed out belongs to
/// a command of the bytecode.
pub proof fn lemma_commands_before_onto(elements: Seq<BytecodeElementView>, k: nat) -> (i: int)
    requires
        k < command_count(elements),
    ensures
        0 <= i < elements.len(),
        elements[i] is Command,
        commands_before(elements, i) == k,
        forall|j: int|
            0 <= j < elements.len() && elements[j] is Command && commands_before(elements, j) == k
                ==> j == i,
{
    let i = lemma_commands_before_reaches(elements, elements.len() as int, k);
    assert forall|j: int|
        0 <= j < elements.len() && elements[j] is Command && commands_before(elements, j)
            == k implies j == i by {
        if j < i {
            lemma_commands_before_grows(elements, j, i);
        } else if i < j {
            lemma_commands_before_grows(elements, i, j);
        }
    }
    i
}

/// Among the first `n` elements, every count below the number of their
/// commands is the count of the commands before one of those commands.
pub proof fn lemma_commands_before_reaches(
    elements: Seq<BytecodeElementView>,
    n: int,
    k: nat,
) -> (i: int)
    requires
        0 <= n <= elements.len(),
        k < commands_before(elements, n),
    ensures
        0 <= i < n,
        elements[i] is Command,
        commands_before(elements, i) == k,
    decreases n,
{
    if elements[n - 1] is Command && commands_before(elements, n - 1) == k {
        n - 1
    } else {
        lemma_commands_before_reaches(elements, n - 1, k)
    }
}

/// Joining no fragments gives the empty bytecode, and joining one fragment
/// more gives what combining the joined fragments with it gives.
pub proof fn lemma_fragments_elements_push(
    fragments: Seq<Seq<BytecodeElementView>>,
    fragment: Seq<BytecodeElementView>,
)
    ensures
        fragments_elements(Seq::empty()) == Seq::<BytecodeElementView>::empty(),
        fragments_elements(fragments.push(fragment)) == fragments_elements(fragments) + fragment,
{
    fragments.lemma_flatten_push(fragment);
}

/// Encoding one element more appends its bytes to those of the elements
/// before it.
pub proof fn lemma_elements_bytes_step(elements: Seq<BytecodeElementView>, k: int)
    requires
        0 <= k < elements.len(),
    ensures
        elements_bytes(elements.take(k + 1)) == elements_bytes(elements.take(k))
            + elements[k].encoding(),
{
    let encode = |element: BytecodeElementView| element.encoding();
    assert(elements.take(k + 1).map_values(encode) =~= elements.take(k).map_values(encode).push(
        elements[k].encoding(),
    ));
    elements.take(k).map_values(encode).lemma_flatten_push(elements[k].encoding());
}

/// A bytecode without elements has no bytes, is within the limits of the
/// encoding, and does not end in a return.
pub proof fn lemma_empty_bytecode()
    ensures
        elements_bytes(Seq::<BytecodeElementView>::empty()) == Seq::<u8>::empty(),
        elements_encodable(Seq::<BytecodeElementView>::empty()),
        !ends_in_return(Seq::<BytecodeElementView>::empty()),
{
    let none = Seq::<BytecodeElementView>::empty();
    assert(none.map_values(|element: BytecodeElementView| element.encoding()) =~= Seq::<
        Seq<u8>,
    >::empty());
}

/// Whatever stood before it, a bytecode ends in a return exactly if its last
/// element is a command that returns from a bytecode function: after such a
/// command is appended it does, and after any other command or a label it
/// does not.
pub proof fn lemma_ends_in_return_push(
    elements: Seq<BytecodeElementView>,
    element: BytecodeElementView,
)
    ensures
        ends_in_return(elements.push(element)) <==> (element matches BytecodeElementView::Command(
            command,
        ) && command.instruction == Instruction::ReturnBytecodeFunc),
{
    assert(elements.push(element).last() == element);
}

/// Appending an element appends its bytes to the byte stream: those of a
/// command, and none for a label.
pub proof fn lemma_elements_bytes_push(
    elements: Seq<BytecodeElementView>,
    element: BytecodeElementView,
)
    ensures
        elements_bytes(elements.push(element)) == elements_bytes(elements) + element.encoding(),
        element is Label ==> elements_bytes(elements.push(element)) == elements_bytes(elements),
{
    let extended = elements.push(element);
    lemma_elements_bytes_step(extended, elements.len() as int);
    assert(extended.take(elements.len() as int) =~= elements);
    assert(extended.take(elements.len() as int + 1) =~= extended);
    assert(elements_bytes(elements) + Seq::<u8>::empty() =~= elements_bytes(elements));
}

/// Combining is associative and keeps the order: combining three bytecodes
/// either way gives the elements of the first, then those of the second,
/// then those of the third, each at its place and unchanged.
pub proof fn lemma_combine_associative(
    a: Seq<BytecodeElementView>,
    b: Seq<BytecodeElementView>,
    c: Seq<BytecodeElementView>,
)
    ensures
        (a + b) + c == a + (b + c),
        ((a + b) + c).len() == a.len() + b.len() + c.len(),
        forall|i: int| 0 <= i < a.len() ==> ((a + b) + c)[i] == a[i],
        forall|i: int| 0 <= i < b.len() ==> ((a + b) + c)[a.len() + i] == b[i],
        forall|i: int| 0 <= i < c.len() ==> ((a + b) + c)[a.len() + b.len() + i] == c[i],
{
    assert((a + b) + c =~= a + (b + c));
}

/// The byte stream of a combined bytecode is the byte stream of the first
/// followed by that of the second, and it is within the limits of the
/// encoding exactly if both are.
pub proof fn lemma_combine_bytes(a: Seq<BytecodeElementView>, b: Seq<BytecodeElementView>)
    ensures
        elements_bytes(a + b) == elements_bytes(a) + elements_bytes(b),
        elements_encodable(a + b) <==> elements_encodable(a) && elements_encodable(b),
{
    let encode = |element: BytecodeElementView| element.encoding();
    assert((a + b).map_values(encode) =~= a.map_values(encode) + b.map_values(encode));
    vstd::seq_lib::lemma_flatten_concat(a.map_values(encode), b.map_values(encode));
    if elements_encodable(a + b) {
        assert forall|i: int| 0 <= i < a.len() implies (#[trigger] a[i]).encodable() by {
            assert((a + b)[i] == a[i]);
        }
        assert forall|i: int| 0 <= i < b.len() implies (#[trigger] b[i]).encodable() by {
            assert((a + b)[a.len() + i] == b[i]);
        }
    }
}

impl ToBytes for Bytecode {
    open spec fn encodable(&self) -> bool {
        elements_encodable(self@)
    }

    open spec fn encoding(&self) -> Seq<u8> {
        elements_bytes(self@)
    }

    /// Encodes the bytecode.
    fn to_bytes(&self) -> (bytes: Vec<u8>) {
        let mut stream: Vec<u8> = Vec::new();
        assert(elements_bytes(self@.take(0)) =~= Seq::<u8>::empty()) by {
            assert(self@.take(0).map_values(|element: BytecodeElementView| element.encoding())
                =~= Seq::<Seq<u8>>::empty());
        }
        let mut i: usize = 0;
        while i < self.elements.len()
            invariant
                i <= self.elements.len(),
                elements_encodable(self@),
                stream@ == elements_bytes(self@.take(i as int)),
            decreases self.elements.len() - i,
        {
            assert(self@[i as int].encodable());
            let mut bytes: Vec<u8> = self.elements[i].to_bytes();
            proof {
                lemma_elements_bytes_step(self@, i as int);
            }
            stream.append(&mut bytes);
            i = i + 1;
        }
        assert(self@.take(i as int) =~= self@);
        stream
    }
}

} // verus!
