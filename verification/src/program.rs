//! Programs: source text decoded into a fixed sequence of instructions.

use crate::instruction::{decode, Instruction};
use vstd::prelude::*;
use vstd::std_specs::convert::FromSpecImpl;

verus! {

/// An ordered sequence of instructions, indexed by position from zero.
///
/// A program is made once and never changed. Its positions are the positions
/// of the characters it was decoded from.
#[derive(Debug, PartialEq)]
pub struct Program(Vec<Instruction>);

impl View for Program {
    type V = Seq<Instruction>;

    closed spec fn view(&self) -> Seq<Instruction> {
        self.0@
    }
}

/// The program that a source text stands for: one instruction per
/// character, in the order of the text.
pub open spec fn parse(source: Seq<char>) -> Seq<Instruction> {
    Seq::new(source.len(), |i: int| decode(source[i]))
}

impl Program {
    /// The instruction at position `i`, or `None` when `i` is past the end.
    pub fn get(&self, i: usize) -> (r: Option<Instruction>)
        ensures
            r == (if i < self@.len() {
                Some(self@[i as int])
            } else {
                None
            }),
    {
        if i < self.0.len() {
            Some(self.0[i])
        } else {
            None
        }
    }

    /// A program's positions fit the machine's word.
    pub proof fn lemma_len(&self)
        ensures
            self@.len() <= usize::MAX,
    {
        broadcast use vstd::std_specs::vec::axiom_spec_len;

        assert(self.0.len() == self@.len());
    }

    /// The number of instructions.
    pub fn len(&self) -> (n: usize)
        ensures
            n == self@.len(),
    {
        self.0.len()
    }

    /// An iterator over the instructions, first to last.
    pub fn iter(&self) -> (it: std::slice::Iter<'_, Instruction>)
        ensures
            vstd::std_specs::slice::into_iter_elts(it) == self@,
    {
        self.0.iter()
    }
}

// Two programs are the same program when their views are equal, so the
// contracts of the conversions are stated on the views, by `from` itself.
impl FromSpecImpl<&str> for Program {
    open spec fn obeys_from_spec() -> bool {
        false
    }

    open spec fn from_spec(source: &str) -> Program {
        arbitrary()
    }
}

impl FromSpecImpl<Vec<Instruction>> for Program {
    open spec fn obeys_from_spec() -> bool {
        false
    }

    open spec fn from_spec(instructions: Vec<Instruction>) -> Program {
        arbitrary()
    }
}

impl From<Vec<Instruction>> for Program {
    /// The program made of the given instructions, in their order.
    fn from(instructions: Vec<Instruction>) -> (program: Program)
        ensures
            program@ == instructions@,
    {
        Program(instructions)
    }
}

impl From<&str> for Program {
    /// Decodes a source text. Never fails, and keeps every character: the
    /// program is as long as the text has characters.
    fn from(source: &str) -> (program: Program)
        ensures
            program@ == parse(source@),
    {
        let mut instructions: Vec<Instruction> = Vec::new();
        for c in it: source.chars()
            invariant
                instructions@ == parse(it.seq().take(it.index() as int)),
        {
            instructions.push(Instruction::from(c));
        }
        Program(instructions)
    }
}

} // verus!
