//! The instruction set and the decoding of source characters.

use vstd::prelude::*;
use vstd::std_specs::convert::FromSpecImpl;

verus! {

/// One instruction of the tape language.
///
/// Every character of a source text stands for exactly one instruction. The
/// eight reserved characters are opcodes; any other character is a comment,
/// which does nothing when executed but keeps its place in the program, so
/// that positions in the program are positions in the source.
#[derive(Debug, Clone, Copy, PartialEq, Eq, Hash, Structural)]
pub enum Instruction {
    /// `>`: move the data pointer one cell to the right.
    MoveRight,
    /// `<`: move the data pointer one cell to the left.
    MoveLeft,
    /// `+`: add one to the current cell, wrapping around.
    Increment,
    /// `-`: subtract one from the current cell, wrapping around.
    Decrement,
    /// `.`: write the low byte of the current cell.
    Write,
    /// `,`: read one byte into the current cell.
    Read,
    /// `[`: start of a loop; skipped past its end while the current cell is zero.
    While,
    /// `]`: end of a loop; jumps back to its start while the current cell is not zero.
    WhileEnd,
    /// Any other character, kept as it was written.
    Comment(char),
}

/// The instruction that the source character `c` stands for.
pub open spec fn decode(c: char) -> Instruction {
    if c == '>' {
        Instruction::MoveRight
    } else if c == '<' {
        Instruction::MoveLeft
    } else if c == '+' {
        Instruction::Increment
    } else if c == '-' {
        Instruction::Decrement
    } else if c == '.' {
        Instruction::Write
    } else if c == ',' {
        Instruction::Read
    } else if c == '[' {
        Instruction::While
    } else if c == ']' {
        Instruction::WhileEnd
    } else {
        Instruction::Comment(c)
    }
}

impl FromSpecImpl<char> for Instruction {
    open spec fn obeys_from_spec() -> bool {
        true
    }

    open spec fn from_spec(c: char) -> Instruction {
        decode(c)
    }
}

impl From<char> for Instruction {
    /// Decodes one source character. Never fails: a character that is not an
    /// opcode becomes a comment that carries it.
    fn from(c: char) -> (ins: Instruction)
        ensures
            ins == decode(c),
    {
        match c {
            '>' => Instruction::MoveRight,
            '<' => Instruction::MoveLeft,
            '+' => Instruction::Increment,
            '-' => Instruction::Decrement,
            '.' => Instruction::Write,
            ',' => Instruction::Read,
            '[' => Instruction::While,
            ']' => Instruction::WhileEnd,
            _ => Instruction::Comment(c),
        }
    }
}

} // verus!
