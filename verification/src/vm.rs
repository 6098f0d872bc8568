//! The machine: a program, a tape, the jump tables and the two I/O ends.

use crate::brackets::JumpTable;
use crate::cell::{decrement, increment, input_cell, is_zero, output_byte, Cell};
use crate::instruction::Instruction;
use crate::io::{ByteSink, ByteSource};
use crate::model::{io_fails, leads_to, next, run_returns, step_of, Config, State, Transition};
use crate::program::Program;
use crate::tape::Tape;
use vstd::prelude::*;

verus! {

/// A loop bracket without a partner, met where the machine had to jump.
#[derive(Debug, Clone, Copy, PartialEq, Eq, Structural)]
pub enum Error {
    /// A loop start was reached on a zero cell, and no loop end closes it.
    /// Holds the position of the loop start.
    UnmatchedOpenBracket(usize),
    /// A loop end was reached on a cell that is not zero, and it closes no
    /// loop start. Holds the position of the loop end.
    UnmatchedCloseBracket(usize),
}

/// A machine that runs one program on one tape, reading from `R` and writing
/// to `W`, with cells of type `I`.
pub struct Machine<R: ByteSource, W: ByteSink, I: Cell> {
    program: Program,
    instruction_ptr: usize,
    memory: Tape<I>,
    jumps: JumpTable,
    input: R,
    output: W,
    consumed: Ghost<Seq<Option<u8>>>,
    emitted: Ghost<Seq<u8>>,
}

impl<R: ByteSource, W: ByteSink, I: Cell> View for Machine<R, W, I> {
    type V = State;

    closed spec fn view(&self) -> State {
        State {
            ip: self.instruction_ptr as int,
            tape: self.memory@,
            consumed: self.consumed@,
            emitted: self.emitted@,
        }
    }
}

impl<R: ByteSource, W: ByteSink, I: Cell> Machine<R, W, I> {
    /// The program that the machine runs.
    pub closed spec fn program(&self) -> Seq<Instruction> {
        self.program@
    }

    /// The byte source, as it now is.
    pub closed spec fn source(&self) -> R {
        self.input
    }

    /// The byte sink, as it now is.
    pub closed spec fn sink(&self) -> W {
        self.output
    }

    /// The jump tables.
    pub closed spec fn jumps(&self) -> JumpTable {
        self.jumps
    }

    /// The machine with its two ends.
    pub open spec fn config(&self) -> Config<R, W> {
        Config { state: self@, source: self.source(), sink: self.sink() }
    }

    /// The machine's invariant: the instruction pointer is in the program or
    /// just past its end, the data pointer is on a cell of the tape, and the
    /// jump tables hold exactly the matched brackets of the program.
    pub closed spec fn wf(&self) -> bool {
        &&& self.instruction_ptr <= self.program@.len()
        &&& self.memory.wf()
        &&& self.jumps.resolves(self.program@)
    }

    /// A well-formed machine is on a well-formed tape of cell values, at a
    /// place in its program or just past the end, and its jump tables hold
    /// exactly the matched brackets of its program.
    pub proof fn lemma_wf(&self)
        requires
            self.wf(),
        ensures
            0 <= self@.ip <= self.program().len(),
            self@.tape.wf(),
            0 <= self@.tape.current() < I::modulus(),
            self.jumps().resolves(self.program()),
    {
    }

    /// A machine at the start of `program`, on a tape of one zero cell.
    ///
    /// The jump tables are built here, once. Brackets without a partner are
    /// accepted: they fail a step only if execution reaches them and has to
    /// jump.
    pub fn new(program: Program, input: R, output: W) -> (machine: Self)
        ensures
            machine.wf(),
            machine.program() == program@,
            machine@ == State::initial(),
            machine.source() == input,
            machine.sink() == output,
            machine.jumps().resolves(program@),
    {
        let jumps = JumpTable::build(&program);
        Machine {
            program,
            instruction_ptr: 0,
            memory: Tape::new(),
            jumps,
            input,
            output,
            consumed: Ghost(Seq::empty()),
            emitted: Ghost(Seq::empty()),
        }
    }

    /// The position in the program of the instruction to execute next.
    pub fn instruction_pointer(&self) -> (ip: usize)
        ensures
            ip == self@.ip,
    {
        self.instruction_ptr
    }

    /// The tape, with the data pointer.
    pub fn tape(&self) -> (tape: &Tape<I>)
        ensures
            tape@ == self@.tape,
            self.wf() ==> tape.wf(),
    {
        &self.memory
    }

    /// Executes the instruction under the instruction pointer.
    ///
    /// Returns `Ok(true)` when there is none left: the run is complete.
    /// Returns `Ok(false)` when the instruction was executed: a read asked
    /// the source once and stored what it answered, a write handed the sink
    /// the low byte of the current cell once, and no other instruction
    /// touched either end. Fails on a bracket that has to jump and has no
    /// partner, leaving machine and ends as they were; and with the error of
    /// the source or of the sink where that end refused, leaving the state
    /// as it was.
    pub fn step(&mut self) -> (r: Result<bool, crate::error::Error>)
        requires
            old(self).wf(),
        ensures
            final(self).wf(),
            final(self).program() == old(self).program(),
            final(self).jumps() == old(self).jumps(),
            match r {
                Ok(true) => {
                    &&& next(old(self).program(), I::modulus(), old(self)@, None)
                        == Transition::Completed
                    &&& final(self).config() == old(self).config()
                },
                Ok(false) => step_of(
                    old(self).program(),
                    I::modulus(),
                    old(self).config(),
                    final(self).config(),
                ),
                Err(crate::error::Error::Language(e)) => {
                    &&& next(old(self).program(), I::modulus(), old(self)@, None)
                        == Transition::Fault(e)
                    &&& final(self).config() == old(self).config()
                },
                Err(crate::error::Error::Io(e)) => io_fails(
                    old(self).program(),
                    old(self).config(),
                    final(self).config(),
                    e,
                ),
                Err(crate::error::Error::StepLimit) => false,
            },
    {
        let ghost p = self.program@;
        let ghost before = self@;
        proof {
            self.program.lemma_len();
        }
        let ip = self.instruction_ptr;
        let instruction = match self.program.get(ip) {
            Some(instruction) => instruction,
            None => {
                return Ok(true);
            },
        };
        match instruction {
            Instruction::MoveRight => {
                self.memory.move_right();
            },
            Instruction::MoveLeft => {
                self.memory.move_left();
            },
            Instruction::Increment => {
                let cell = self.memory.get();
                self.memory.set(increment(cell));
            },
            Instruction::Decrement => {
                let cell = self.memory.get();
                self.memory.set(decrement(cell));
            },
            Instruction::Write => {
                let byte = output_byte(self.memory.get());
                let answer = self.output.write_byte(byte);
                match answer {
                    Ok(()) => {
                        assert(answer->Ok_0 == ());
                        self.emitted = Ghost(self.emitted@.push(byte));
                        self.instruction_ptr = ip + 1;
                        assert(next(p, I::modulus(), before, None) == Transition::Next(self@));
                        return Ok(false);
                    },
                    Err(e) => {
                        return Err(crate::error::Error::from(e));
                    },
                }
            },
            Instruction::Read => {
                match self.input.read_byte() {
                    Ok(input) => {
                        self.memory.set(input_cell(input));
                        self.consumed = Ghost(self.consumed@.push(input));
                        self.instruction_ptr = ip + 1;
                        assert(next(p, I::modulus(), before, input) == Transition::Next(self@));
                        return Ok(false);
                    },
                    Err(e) => {
                        return Err(crate::error::Error::from(e));
                    },
                }
            },
            Instruction::While => {
                if is_zero(self.memory.get()) {
                    proof {
                        self.jumps.lemma_forward(p, ip);
                    }
                    match self.jumps.close_of(ip) {
                        Some(close) => {
                            self.instruction_ptr = close;
                        },
                        None => {
                            return Err(
                                crate::error::Error::from(Error::UnmatchedOpenBracket(ip)),
                            );
                        },
                    }
                }
            },
            Instruction::WhileEnd => {
                if !is_zero(self.memory.get()) {
                    proof {
                        self.jumps.lemma_backward(p, ip);
                    }
                    match self.jumps.open_of(ip) {
                        Some(open) => {
                            self.instruction_ptr = open;
                        },
                        None => {
                            return Err(
                                crate::error::Error::from(Error::UnmatchedCloseBracket(ip)),
                            );
                        },
                    }
                }
            },
            Instruction::Comment(_) => {},
        }
        self.instruction_ptr += 1;
        assert(next(p, I::modulus(), before, None) == Transition::Next(self@));
        Ok(false)
    }

    /// Steps the machine until the run is complete or fails.
    ///
    /// Returns the number of steps taken, the completing one included, so
    /// one more than the number of instructions executed; or the first
    /// failure. The count is kept in 64 bits: a run that is not over after
    /// `u64::MAX` steps is given up with `StepLimit`.
    pub fn run(self) -> (r: Result<u64, crate::error::Error>)
        requires
            self.wf(),
        ensures
            run_returns(self.program(), I::modulus(), self.config(), r),
    {
        let ghost p = self.program();
        let ghost start = self.config();
        let mut machine = self;
        let mut time: u64 = 0;
        while time < u64::MAX
            invariant
                p == self.program(),
                start == self.config(),
                machine.wf(),
                machine.program() == p,
                leads_to(p, I::modulus(), start, machine.config(), time as nat),
            decreases u64::MAX - time,
        {
            let ghost before = machine.config();
            time += 1;
            match machine.step() {
                Ok(true) => {
                    assert(leads_to(p, I::modulus(), start, before, (time - 1) as nat));
                    return Ok(time);
                },
                Ok(false) => {
                    assert(step_of(p, I::modulus(), before, machine.config()));
                },
                Err(e) => {
                    proof {
                        let ghost after = machine.config();
                        assert(leads_to(p, I::modulus(), start, before, (time - 1) as nat));
                        if e is Io {
                            assert(io_fails(p, before, after, e->Io_0));
                        }
                    }
                    return Err(e);
                },
            }
        }
        Err(crate::error::Error::StepLimit)
    }
}

} // verus!
