//! The machine as mathematics: its states, and what one step makes of a
//! state.
//!
//! A step is a function of the program, the width of the cells, the state,
//! and, for a read, of what the byte source answered. Everything the machine
//! does is stated against this function. What a step does to the source and
//! to the sink is stated beside it, over what each of them says of one call:
//! a read is one call of the source, a write one call of the sink with the
//! low byte of the current cell, and no other step touches either.

use crate::brackets::{close_of, matched, open_of, lemma_close_of, lemma_open_of};
use crate::cell::{loaded, low_byte, pred, succ, lemma_increment_decrement};
use crate::instruction::Instruction;
use crate::io::{ByteSink, ByteSource};
use crate::tape::TapeModel;
use crate::vm;
use vstd::prelude::*;

verus! {

/// The state of a machine between two steps.
pub struct State {
    /// The position in the program of the instruction to execute next.
    pub ip: int,
    /// The tape and the data pointer.
    pub tape: TapeModel,
    /// What the reads so far have stored, oldest first: a byte, or `None`
    /// for a read past the end of the input.
    pub consumed: Seq<Option<u8>>,
    /// The bytes written so far, oldest first.
    pub emitted: Seq<u8>,
}

/// What a step leads to.
pub enum Transition {
    /// The instruction pointer is past the end of the program: the run is
    /// complete, and the state stays as it is.
    Completed,
    /// A bracket without a partner had to jump: the run is over, and the
    /// state stays as it is.
    Fault(vm::Error),
    /// The instruction was executed and the machine goes on from this state.
    Next(State),
}

impl State {
    /// The state of a fresh machine: at the first instruction, nothing read
    /// or written, on a tape of one zero cell.
    pub open spec fn initial() -> State {
        State {
            ip: 0,
            tape: TapeModel::initial(),
            consumed: Seq::empty(),
            emitted: Seq::empty(),
        }
    }

    /// The same state with the instruction pointer at `ip`.
    pub open spec fn at(self, ip: int) -> State {
        State { ip, ..self }
    }

    /// The same state on the tape `tape`.
    pub open spec fn on(self, tape: TapeModel) -> State {
        State { tape, ..self }
    }
}

/// The program has an instruction under the instruction pointer.
pub open spec fn running(p: Seq<Instruction>, s: State) -> bool {
    0 <= s.ip < p.len()
}

/// What one step leads to from the state `s` of a machine that runs the
/// program `p` on cells of `modulus` values. `input` is what the byte source
/// answers if the step reads; no other step looks at it.
///
/// A jump sets the instruction pointer to the partner bracket, and the step
/// then advances it like any other: a taken loop start goes on behind its
/// loop end, a taken loop end behind its loop start.
pub open spec fn next(p: Seq<Instruction>, modulus: int, s: State, input: Option<u8>) -> Transition {
    if !running(p, s) {
        Transition::Completed
    } else {
        match p[s.ip] {
            Instruction::MoveRight => Transition::Next(s.on(s.tape.right()).at(s.ip + 1)),
            Instruction::MoveLeft => Transition::Next(s.on(s.tape.left()).at(s.ip + 1)),
            Instruction::Increment => Transition::Next(
                s.on(s.tape.store(succ(s.tape.current(), modulus))).at(s.ip + 1),
            ),
            Instruction::Decrement => Transition::Next(
                s.on(s.tape.store(pred(s.tape.current(), modulus))).at(s.ip + 1),
            ),
            Instruction::Write => Transition::Next(
                State { emitted: s.emitted.push(low_byte(s.tape.current())), ..s }.at(s.ip + 1),
            ),
            Instruction::Read => Transition::Next(
                State { consumed: s.consumed.push(input), ..s }.on(
                    s.tape.store(loaded(input, modulus)),
                ).at(s.ip + 1),
            ),
            Instruction::While => if s.tape.current() == 0 {
                match close_of(p, s.ip) {
                    Some(close) => Transition::Next(s.at(close + 1)),
                    None => Transition::Fault(vm::Error::UnmatchedOpenBracket(s.ip as usize)),
                }
            } else {
                Transition::Next(s.at(s.ip + 1))
            },
            Instruction::WhileEnd => if s.tape.current() != 0 {
                match open_of(p, s.ip) {
                    Some(open) => Transition::Next(s.at(open + 1)),
                    None => Transition::Fault(vm::Error::UnmatchedCloseBracket(s.ip as usize)),
                }
            } else {
                Transition::Next(s.at(s.ip + 1))
            },
            Instruction::Comment(_) => Transition::Next(s.at(s.ip + 1)),
        }
    }
}

/// The machine can get from the state `from` to the state `to` in exactly
/// `steps` steps, none of which completes the run or fails.
pub open spec fn reaches(
    p: Seq<Instruction>,
    modulus: int,
    from: State,
    to: State,
    steps: nat,
) -> bool
    decreases steps,
{
    if steps == 0 {
        from == to
    } else {
        exists|mid: State, input: Option<u8>|
            reaches(p, modulus, from, mid, (steps - 1) as nat) && #[trigger] next(
                p,
                modulus,
                mid,
                input,
            ) == Transition::Next(to)
    }
}

/// A machine between two steps together with its two ends: the state, the
/// byte source and the byte sink.
pub struct Config<R, W> {
    /// The state of the machine.
    pub state: State,
    /// The byte source, as it then is.
    pub source: R,
    /// The byte sink, as it then is.
    pub sink: W,
}

/// One step takes the machine and its two ends from `from` to `to`.
///
/// A read asks the source once; what the source answered is what the step
/// stored, and the sink is as it was. A write hands the sink the low byte of
/// the current cell once, the sink accepts it, and the source is as it was.
/// Every other step leaves both ends as they were.
pub open spec fn step_of<R: ByteSource, W: ByteSink>(
    p: Seq<Instruction>,
    modulus: int,
    from: Config<R, W>,
    to: Config<R, W>,
) -> bool {
    &&& running(p, from.state)
    &&& match p[from.state.ip] {
        Instruction::Read => {
            &&& R::reads(&from.source, &to.source, Ok(to.state.consumed.last()))
            &&& next(p, modulus, from.state, to.state.consumed.last()) == Transition::Next(
                to.state,
            )
            &&& to.sink == from.sink
        },
        Instruction::Write => {
            &&& W::writes(&from.sink, low_byte(from.state.tape.current()), &to.sink, Ok(()))
            &&& next(p, modulus, from.state, None) == Transition::Next(to.state)
            &&& to.source == from.source
        },
        _ => {
            &&& next(p, modulus, from.state, None) == Transition::Next(to.state)
            &&& to.source == from.source
            &&& to.sink == from.sink
        },
    }
}

/// The step from `from` fails because the end that it asks refuses with the
/// error `e`: the source on a read, the sink on a write of the low byte of
/// the current cell. The state is as it was, and so is the other end; the
/// end that refused is in `to` as the refusal left it.
pub open spec fn io_fails<R: ByteSource, W: ByteSink>(
    p: Seq<Instruction>,
    from: Config<R, W>,
    to: Config<R, W>,
    e: std::io::Error,
) -> bool {
    &&& running(p, from.state)
    &&& to.state == from.state
    &&& match p[from.state.ip] {
        Instruction::Read => R::reads(&from.source, &to.source, Err(e)) && to.sink == from.sink,
        Instruction::Write => W::writes(
            &from.sink,
            low_byte(from.state.tape.current()),
            &to.sink,
            Err(e),
        ) && to.source == from.source,
        _ => false,
    }
}

/// The machine and its two ends can get from `from` to `to` in exactly
/// `steps` steps, none of which completes the run or fails.
pub open spec fn leads_to<R: ByteSource, W: ByteSink>(
    p: Seq<Instruction>,
    modulus: int,
    from: Config<R, W>,
    to: Config<R, W>,
    steps: nat,
) -> bool
    decreases steps,
{
    if steps == 0 {
        from == to
    } else {
        exists|mid: Config<R, W>|
            leads_to(p, modulus, from, mid, (steps - 1) as nat) && #[trigger] step_of(
                p,
                modulus,
                mid,
                to,
            )
    }
}

/// What a run from `start` may return.
///
/// `Ok(n)`: the run was complete after `n - 1` executed instructions; the
/// completing step is counted. A bracket error: the run reached a state in
/// which the model faults with it. `Io(e)`: the run reached a state in which
/// the end that the instruction asks refused with `e`. `StepLimit`: the run
/// went on for `u64::MAX` steps.
pub open spec fn run_returns<R: ByteSource, W: ByteSink>(
    p: Seq<Instruction>,
    modulus: int,
    start: Config<R, W>,
    r: Result<u64, crate::error::Error>,
) -> bool {
    match r {
        Ok(n) => n >= 1 && exists|end: Config<R, W>|
            {
                &&& #[trigger] leads_to(p, modulus, start, end, (n - 1) as nat)
                &&& next(p, modulus, end.state, None) == Transition::Completed
            },
        Err(crate::error::Error::Language(e)) => exists|end: Config<R, W>, steps: nat|
            {
                &&& #[trigger] leads_to(p, modulus, start, end, steps)
                &&& next(p, modulus, end.state, None) == Transition::Fault(e)
            },
        Err(crate::error::Error::Io(e)) => exists|
            end: Config<R, W>,
            after: Config<R, W>,
            steps: nat,
        |
            {
                &&& #[trigger] leads_to(p, modulus, start, end, steps)
                &&& #[trigger] io_fails(p, end, after, e)
            },
        Err(crate::error::Error::StepLimit) => exists|end: Config<R, W>| #[trigger]
            leads_to(p, modulus, start, end, u64::MAX as nat),
    }
}

/// What the machine and its ends do in a run, the machine alone does too.
pub proof fn lemma_leads_to_reaches<R: ByteSource, W: ByteSink>(
    p: Seq<Instruction>,
    modulus: int,
    from: Config<R, W>,
    to: Config<R, W>,
    steps: nat,
)
    requires
        leads_to(p, modulus, from, to, steps),
    ensures
        reaches(p, modulus, from.state, to.state, steps),
    decreases steps,
{
    if steps > 0 {
        let mid = choose|mid: Config<R, W>|
            leads_to(p, modulus, from, mid, (steps - 1) as nat) && #[trigger] step_of(
                p,
                modulus,
                mid,
                to,
            );
        lemma_leads_to_reaches(p, modulus, from, mid, (steps - 1) as nat);
        let input = if p[mid.state.ip] == Instruction::Read {
            to.state.consumed.last()
        } else {
            None
        };
        assert(next(p, modulus, mid.state, input) == Transition::Next(to.state));
    }
}

/// Only a read looks at what the byte source answers.
pub proof fn lemma_input_matters_to_reads_only(
    p: Seq<Instruction>,
    modulus: int,
    s: State,
    a: Option<u8>,
    b: Option<u8>,
)
    requires
        !(running(p, s) && p[s.ip] == Instruction::Read),
    ensures
        next(p, modulus, s, a) == next(p, modulus, s, b),
{
}

/// An increment followed by a decrement, or the reverse, leaves the tape as
/// it was, for every width and every value of the cell.
pub proof fn lemma_increment_then_decrement(
    p: Seq<Instruction>,
    modulus: int,
    s: State,
    input: Option<u8>,
)
    requires
        s.tape.wf(),
        0 <= s.tape.current() < modulus,
        0 <= s.ip,
        s.ip + 1 < p.len(),
        p[s.ip] == Instruction::Increment && p[s.ip + 1] == Instruction::Decrement
            || p[s.ip] == Instruction::Decrement && p[s.ip + 1] == Instruction::Increment,
    ensures
        next(p, modulus, s, input) is Next,
        next(p, modulus, next(p, modulus, s, input)->Next_0, input) == Transition::Next(
            s.at(s.ip + 2),
        ),
{
    lemma_increment_decrement(s.tape.current(), modulus);
    let mid = next(p, modulus, s, input)->Next_0;
    let end = next(p, modulus, mid, input)->Next_0;
    assert(end.tape.cells =~= s.tape.cells);
}

/// A loop start without a partner fails the step that reaches it on a zero
/// cell, with its own position; reached on any other cell it is passed like
/// a comment.
pub proof fn lemma_unmatched_open(p: Seq<Instruction>, modulus: int, s: State, input: Option<u8>)
    requires
        running(p, s),
        p[s.ip] == Instruction::While,
        forall|close: int| !matched(p, s.ip, close),
    ensures
        s.tape.current() == 0 ==> next(p, modulus, s, input) == Transition::Fault(
            vm::Error::UnmatchedOpenBracket(s.ip as usize),
        ),
        s.tape.current() != 0 ==> next(p, modulus, s, input) == Transition::Next(s.at(s.ip + 1)),
{
}

/// A loop end without a partner fails the step that reaches it on a cell
/// that is not zero, with its own position; reached on a zero cell it is
/// passed like a comment.
pub proof fn lemma_unmatched_close(p: Seq<Instruction>, modulus: int, s: State, input: Option<u8>)
    requires
        running(p, s),
        p[s.ip] == Instruction::WhileEnd,
        forall|open: int| !matched(p, open, s.ip),
    ensures
        s.tape.current() != 0 ==> next(p, modulus, s, input) == Transition::Fault(
            vm::Error::UnmatchedCloseBracket(s.ip as usize),
        ),
        s.tape.current() == 0 ==> next(p, modulus, s, input) == Transition::Next(s.at(s.ip + 1)),
{
}

/// A loop start on a zero cell goes on behind its loop end, and a loop end
/// on a cell that is not zero goes on behind its loop start.
pub proof fn lemma_matched_jumps(
    p: Seq<Instruction>,
    modulus: int,
    s: State,
    open: int,
    close: int,
    input: Option<u8>,
)
    requires
        matched(p, open, close),
    ensures
        s.ip == open && s.tape.current() == 0 ==> next(p, modulus, s, input) == Transition::Next(
            s.at(close + 1),
        ),
        s.ip == close && s.tape.current() != 0 ==> next(p, modulus, s, input) == Transition::Next(
            s.at(open + 1),
        ),
{
    lemma_close_of(p, open, close);
    lemma_open_of(p, open, close);
}

} // verus!
