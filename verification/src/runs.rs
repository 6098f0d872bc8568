//! Whole runs: what holds of every state that a run can reach.

use crate::brackets::{lemma_close_of, lemma_open_of, matched, rise};
use crate::cell::{lemma_increment_decrement, loaded, succ};
use crate::instruction::Instruction;
use crate::io::{ByteSink, ByteSource};
use crate::model::{
    io_fails, leads_to, lemma_leads_to_reaches, next, reaches, run_returns, running, step_of,
    Config, State, Transition,
};
use crate::program::parse;
use vstd::prelude::*;

verus! {

/// The program holds no read.
pub open spec fn reads_nothing(p: Seq<Instruction>) -> bool {
    forall|i: int| 0 <= i < p.len() ==> p[i] != Instruction::Read
}

/// A run of a program without reads is determined: after a given number of
/// steps it is in one state only.
pub proof fn lemma_run_determined(
    p: Seq<Instruction>,
    modulus: int,
    from: State,
    a: State,
    b: State,
    steps: nat,
)
    requires
        reads_nothing(p),
        reaches(p, modulus, from, a, steps),
        reaches(p, modulus, from, b, steps),
    ensures
        a == b,
    decreases steps,
{
    if steps > 0 {
        let (mid_a, in_a) = choose|mid: State, input: Option<u8>|
            reaches(p, modulus, from, mid, (steps - 1) as nat) && #[trigger] next(
                p,
                modulus,
                mid,
                input,
            ) == Transition::Next(a);
        let (mid_b, in_b) = choose|mid: State, input: Option<u8>|
            reaches(p, modulus, from, mid, (steps - 1) as nat) && #[trigger] next(
                p,
                modulus,
                mid,
                input,
            ) == Transition::Next(b);
        lemma_run_determined(p, modulus, from, mid_a, mid_b, (steps - 1) as nat);
    }
}

/// A run that takes `more` steps has passed, after any smaller number of
/// steps, through a state from which it went on.
pub proof fn lemma_run_prefix(
    p: Seq<Instruction>,
    modulus: int,
    from: State,
    to: State,
    fewer: nat,
    more: nat,
) -> (r: (State, Option<u8>))
    requires
        fewer < more,
        reaches(p, modulus, from, to, more),
    ensures
        reaches(p, modulus, from, r.0, fewer),
        next(p, modulus, r.0, r.1) is Next,
    decreases more,
{
    let (mid, input) = choose|mid: State, input: Option<u8>|
        reaches(p, modulus, from, mid, (more - 1) as nat) && #[trigger] next(
            p,
            modulus,
            mid,
            input,
        ) == Transition::Next(to);
    if fewer == more - 1 {
        (mid, input)
    } else {
        lemma_run_prefix(p, modulus, from, mid, fewer, (more - 1) as nat)
    }
}

/// A program without reads completes after one number of steps only, if it
/// completes at all: the count that a run returns is a function of the
/// program and the state it started in.
pub proof fn lemma_step_count_determined(
    p: Seq<Instruction>,
    modulus: int,
    from: State,
    a: State,
    b: State,
    steps_a: nat,
    steps_b: nat,
)
    requires
        reads_nothing(p),
        reaches(p, modulus, from, a, steps_a),
        reaches(p, modulus, from, b, steps_b),
        next(p, modulus, a, None) == Transition::Completed,
        next(p, modulus, b, None) == Transition::Completed,
    ensures
        steps_a == steps_b,
        a == b,
{
    if steps_a < steps_b {
        let (c, input) = lemma_run_prefix(p, modulus, from, b, steps_a, steps_b);
        lemma_run_determined(p, modulus, from, a, c, steps_a);
    } else if steps_b < steps_a {
        let (c, input) = lemma_run_prefix(p, modulus, from, a, steps_b, steps_a);
        lemma_run_determined(p, modulus, from, b, c, steps_b);
    } else {
        lemma_run_determined(p, modulus, from, a, b, steps_a);
    }
}

/// The program `,+[-.,+]`, which copies its input to its output: read a
/// byte and add one; while that is not zero, take the one off again, write
/// the byte, read the next and add one.
pub open spec fn cat() -> Seq<Instruction> {
    seq![
        Instruction::Read,
        Instruction::Increment,
        Instruction::While,
        Instruction::Decrement,
        Instruction::Write,
        Instruction::Read,
        Instruction::Increment,
        Instruction::WhileEnd,
    ]
}

/// `cat()` is what the text `,+[-.,+]` decodes to.
pub proof fn lemma_cat_source()
    ensures
        parse(",+[-.,+]"@) == cat(),
{
    reveal_strlit(",+[-.,+]");
    assert(parse(",+[-.,+]"@) =~= cat());
}

/// What was read ends the copying: one more than it is zero in the cells'
/// arithmetic. The end of the input always does. A byte does only where
/// it is the largest value of the cell, so only the byte 255 in cells of
/// one byte.
pub open spec fn ends_copy(input: Option<u8>, modulus: int) -> bool {
    succ(loaded(input, modulus), modulus) == 0
}

/// The bytes of a sequence of reads that all found a byte.
pub open spec fn bytes_of(reads: Seq<Option<u8>>) -> Seq<u8> {
    Seq::new(reads.len(), |i: int| reads[i]->0)
}

/// None of the reads but the last ended the copying, and the bytes written
/// are the bytes of those reads.
pub open spec fn copied_all_but_last(s: State, modulus: int) -> bool {
    &&& s.consumed.len() >= 1
    &&& forall|i: int| 0 <= i < s.consumed.len() - 1 ==> !ends_copy(#[trigger] s.consumed[i], modulus)
    &&& s.emitted == bytes_of(s.consumed.drop_last())
}

/// None of the reads ended the copying, and the bytes written are the bytes
/// read.
pub open spec fn copied_all(s: State, modulus: int) -> bool {
    &&& forall|i: int| 0 <= i < s.consumed.len() ==> !ends_copy(#[trigger] s.consumed[i], modulus)
    &&& s.emitted == bytes_of(s.consumed)
}

/// What holds of `cat()` between any two of its steps, by the place of the
/// instruction pointer.
pub open spec fn cat_invariant(s: State, modulus: int) -> bool {
    let last = s.consumed.last();
    let cell = s.tape.cells[0];
    &&& s.tape.cells.len() == 1
    &&& s.tape.head == 0
    &&& if s.ip == 0 || s.ip == 5 {
        copied_all(s, modulus)
    } else if s.ip == 1 || s.ip == 6 {
        copied_all_but_last(s, modulus) && cell == loaded(last, modulus)
    } else if s.ip == 2 || s.ip == 7 {
        copied_all_but_last(s, modulus) && cell == succ(loaded(last, modulus), modulus)
    } else if s.ip == 3 {
        copied_all_but_last(s, modulus) && cell == succ(loaded(last, modulus), modulus)
            && !ends_copy(last, modulus)
    } else if s.ip == 4 {
        copied_all_but_last(s, modulus) && cell == loaded(last, modulus) && !ends_copy(
            last,
            modulus,
        )
    } else {
        s.ip == 8 && copied_all_but_last(s, modulus) && ends_copy(last, modulus)
    }
}

/// The number of steps after which `cat()` is in the state `s`: five for
/// each byte copied, and what it takes to get from the last read to the
/// place of the instruction pointer.
pub open spec fn cat_steps(s: State) -> int {
    let reads = s.consumed.len() as int;
    if s.ip == 0 || s.ip == 5 {
        5 * reads
    } else if s.ip == 1 || s.ip == 6 {
        5 * (reads - 1) + 1
    } else if s.ip == 2 || s.ip == 7 {
        5 * (reads - 1) + 2
    } else if s.ip == 4 {
        5 * (reads - 1) + 4
    } else {
        5 * (reads - 1) + 3
    }
}

/// In `cat()` the two brackets are partners.
pub proof fn lemma_cat_brackets()
    ensures
        matched(cat(), 2, 7),
{
    let p = cat();
    assert(rise(p, 2, 3) == 0);
    assert(rise(p, 2, 4) == 0);
    assert(rise(p, 2, 5) == 0);
    assert(rise(p, 2, 6) == 0);
    assert(rise(p, 2, 7) == 0);
}

/// A read that does not end the copying found a byte, which is what a write
/// of the cell then emits.
proof fn lemma_copied_byte(input: Option<u8>, modulus: int)
    requires
        modulus >= 256,
        !ends_copy(input, modulus),
    ensures
        input is Some,
        crate::cell::low_byte(loaded(input, modulus)) == input->0,
{
    if input is None {
        assert((modulus - 1 + 1) % modulus == 0) by (nonlinear_arith)
            requires
                modulus > 0,
        ;
    }
}

/// Every step of `cat()` keeps its invariant, and is one step.
proof fn lemma_cat_step(s: State, to: State, modulus: int, input: Option<u8>)
    requires
        modulus >= 256,
        cat_invariant(s, modulus),
        next(cat(), modulus, s, input) == Transition::Next(to),
    ensures
        cat_invariant(to, modulus),
        cat_steps(to) == cat_steps(s) + 1,
{
    let p = cat();
    let last = s.consumed.last();
    lemma_cat_brackets();
    lemma_close_of(p, 2, 7);
    lemma_open_of(p, 2, 7);
    if s.ip == 0 || s.ip == 5 {
        assert(to.consumed.drop_last() =~= s.consumed);
    } else if s.ip == 3 {
        lemma_copied_byte(last, modulus);
        lemma_increment_decrement(loaded(last, modulus), modulus);
    } else if s.ip == 4 {
        lemma_copied_byte(last, modulus);
        assert(s.consumed =~= s.consumed.drop_last().push(last));
        assert(to.emitted =~= bytes_of(to.consumed));
    }
}

/// Every state that `cat()` reaches from the start has its invariant, is
/// reached after the number of steps that its place and its reads give, and
/// does not fail on a bracket, whatever it reads next.
pub proof fn lemma_cat_reaches(end: State, modulus: int, steps: nat)
    requires
        modulus >= 256,
        reaches(cat(), modulus, State::initial(), end, steps),
    ensures
        cat_invariant(end, modulus),
        steps == cat_steps(end),
        forall|input: Option<u8>| !(#[trigger] next(cat(), modulus, end, input) is Fault),
    decreases steps,
{
    lemma_cat_brackets();
    lemma_close_of(cat(), 2, 7);
    lemma_open_of(cat(), 2, 7);
    if steps == 0 {
        assert(State::initial().emitted =~= bytes_of(State::initial().consumed));
    } else {
        let (mid, input) = choose|mid: State, input: Option<u8>|
            reaches(cat(), modulus, State::initial(), mid, (steps - 1) as nat) && #[trigger] next(
                cat(),
                modulus,
                mid,
                input,
            ) == Transition::Next(end);
        lemma_cat_reaches(mid, modulus, (steps - 1) as nat);
        lemma_cat_step(mid, end, modulus, input);
    }
}

/// A complete run of `cat()` from the start has written exactly the bytes it
/// read, in their order, up to the read that ended it. With cells wider than
/// a byte, only the end of the input ends it, so the output is the whole
/// input. With cells of one byte, the byte 255 ends it too.
pub proof fn lemma_cat_copies_input(end: State, modulus: int, steps: nat)
    requires
        modulus >= 256,
        reaches(cat(), modulus, State::initial(), end, steps),
        next(cat(), modulus, end, None) == Transition::Completed,
    ensures
        end.consumed.len() >= 1,
        forall|i: int| 0 <= i < end.consumed.len() - 1 ==> (#[trigger] end.consumed[i]) is Some,
        end.emitted == bytes_of(end.consumed.drop_last()),
        modulus > 256 ==> end.consumed.last() is None,
        modulus == 256 ==> end.consumed.last() is None || end.consumed.last() == Some(255u8),
{
    lemma_cat_reaches(end, modulus, steps);
    assert(!running(cat(), end));
    assert forall|i: int| 0 <= i < end.consumed.len() - 1 implies (#[trigger] end.consumed[i])
        is Some by {
        lemma_copied_byte(end.consumed[i], modulus);
    }
    let last = end.consumed.last();
    if last is Some {
        let b = last->0 as int;
        if b + 1 < modulus {
            assert((b + 1) % modulus == b + 1) by (nonlinear_arith)
                requires
                    0 <= b + 1 < modulus,
            ;
        }
    }
}

/// A sink that is a vector holds, after any run, what it held before and
/// then every byte that the run wrote, in the order of the writes.
pub proof fn lemma_vec_sink_holds_output<R: ByteSource>(
    p: Seq<Instruction>,
    modulus: int,
    from: Config<R, Vec<u8>>,
    to: Config<R, Vec<u8>>,
    steps: nat,
)
    requires
        leads_to(p, modulus, from, to, steps),
    ensures
        from.state.emitted.len() <= to.state.emitted.len(),
        to.state.emitted.take(from.state.emitted.len() as int) == from.state.emitted,
        to.sink@ == from.sink@ + to.state.emitted.skip(from.state.emitted.len() as int),
    decreases steps,
{
    if steps == 0 {
        assert(to.state.emitted.take(from.state.emitted.len() as int) =~= from.state.emitted);
        assert(to.sink@ =~= from.sink@ + to.state.emitted.skip(
            from.state.emitted.len() as int,
        ));
    } else {
        let mid = choose|mid: Config<R, Vec<u8>>|
            leads_to(p, modulus, from, mid, (steps - 1) as nat) && #[trigger] step_of(
                p,
                modulus,
                mid,
                to,
            );
        lemma_vec_sink_holds_output(p, modulus, from, mid, (steps - 1) as nat);
        let k = from.state.emitted.len() as int;
        assert(to.state.emitted.take(k) =~= from.state.emitted);
        assert(to.sink@ =~= from.sink@ + to.state.emitted.skip(k));
    }
}

/// What the `i`-th read of a slice that holds `input` answers: the byte at
/// `i`, or the end of the input behind the last byte.
pub open spec fn answer_of(input: Seq<u8>, i: int) -> Option<u8> {
    if 0 <= i < input.len() {
        Some(input[i])
    } else {
        None
    }
}

/// A source that is a slice answers the reads of any run with its bytes,
/// front first, and with the end of the input after the last; it is left
/// holding the bytes that were not read.
pub proof fn lemma_slice_source_gives_input<'a, W: ByteSink>(
    p: Seq<Instruction>,
    modulus: int,
    from: Config<&'a [u8], W>,
    to: Config<&'a [u8], W>,
    steps: nat,
)
    requires
        leads_to(p, modulus, from, to, steps),
    ensures
        from.state.consumed.len() <= to.state.consumed.len(),
        to.state.consumed.take(from.state.consumed.len() as int) == from.state.consumed,
        forall|i: int|
            from.state.consumed.len() <= i < to.state.consumed.len()
                ==> #[trigger] to.state.consumed[i] == answer_of(
                from.source@,
                i - from.state.consumed.len(),
            ),
        to.source@ == from.source@.skip(
            if to.state.consumed.len() - from.state.consumed.len() <= from.source@.len() {
                to.state.consumed.len() - from.state.consumed.len()
            } else {
                from.source@.len() as int
            },
        ),
    decreases steps,
{
    let k = from.state.consumed.len() as int;
    if steps == 0 {
        assert(to.state.consumed.take(k) =~= from.state.consumed);
        assert(to.source@ =~= from.source@.skip(0));
    } else {
        let mid = choose|mid: Config<&'a [u8], W>|
            leads_to(p, modulus, from, mid, (steps - 1) as nat) && #[trigger] step_of(
                p,
                modulus,
                mid,
                to,
            );
        lemma_slice_source_gives_input(p, modulus, from, mid, (steps - 1) as nat);
        let done = mid.state.consumed.len() - k;
        let len = from.source@.len() as int;
        assert(to.state.consumed.take(k) =~= from.state.consumed);
        if p[mid.state.ip] == Instruction::Read {
            assert(to.state.consumed == mid.state.consumed.push(to.state.consumed.last()));
            if done < len {
                assert(mid.source@ == from.source@.skip(done));
                assert(mid.source@[0] == from.source@[done]);
                assert(to.source@ =~= from.source@.skip(done + 1));
            } else {
                assert(mid.source@.len() == 0);
                assert(to.source@ =~= from.source@.skip(len));
            }
            assert forall|i: int|
                k <= i < to.state.consumed.len() implies #[trigger] to.state.consumed[i]
                == answer_of(from.source@, i - k) by {
                if i < k + done {
                    assert(to.state.consumed[i] == mid.state.consumed[i]);
                }
            }
        } else {
            assert(to.state.consumed == mid.state.consumed);
        }
    }
}

/// `cat()`, on cells wider than a byte, from the start, reading from a slice
/// and writing to a vector: a complete run has put all the bytes of the
/// slice behind what the vector held, in their order, has read the slice to
/// its end, and has taken five steps for each byte and three more.
pub proof fn lemma_cat_copies_slice<'a>(
    modulus: int,
    start: Config<&'a [u8], Vec<u8>>,
    end: Config<&'a [u8], Vec<u8>>,
    steps: nat,
)
    requires
        modulus > 256,
        start.state == State::initial(),
        leads_to(cat(), modulus, start, end, steps),
        next(cat(), modulus, end.state, None) == Transition::Completed,
    ensures
        end.sink@ == start.sink@ + start.source@,
        end.source@.len() == 0,
        steps == 5 * start.source@.len() + 3,
{
    let input = start.source@;
    lemma_leads_to_reaches(cat(), modulus, start, end, steps);
    lemma_cat_reaches(end.state, modulus, steps);
    lemma_cat_copies_input(end.state, modulus, steps);
    lemma_vec_sink_holds_output(cat(), modulus, start, end, steps);
    lemma_slice_source_gives_input(cat(), modulus, start, end, steps);
    let reads = end.state.consumed;
    let n = reads.len() - 1;
    assert(reads[n] == answer_of(input, n));
    if n > 0 {
        assert(reads[n - 1] == answer_of(input, n - 1));
    }
    assert(n == input.len());
    assert forall|i: int| 0 <= i < n implies bytes_of(reads.drop_last())[i] == input[i] by {
        assert(reads[i] == answer_of(input, i));
    }
    assert(end.state.emitted =~= input);
    assert(end.state.emitted.skip(0) =~= end.state.emitted);
}

/// `cat()`, on cells wider than a byte, run from the start on a slice and a
/// vector, returns `Ok` of five steps for each byte of the slice and four
/// more: no bracket fails, neither end refuses, and the step counter
/// suffices as long as that number fits it.
pub proof fn lemma_cat_run_on_slice<'a>(
    modulus: int,
    start: Config<&'a [u8], Vec<u8>>,
    r: Result<u64, crate::error::Error>,
)
    requires
        modulus > 256,
        start.state == State::initial(),
        5 * start.source@.len() + 4 < u64::MAX,
        run_returns(cat(), modulus, start, r),
    ensures
        r is Ok,
        r->Ok_0 == 5 * start.source@.len() + 4,
{
    let input = start.source@;
    match r {
        Ok(n) => {
            let end = choose|end: Config<&'a [u8], Vec<u8>>|
                {
                    &&& #[trigger] leads_to(cat(), modulus, start, end, (n - 1) as nat)
                    &&& next(cat(), modulus, end.state, None) == Transition::Completed
                };
            lemma_cat_copies_slice(modulus, start, end, (n - 1) as nat);
        },
        Err(crate::error::Error::Language(e)) => {
            let (end, steps) = choose|end: Config<&'a [u8], Vec<u8>>, steps: nat|
                {
                    &&& #[trigger] leads_to(cat(), modulus, start, end, steps)
                    &&& next(cat(), modulus, end.state, None) == Transition::Fault(e)
                };
            lemma_leads_to_reaches(cat(), modulus, start, end, steps);
            lemma_cat_reaches(end.state, modulus, steps);
        },
        Err(crate::error::Error::Io(e)) => {
            let (end, after, steps) = choose|
                end: Config<&'a [u8], Vec<u8>>,
                after: Config<&'a [u8], Vec<u8>>,
                steps: nat,
            |
                {
                    &&& #[trigger] leads_to(cat(), modulus, start, end, steps)
                    &&& #[trigger] io_fails(cat(), end, after, e)
                };
        },
        Err(crate::error::Error::StepLimit) => {
            let end = choose|end: Config<&'a [u8], Vec<u8>>| #[trigger]
                leads_to(cat(), modulus, start, end, u64::MAX as nat);
            lemma_leads_to_reaches(cat(), modulus, start, end, u64::MAX as nat);
            lemma_cat_reaches(end.state, modulus, u64::MAX as nat);
            lemma_slice_source_gives_input(cat(), modulus, start, end, u64::MAX as nat);
            let reads = end.state.consumed;
            // Every read but the last found a byte, so there were no more of
            // them than the slice has bytes.
            let ip = end.state.ip;
            if ip == 0 || ip == 5 {
                if reads.len() >= 1 {
                    let i = reads.len() - 1;
                    assert(reads[i] == answer_of(input, i as int));
                    lemma_copied_byte(reads[i], modulus);
                }
            } else if reads.len() >= 2 {
                let i = reads.len() - 2;
                assert(reads[i] == answer_of(input, i as int));
                lemma_copied_byte(reads[i], modulus);
            }
            assert(cat_steps(end.state) <= 5 * input.len() + 4);
        },
    }
}

/// The program only moves the data pointer and loops: it changes no cell
/// and neither reads nor writes.
pub open spec fn only_moves(p: Seq<Instruction>) -> bool {
    forall|i: int|
        0 <= i < p.len() ==> {
            let ins = #[trigger] p[i];
            &&& ins != Instruction::Increment
            &&& ins != Instruction::Decrement
            &&& ins != Instruction::Read
            &&& ins != Instruction::Write
        }
}

/// Every bracket of the program has its partner.
pub open spec fn balanced(p: Seq<Instruction>) -> bool {
    &&& forall|o: int|
        0 <= o < p.len() && #[trigger] p[o] == Instruction::While ==> exists|c: int|
            matched(p, o, c)
    &&& forall|c: int|
        0 <= c < p.len() && #[trigger] p[c] == Instruction::WhileEnd ==> exists|o: int|
            matched(p, o, c)
}

/// The data pointer is on a cell of the tape, and every cell holds zero.
pub open spec fn all_zero(s: State) -> bool {
    &&& s.tape.wf()
    &&& forall|i: int| 0 <= i < s.tape.cells.len() ==> #[trigger] s.tape.cells[i] == 0
}

/// On a tape of zeros, a program that only moves and loops, with balanced
/// brackets, never fails a step; and a step leaves the tape all zero, reads
/// and writes nothing, and takes the instruction pointer forward.
pub proof fn lemma_moves_step(p: Seq<Instruction>, modulus: int, s: State, input: Option<u8>)
    requires
        only_moves(p),
        balanced(p),
        all_zero(s),
        running(p, s),
    ensures
        next(p, modulus, s, input) is Next,
        all_zero(next(p, modulus, s, input)->Next_0),
        s.ip < next(p, modulus, s, input)->Next_0.ip <= p.len(),
        next(p, modulus, s, input)->Next_0.consumed == s.consumed,
        next(p, modulus, s, input)->Next_0.emitted == s.emitted,
{
    let ins = p[s.ip];
    if ins == Instruction::While {
        let c = choose|c: int| matched(p, s.ip, c);
        lemma_close_of(p, s.ip, c);
    }
}

/// A program that only moves and loops, with balanced brackets, goes forward
/// by at least one instruction in every step of a run that starts on a tape
/// of zeros; the tape stays all zero, and nothing is read or written.
pub proof fn lemma_moves_reach(
    p: Seq<Instruction>,
    modulus: int,
    from: State,
    to: State,
    steps: nat,
)
    requires
        only_moves(p),
        balanced(p),
        all_zero(from),
        0 <= from.ip,
        reaches(p, modulus, from, to, steps),
    ensures
        all_zero(to),
        from.ip + steps <= to.ip,
        steps > 0 ==> to.ip <= p.len(),
        to.consumed == from.consumed,
        to.emitted == from.emitted,
    decreases steps,
{
    if steps > 0 {
        let (mid, input) = choose|mid: State, input: Option<u8>|
            reaches(p, modulus, from, mid, (steps - 1) as nat) && #[trigger] next(
                p,
                modulus,
                mid,
                input,
            ) == Transition::Next(to);
        lemma_moves_reach(p, modulus, from, mid, (steps - 1) as nat);
        lemma_moves_step(p, modulus, mid, input);
    }
}

/// A run of a program that neither reads nor writes leaves the source and
/// the sink as they were.
pub proof fn lemma_ends_untouched<R: ByteSource, W: ByteSink>(
    p: Seq<Instruction>,
    modulus: int,
    from: Config<R, W>,
    to: Config<R, W>,
    steps: nat,
)
    requires
        forall|i: int|
            0 <= i < p.len() ==> #[trigger] p[i] != Instruction::Read && p[i]
                != Instruction::Write,
        leads_to(p, modulus, from, to, steps),
    ensures
        to.source == from.source,
        to.sink == from.sink,
    decreases steps,
{
    if steps > 0 {
        let mid = choose|mid: Config<R, W>|
            leads_to(p, modulus, from, mid, (steps - 1) as nat) && #[trigger] step_of(
                p,
                modulus,
                mid,
                to,
            );
        lemma_ends_untouched(p, modulus, from, mid, (steps - 1) as nat);
    }
}

/// A program that only moves and loops, with balanced brackets, run from the
/// start with any source and any sink, always completes: no bracket fails,
/// neither end is asked, and the run takes at most one step for each
/// instruction and the completing one.
pub proof fn lemma_moves_always_complete<R: ByteSource, W: ByteSink>(
    p: Seq<Instruction>,
    modulus: int,
    start: Config<R, W>,
    r: Result<u64, crate::error::Error>,
)
    requires
        only_moves(p),
        balanced(p),
        start.state == State::initial(),
        p.len() < u64::MAX,
        run_returns(p, modulus, start, r),
    ensures
        r is Ok,
        1 <= r->Ok_0 <= p.len() + 1,
{
    match r {
        Ok(n) => {
            let end = choose|end: Config<R, W>|
                {
                    &&& #[trigger] leads_to(p, modulus, start, end, (n - 1) as nat)
                    &&& next(p, modulus, end.state, None) == Transition::Completed
                };
            lemma_leads_to_reaches(p, modulus, start, end, (n - 1) as nat);
            lemma_moves_reach(p, modulus, start.state, end.state, (n - 1) as nat);
        },
        Err(crate::error::Error::Language(e)) => {
            let (end, steps) = choose|end: Config<R, W>, steps: nat|
                {
                    &&& #[trigger] leads_to(p, modulus, start, end, steps)
                    &&& next(p, modulus, end.state, None) == Transition::Fault(e)
                };
            lemma_leads_to_reaches(p, modulus, start, end, steps);
            lemma_moves_reach(p, modulus, start.state, end.state, steps);
            lemma_moves_step(p, modulus, end.state, None);
        },
        Err(crate::error::Error::Io(e)) => {
            let (end, after, steps) = choose|end: Config<R, W>, after: Config<R, W>, steps: nat|
                {
                    &&& #[trigger] leads_to(p, modulus, start, end, steps)
                    &&& #[trigger] io_fails(p, end, after, e)
                };
            assert(p[end.state.ip] != Instruction::Read && p[end.state.ip] != Instruction::Write);
        },
        Err(crate::error::Error::StepLimit) => {
            let end = choose|end: Config<R, W>| #[trigger]
                leads_to(p, modulus, start, end, u64::MAX as nat);
            lemma_leads_to_reaches(p, modulus, start, end, u64::MAX as nat);
            lemma_moves_reach(p, modulus, start.state, end.state, u64::MAX as nat);
        },
    }
}

} // verus!
