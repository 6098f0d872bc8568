use tape_vm::vm;
use tape_vm::{ByteSink, ByteSource, Error, Machine, Program};

struct BrokenSource;

impl ByteSource for BrokenSource {
    fn read_byte(&mut self) -> Result<Option<u8>, std::io::Error> {
        Err(std::io::Error::new(std::io::ErrorKind::Other, "source is broken"))
    }
}

struct BrokenSink;

impl ByteSink for BrokenSink {
    fn write_byte(&mut self, _byte: u8) -> Result<(), std::io::Error> {
        Err(std::io::Error::new(std::io::ErrorKind::BrokenPipe, "sink is broken"))
    }
}

fn output_of_u8(source: &str, input: &[u8]) -> (Result<u64, Error>, Vec<u8>) {
    let mut output = Vec::new();
    let m = Machine::<_, _, u8>::new(source.into(), input, &mut output);
    let r = m.run();
    (r, output)
}

#[test]
fn cat() {
    let input: &[u8] = &[47, 0, 38, 1, 200];
    let mut output = Vec::new();
    let m = Machine::<_, _, u16>::new(",+[-.,+]".into(), input, &mut output);
    assert!(m.run().is_ok());
    assert_eq!(input, output.as_slice());
}

#[test]
fn cat_on_wider_cells_and_other_inputs() {
    let inputs: [&[u8]; 4] = [&[], &[255], &[0, 0, 0], &[1, 2, 3, 254, 255, 0, 255]];
    for input in inputs {
        let mut output = Vec::new();
        let m = Machine::<_, _, u32>::new(",+[-.,+]".into(), input, &mut output);
        assert!(m.run().is_ok());
        assert_eq!(input, output.as_slice());
        let mut output = Vec::new();
        let m = Machine::<_, _, u128>::new(",+[-.,+]".into(), input, &mut output);
        assert!(m.run().is_ok());
        assert_eq!(input, output.as_slice());
    }
}

#[test]
fn cat_on_byte_cells_stops_at_the_byte_255() {
    let (r, output) = output_of_u8(",+[-.,+]", &[5, 6, 255, 7]);
    assert!(r.is_ok());
    assert_eq!(output, vec![5, 6]);
}

#[test]
fn cat_counts_its_steps() {
    // Two steps before the loop, six for each byte echoed (the loop start is
    // passed once), the loop start once, and the completing step.
    let input: &[u8] = &[47, 0, 38, 1, 200];
    let m = Machine::<_, _, u16>::new(",+[-.,+]".into(), input, Vec::new());
    assert_eq!(m.run().unwrap(), 2 + 1 + 5 * 5 + 1);
}

#[test]
fn the_empty_program_completes_in_one_step() {
    let input: &[u8] = &[];
    let m = Machine::<_, _, u8>::new("".into(), input, Vec::new());
    assert_eq!(m.run().unwrap(), 1);
}

#[test]
fn run_counts_the_executed_instructions_and_the_completing_step() {
    let (r, output) = output_of_u8("+++", &[]);
    assert_eq!(r.unwrap(), 4);
    assert!(output.is_empty());
    // `++[-]`: two increments, the loop start, then twice `-` and `]`.
    let (r, _) = output_of_u8("++[-]", &[]);
    assert_eq!(r.unwrap(), 2 + 1 + 2 * 2 + 1);
    // `[+]` on a zero cell jumps over the loop: one step and the completing one.
    let (r, _) = output_of_u8("[+]", &[]);
    assert_eq!(r.unwrap(), 2);
    // `+>+<[->[-]<]`: the inner loop runs once, the outer once.
    let (r, _) = output_of_u8("+>+<[->[-]<]", &[]);
    assert_eq!(r.unwrap(), 4 + 1 + 2 + 1 + 2 + 2 + 1);
    // Comments are steps too.
    let (r, _) = output_of_u8("a b\n", &[]);
    assert_eq!(r.unwrap(), 5);
}

#[test]
fn step_reports_completion_and_changes_nothing() {
    let input: &[u8] = &[];
    let mut m = Machine::<_, _, u8>::new("+".into(), input, Vec::new());
    assert_eq!(m.instruction_pointer(), 0);
    assert!(matches!(m.step(), Ok(false)));
    assert_eq!(m.instruction_pointer(), 1);
    assert_eq!(m.tape().get(), 1);
    assert!(matches!(m.step(), Ok(true)));
    assert!(matches!(m.step(), Ok(true)));
    assert_eq!(m.instruction_pointer(), 1);
    assert_eq!(m.tape().get(), 1);
}

#[test]
fn a_taken_loop_start_goes_on_behind_its_loop_end() {
    let input: &[u8] = &[];
    let mut m = Machine::<_, _, u8>::new("[++]+".into(), input, Vec::new());
    assert!(matches!(m.step(), Ok(false)));
    assert_eq!(m.instruction_pointer(), 4);
    assert!(matches!(m.step(), Ok(false)));
    assert_eq!(m.tape().get(), 1);
    assert!(matches!(m.step(), Ok(true)));
}

#[test]
fn a_taken_loop_end_goes_on_behind_its_loop_start() {
    let input: &[u8] = &[];
    let mut m = Machine::<_, _, u8>::new("++[-]".into(), input, Vec::new());
    for _ in 0..4 {
        assert!(matches!(m.step(), Ok(false)));
    }
    // at the loop end with the cell at 1
    assert_eq!(m.instruction_pointer(), 4);
    assert_eq!(m.tape().get(), 1);
    assert!(matches!(m.step(), Ok(false)));
    assert_eq!(m.instruction_pointer(), 3);
    assert!(matches!(m.step(), Ok(false)));
    assert_eq!(m.tape().get(), 0);
    // the loop end on a zero cell falls through
    assert!(matches!(m.step(), Ok(false)));
    assert_eq!(m.instruction_pointer(), 5);
    assert!(matches!(m.step(), Ok(true)));
}

#[test]
fn an_unmatched_loop_start_on_a_zero_cell_fails_with_its_position() {
    let input: &[u8] = &[];
    let mut m = Machine::<_, _, u8>::new("  [".into(), input, Vec::new());
    assert!(matches!(m.step(), Ok(false)));
    assert!(matches!(m.step(), Ok(false)));
    assert!(matches!(
        m.step(),
        Err(Error::Language(vm::Error::UnmatchedOpenBracket(2)))
    ));
    // the machine is left where it was
    assert_eq!(m.instruction_pointer(), 2);
    let m = Machine::<_, _, u8>::new("  [".into(), input, Vec::new());
    assert!(matches!(
        m.run(),
        Err(Error::Language(vm::Error::UnmatchedOpenBracket(2)))
    ));
}

#[test]
fn an_unmatched_loop_start_on_another_cell_is_passed() {
    let input: &[u8] = &[];
    let mut m = Machine::<_, _, u8>::new("+[".into(), input, Vec::new());
    assert!(matches!(m.step(), Ok(false)));
    assert!(matches!(m.step(), Ok(false)));
    assert_eq!(m.instruction_pointer(), 2);
    assert!(matches!(m.step(), Ok(true)));
    let (r, _) = output_of_u8("+[", &[]);
    assert_eq!(r.unwrap(), 3);
}

#[test]
fn an_unmatched_loop_end_fails_only_on_a_cell_that_is_not_zero() {
    let (r, _) = output_of_u8("]", &[]);
    assert_eq!(r.unwrap(), 2);
    let (r, _) = output_of_u8("+]", &[]);
    assert!(matches!(
        r,
        Err(Error::Language(vm::Error::UnmatchedCloseBracket(1)))
    ));
}

#[test]
fn unmatched_brackets_in_dead_code_do_no_harm() {
    // The loop is skipped, with the unmatched brackets inside it.
    let (r, output) = output_of_u8("[]]+.", &[]);
    assert!(r.is_ok());
    assert_eq!(output, vec![1]);
}

#[test]
fn read_at_the_end_of_input_stores_the_largest_value() {
    let input: &[u8] = &[];
    let mut m = Machine::<_, _, u8>::new(",".into(), input, Vec::new());
    assert!(matches!(m.step(), Ok(false)));
    assert_eq!(m.tape().get(), 255);
    let mut m = Machine::<_, _, u16>::new(",".into(), input, Vec::new());
    assert!(matches!(m.step(), Ok(false)));
    assert_eq!(m.tape().get(), 65535);
    let mut m = Machine::<_, _, u64>::new(",".into(), input, Vec::new());
    assert!(matches!(m.step(), Ok(false)));
    assert_eq!(m.tape().get(), u64::MAX);
}

#[test]
fn read_stores_the_byte_and_overwrites_the_cell() {
    let input: &[u8] = &[200, 3];
    let mut m = Machine::<_, _, u32>::new("+,,,".into(), input, Vec::new());
    assert!(matches!(m.step(), Ok(false)));
    assert!(matches!(m.step(), Ok(false)));
    assert_eq!(m.tape().get(), 200);
    assert!(matches!(m.step(), Ok(false)));
    assert_eq!(m.tape().get(), 3);
    assert!(matches!(m.step(), Ok(false)));
    assert_eq!(m.tape().get(), u32::MAX);
}

#[test]
fn write_emits_the_value_modulo_256() {
    let mut source = String::new();
    for _ in 0..300 {
        source.push('+');
    }
    source.push('.');
    let input: &[u8] = &[];
    let mut output = Vec::new();
    let m = Machine::<_, _, u16>::new(source.as_str().into(), input, &mut output);
    assert_eq!(m.run().unwrap(), 302);
    assert_eq!(output, vec![44]);
}

#[test]
fn write_on_byte_cells_emits_the_cell() {
    let (r, output) = output_of_u8("-.+.+.", &[]);
    assert!(r.is_ok());
    assert_eq!(output, vec![255, 0, 1]);
}

#[test]
fn a_failing_sink_fails_the_step_and_leaves_the_machine() {
    let input: &[u8] = &[];
    let mut m = Machine::<_, _, u8>::new("+.".into(), input, BrokenSink);
    assert!(matches!(m.step(), Ok(false)));
    match m.step() {
        Err(Error::Io(e)) => assert_eq!(e.kind(), std::io::ErrorKind::BrokenPipe),
        _ => panic!("the step should fail with the sink's error"),
    }
    assert_eq!(m.instruction_pointer(), 1);
    assert_eq!(m.tape().get(), 1);
    let m = Machine::<_, _, u8>::new("+.".into(), input, BrokenSink);
    assert!(matches!(m.run(), Err(Error::Io(_))));
}

#[test]
fn a_failing_source_fails_the_step_and_leaves_the_machine() {
    let mut m = Machine::<_, _, u8>::new("+,".into(), BrokenSource, Vec::new());
    assert!(matches!(m.step(), Ok(false)));
    match m.step() {
        Err(Error::Io(e)) => assert_eq!(e.kind(), std::io::ErrorKind::Other),
        _ => panic!("the step should fail with the source's error"),
    }
    assert_eq!(m.instruction_pointer(), 1);
    assert_eq!(m.tape().get(), 1);
}

#[test]
fn endpoints_that_are_not_asked_cannot_fail_a_run() {
    let m = Machine::<_, _, u8>::new("+>-<[-]".into(), BrokenSource, BrokenSink);
    assert!(m.run().is_ok());
}

#[test]
fn moves_reach_both_sides_of_the_start() {
    let input: &[u8] = &[];
    let mut m = Machine::<_, _, u8>::new("+<<+>>>".into(), input, Vec::new());
    for _ in 0..3 {
        assert!(matches!(m.step(), Ok(false)));
    }
    assert_eq!(m.tape().position(), 0);
    assert_eq!(m.tape().len(), 3);
    assert_eq!(m.tape().get(), 0);
    for _ in 0..3 {
        assert!(matches!(m.step(), Ok(false)));
    }
    assert_eq!(m.tape().position(), 2);
    assert_eq!(m.tape().get(), 1);
    assert!(matches!(m.step(), Ok(false)));
    assert_eq!(m.tape().position(), 3);
    assert_eq!(m.tape().len(), 4);
    assert_eq!(m.tape().get(), 0);
}

#[test]
fn slices_are_read_front_to_back() {
    let mut input: &[u8] = &[1, 2];
    assert_eq!(input.read_byte().unwrap(), Some(1));
    assert_eq!(input.read_byte().unwrap(), Some(2));
    assert_eq!(input.read_byte().unwrap(), None);
    assert_eq!(input.read_byte().unwrap(), None);
}

#[test]
fn vectors_are_appended_to() {
    let mut output: Vec<u8> = vec![9];
    output.write_byte(1).unwrap();
    output.write_byte(2).unwrap();
    assert_eq!(output, vec![9, 1, 2]);
}

#[test]
fn errors_convert_into_the_top_level_error() {
    let e: Error = vm::Error::UnmatchedCloseBracket(3).into();
    assert!(matches!(
        e,
        Error::Language(vm::Error::UnmatchedCloseBracket(3))
    ));
    let e: Error = std::io::Error::new(std::io::ErrorKind::Other, "x").into();
    assert!(matches!(e, Error::Io(_)));
}

#[test]
fn moves_to_the_left_of_the_start_and_back() {
    let (r, output) = output_of_u8("+<<<.>>>.", &[]);
    assert_eq!(r.unwrap(), 10);
    assert_eq!(output, vec![0, 1]);
}

#[test]
fn what_was_written_before_a_bracket_error_stays_written() {
    let input: &[u8] = &[];
    let mut output = Vec::new();
    let m = Machine::<_, _, u8>::new(".[".into(), input, &mut output);
    assert!(matches!(
        m.run(),
        Err(Error::Language(vm::Error::UnmatchedOpenBracket(1)))
    ));
    assert_eq!(output, vec![0]);
}

#[test]
fn read_then_write_at_the_end_of_input() {
    let (r, output) = output_of_u8(",.", &[]);
    assert_eq!(r.unwrap(), 3);
    assert_eq!(output, vec![255]);
    let input: &[u8] = &[];
    let mut output = Vec::new();
    let mut m = Machine::<_, _, u16>::new(",.".into(), input, &mut output);
    assert!(matches!(m.step(), Ok(false)));
    assert!(matches!(m.step(), Ok(false)));
    assert!(matches!(m.step(), Ok(true)));
    assert_eq!(output, vec![255]);
}

#[test]
fn a_program_of_moves_and_balanced_loops_always_completes() {
    for source in ["", "><", "[]", "<[>[<]]>", "[[[]]]<<<>>>", "> a [ < b ] c"] {
        let mut output = Vec::new();
        let m = Machine::<_, _, u32>::new(source.into(), BrokenSource, &mut output);
        let steps = m.run().unwrap();
        assert!(steps >= 1 && steps <= source.chars().count() as u64 + 1);
        assert!(output.is_empty());
    }
    let (r, _) = output_of_u8("><[>[<]]>", &[]);
    assert_eq!(r.unwrap(), 5);
}

#[test]
fn a_failure_stops_the_run_and_keeps_what_was_written() {
    struct OneByte(Vec<u8>);
    impl ByteSink for OneByte {
        fn write_byte(&mut self, byte: u8) -> Result<(), std::io::Error> {
            if self.0.is_empty() {
                self.0.push(byte);
                Ok(())
            } else {
                Err(std::io::Error::new(std::io::ErrorKind::WriteZero, "full"))
            }
        }
    }
    let input: &[u8] = &[];
    let mut sink = OneByte(Vec::new());
    let m = Machine::<_, _, u8>::new("+.+.+.".into(), input, &mut sink);
    match m.run() {
        Err(Error::Io(e)) => assert_eq!(e.kind(), std::io::ErrorKind::WriteZero),
        _ => panic!("the run should fail with the sink's error"),
    }
    assert_eq!(sink.0, vec![1]);
}
