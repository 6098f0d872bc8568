use tape_vm::Tape;

#[test]
fn a_new_tape_is_one_zero_cell() {
    let tape: Tape<u8> = Tape::new();
    assert_eq!(tape.len(), 1);
    assert_eq!(tape.position(), 0);
    assert_eq!(tape.get(), 0);
}

#[test]
fn moving_left_from_the_start_finds_zeros() {
    let mut tape: Tape<u16> = Tape::new();
    for n in 1..=20 {
        tape.move_left();
        assert_eq!(tape.position(), 0);
        assert_eq!(tape.len(), n + 1);
        assert_eq!(tape.get(), 0);
    }
}

#[test]
fn moving_left_at_the_front_keeps_what_was_there_to_the_right() {
    let mut tape: Tape<u8> = Tape::new();
    tape.set(7);
    tape.move_left();
    assert_eq!(tape.get(), 0);
    assert_eq!(tape.position(), 0);
    tape.set(9);
    tape.move_right();
    assert_eq!(tape.position(), 1);
    assert_eq!(tape.get(), 7);
    tape.move_left();
    assert_eq!(tape.get(), 9);
}

#[test]
fn moving_right_makes_a_zero_cell_only_where_none_was() {
    let mut tape: Tape<u32> = Tape::new();
    tape.move_right();
    assert_eq!(tape.len(), 2);
    assert_eq!(tape.position(), 1);
    assert_eq!(tape.get(), 0);
    tape.set(5);
    tape.move_left();
    assert_eq!(tape.len(), 2);
    tape.move_right();
    assert_eq!(tape.len(), 2);
    assert_eq!(tape.get(), 5);
}

#[test]
fn right_then_left_comes_back_to_the_same_cell() {
    let mut tape: Tape<u64> = Tape::new();
    tape.set(1234);
    let start = tape.position();
    for _ in 0..13 {
        tape.move_right();
    }
    assert_eq!(tape.position(), start + 13);
    for _ in 0..13 {
        tape.move_left();
    }
    assert_eq!(tape.position(), start);
    assert_eq!(tape.get(), 1234);
    assert_eq!(tape.len(), 14);
}

#[test]
fn set_changes_only_the_current_cell() {
    let mut tape: Tape<u8> = Tape::new();
    tape.set(1);
    tape.move_right();
    tape.set(2);
    tape.move_right();
    tape.set(3);
    tape.move_left();
    tape.set(20);
    assert_eq!(tape.get(), 20);
    tape.move_left();
    assert_eq!(tape.get(), 1);
    tape.move_right();
    tape.move_right();
    assert_eq!(tape.get(), 3);
}
