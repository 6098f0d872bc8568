use tape_vm::{JumpTable, Program};

#[test]
fn a_pair_is_recorded_both_ways() {
    let table = JumpTable::build(&Program::from("+[-]"));
    assert_eq!(table.close_of(1), Some(3));
    assert_eq!(table.open_of(3), Some(1));
    assert_eq!(table.close_of(0), None);
    assert_eq!(table.close_of(3), None);
    assert_eq!(table.open_of(1), None);
}

#[test]
fn nested_pairs_match_by_depth() {
    //                                       0123456789
    let table = JumpTable::build(&Program::from("[[]a[[]]]"));
    assert_eq!(table.close_of(0), Some(8));
    assert_eq!(table.close_of(1), Some(2));
    assert_eq!(table.close_of(4), Some(7));
    assert_eq!(table.close_of(5), Some(6));
    assert_eq!(table.open_of(8), Some(0));
    assert_eq!(table.open_of(2), Some(1));
    assert_eq!(table.open_of(7), Some(4));
    assert_eq!(table.open_of(6), Some(5));
    assert_eq!(table.close_of(3), None);
    assert_eq!(table.open_of(3), None);
}

#[test]
fn a_close_on_an_empty_stack_is_left_out() {
    let table = JumpTable::build(&Program::from("][]"));
    assert_eq!(table.open_of(0), None);
    assert_eq!(table.close_of(1), Some(2));
    assert_eq!(table.open_of(2), Some(1));
}

#[test]
fn an_open_left_on_the_stack_is_left_out() {
    let table = JumpTable::build(&Program::from("[[]"));
    assert_eq!(table.close_of(0), None);
    assert_eq!(table.close_of(1), Some(2));
    assert_eq!(table.open_of(2), Some(1));
}

#[test]
fn a_program_without_brackets_has_empty_tables() {
    let table = JumpTable::build(&Program::from("+-<>.,x"));
    for i in 0..8 {
        assert_eq!(table.close_of(i), None);
        assert_eq!(table.open_of(i), None);
    }
}
