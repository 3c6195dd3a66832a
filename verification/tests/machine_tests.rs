use turing_machine::machine::RunError;
use turing_machine::machine::StepResult;
use turing_machine::machine::TuringMachine;
use turing_machine::table::State;
use turing_machine::table::Table;
use turing_machine::table::TapeMove;
use turing_machine::tape::Tape;

#[test]
fn test1() {
    let mut test = TuringMachine::init();

    test.init_tape("0101");

    assert_eq!(test.tape.len(), 4);

    test.move_head(TapeMove::Left);

    test.write_head('0');

    test.move_head(TapeMove::Left);

    test.write_head('0');

    assert_eq!(test.tape.len(), 6);

    assert_eq!(test.relative_position(), 0);

    assert_eq!(test.current_position, -2);
}

#[test]
fn test2() {
    let states = [State {
        name: "q1",
        tape_symbol: '_',
        write_symbol: '0',
        move_tape: TapeMove::Right,
        next_state: "q2",
    }];

    let mut test = TuringMachine::new(
        '_',
        vec!['1', '0'],
        vec!['0', '1', '_'],
        &states,
        "q1",
        vec!["q1"],
        "",
    );

    assert_eq!(test.read_head(), '_');
    test.write_head('0');
    test.move_head(TapeMove::Left);
    assert_eq!(test.read_head(), '_');
    test.write_head('1');
    test.move_head(TapeMove::Left);
    assert_eq!(test.read_head(), '_');
    test.write_head('0');
    test.move_head(TapeMove::Left);

    assert_eq!(test.current_position, -3);

    test.move_head(TapeMove::Right);
    assert_eq!(test.read_head(), '0');

    test.move_head(TapeMove::Right);
    assert_eq!(test.read_head(), '1');

    test.move_head(TapeMove::Right);
    assert_eq!(test.read_head(), '0');

    assert_eq!(test.current_position, 0);

    assert_eq!(test.relative_position(), 2);
}

#[test]
fn simple_check() {
    let mut test = TuringMachine::init();

    test.init_tape("0101");

    assert_eq!(test.show_tape(), String::from("0101"))
}

#[test]
fn another_simple_check() {
    let mut test = TuringMachine::init();

    test.write_head('0');
    test.move_head(TapeMove::Left);
    test.write_head(' ');
    test.move_head(TapeMove::Left);
    test.write_head(' ');
    test.move_head(TapeMove::Left);
    test.write_head('1');
    test.move_head(TapeMove::Right);
    test.write_head('1');

    assert_eq!(test.show_tape(), String::from("11 0"))
}

#[test]
fn check_if_states_are_distinct() {
    let mut test = TuringMachine::init();

    // should add new state
    test.states.insert(State {
        name: "q1",
        tape_symbol: '1',
        write_symbol: '1',
        move_tape: TapeMove::Left,
        next_state: "q2",
    });

    assert_eq!(test.states.len(), 4);

    // should override existing state
    test.states.insert(State {
        name: "q1",
        tape_symbol: '0',
        write_symbol: '0',
        move_tape: TapeMove::Right,
        next_state: "q9",
    });

    assert_eq!(test.states.len(), 4);
}

#[test]
fn test_transition() {
    let states = [
        State {
            name: "q1",
            tape_symbol: '_',
            write_symbol: '0',
            move_tape: TapeMove::Right,
            next_state: "q2",
        },
        State {
            name: "q2",
            tape_symbol: '_',
            write_symbol: '0',
            move_tape: TapeMove::Right,
            next_state: "q3",
        },
        State {
            name: "q3",
            tape_symbol: '_',
            write_symbol: '0',
            move_tape: TapeMove::Right,
            next_state: "q4",
        },
    ];

    let mut test = TuringMachine::new(
        '_',
        vec!['1', '0'],
        vec!['0', '1', '_'],
        &states,
        "q1",
        vec!["q4"],
        "_",
    );

    assert_eq!(
        test.states.contains(&State {
            name: "q1",
            tape_symbol: '_',
            write_symbol: '0',
            move_tape: TapeMove::Left,
            next_state: "q3",
        }),
        true
    );

    test.step();

    assert_eq!(test.current_position, 1);
    assert_eq!(test.current_state, "q2");

    test.step();

    assert_eq!(test.current_position, 2);
    assert_eq!(test.current_state, "q3");

    test.step();

    assert_eq!(test.current_position, 3);
    assert_eq!(test.current_state, "q4");
}

#[test]
fn blank_default_and_write_then_read() {
    let mut test = TuringMachine::init();

    // a position never written reads as the configured blank symbol
    assert_eq!(test.read_head(), '_');
    test.move_head(TapeMove::Right);
    assert_eq!(test.read_head(), '_');

    // write-then-read at the same position returns exactly the written symbol
    test.write_head('1');
    assert_eq!(test.read_head(), '1');

    // writing the blank symbol still stores a cell
    assert_eq!(test.tape.len(), 1);
    test.move_head(TapeMove::Right);
    test.write_head('_');
    assert_eq!(test.read_head(), '_');
    assert_eq!(test.tape.len(), 2);
}

#[test]
fn extent_is_monotone() {
    let mut test = TuringMachine::init();
    test.init_tape("0101");
    assert_eq!(test.tape.extent(), (0, 3));
    assert_eq!(test.length(), 3);

    // writing inside the existing bounds does not change the extent
    test.move_head(TapeMove::Right);
    test.write_head('1');
    assert_eq!(test.tape.extent(), (0, 3));
    assert_eq!(test.tape.len(), 4);

    // writing outside widens it on that side only
    test.current_position = 5;
    test.write_head('0');
    assert_eq!(test.tape.extent(), (0, 5));
    test.current_position = -1;
    test.write_head('0');
    assert_eq!(test.tape.extent(), (-1, 5));
    assert_eq!(test.length(), 6);
    assert_eq!(test.tape.len(), 6);
}

#[test]
fn relative_position_after_seeding() {
    let mut test = TuringMachine::init();
    test.init_tape("0101");
    assert_eq!(test.current_position, 0);
    assert_eq!(test.relative_position(), 0);

    test.move_head(TapeMove::Right);
    assert_eq!(test.relative_position(), 1);
}

fn chain_machine() -> TuringMachine {
    let states = [
        State {
            name: "q1",
            tape_symbol: '_',
            write_symbol: '0',
            move_tape: TapeMove::Right,
            next_state: "q2",
        },
        State {
            name: "q2",
            tape_symbol: '_',
            write_symbol: '0',
            move_tape: TapeMove::Right,
            next_state: "q3",
        },
        State {
            name: "q3",
            tape_symbol: '_',
            write_symbol: '0',
            move_tape: TapeMove::Right,
            next_state: "q4",
        },
    ];
    TuringMachine::new(
        '_',
        vec!['1', '0'],
        vec!['0', '1', '_'],
        &states,
        "q1",
        vec!["q4"],
        "",
    )
}

#[test]
fn determinism_two_runs_agree_step_by_step() {
    let mut a = chain_machine();
    let mut b = chain_machine();
    for _ in 0..3 {
        let ra = a.step();
        let rb = b.step();
        assert_eq!(ra, rb);
        assert_eq!(a.current_state, b.current_state);
        assert_eq!(a.current_position, b.current_position);
        assert_eq!(a.show_tape(), b.show_tape());
    }
}

#[test]
fn table_overwrite_keeps_count() {
    let mut table = Table::new();
    assert_eq!(table.len(), 0);

    table.insert(State {
        name: "q1",
        tape_symbol: '0',
        write_symbol: '1',
        move_tape: TapeMove::Left,
        next_state: "q2",
    });
    assert_eq!(table.len(), 1);

    // a new key grows the count by exactly one
    table.insert(State {
        name: "q1",
        tape_symbol: '1',
        write_symbol: '1',
        move_tape: TapeMove::Left,
        next_state: "q2",
    });
    assert_eq!(table.len(), 2);

    // an equal key replaces the rule without growing the count
    table.insert(State {
        name: "q1",
        tape_symbol: '0',
        write_symbol: '0',
        move_tape: TapeMove::Right,
        next_state: "q9",
    });
    assert_eq!(table.len(), 2);

    let replaced = table.lookup("q1", '0').unwrap();
    assert_eq!(replaced.write_symbol, '0');
    assert_eq!(replaced.next_state, "q9");
    assert!(matches!(replaced.move_tape, TapeMove::Right));

    assert!(table.lookup("q7", '0').is_none());
}

#[test]
fn scenario_a_seeding() {
    let mut test = TuringMachine::init();
    test.init_tape("0101");
    assert_eq!(test.show_tape(), String::from("0101"));
    assert_eq!(test.tape.len(), 4);
}

#[test]
fn scenario_b_moving_left() {
    let mut test = TuringMachine::init();
    test.init_tape("0101");
    test.move_head(TapeMove::Left);
    test.write_head('0');
    test.move_head(TapeMove::Left);
    test.write_head('0');
    assert_eq!(test.current_position, -2);
    assert_eq!(test.relative_position(), 0);
    assert_eq!(test.tape.len(), 6);
}

fn single_rule_machine() -> TuringMachine {
    let states = [State {
        name: "q1",
        tape_symbol: '_',
        write_symbol: '0',
        move_tape: TapeMove::Right,
        next_state: "q2",
    }];
    TuringMachine::new(
        '_',
        vec!['1', '0'],
        vec!['0', '1', '_'],
        &states,
        "q1",
        vec!["q2"],
        "",
    )
}

#[test]
fn scenario_c_single_step_halts() {
    let mut test = single_rule_machine();
    let r = test.step();
    assert_eq!(test.read_head(), '_');
    assert_eq!(test.show_tape(), String::from("0"));
    assert_eq!(test.current_position, 1);
    assert_eq!(test.current_state, "q2");
    assert_eq!(r, StepResult::Halted);

    let mut fresh = single_rule_machine();
    assert_eq!(fresh.run(), Ok("q2"));
}

#[test]
fn scenario_d_three_step_chain() {
    let mut test = chain_machine();

    let r1 = test.step();
    assert_eq!(r1, StepResult::Continue);
    assert_eq!(test.current_position, 1);
    assert_eq!(test.current_state, "q2");

    let r2 = test.step();
    assert_eq!(r2, StepResult::Continue);
    assert_eq!(test.current_position, 2);
    assert_eq!(test.current_state, "q3");

    let r3 = test.step();
    assert_eq!(r3, StepResult::Halted);
    assert_eq!(test.current_position, 3);
    assert_eq!(test.current_state, "q4");

    let mut fresh = chain_machine();
    assert_eq!(fresh.run(), Ok("q4"));
}

#[test]
fn missing_rule_is_fatal_and_preserves_the_machine() {
    // the only rule reads '0', but the head reads the blank symbol
    let states = [State {
        name: "q1",
        tape_symbol: '0',
        write_symbol: '1',
        move_tape: TapeMove::Right,
        next_state: "q2",
    }];
    let mut test = TuringMachine::new(
        '_',
        vec!['1', '0'],
        vec!['0', '1', '_'],
        &states,
        "q1",
        vec!["q2"],
        "",
    );

    let r = test.step();
    assert_eq!(r, StepResult::Fatal);
    assert_eq!(test.current_state, "q1");
    assert_eq!(test.current_position, 0);
    assert_eq!(test.tape.len(), 0);
    assert_eq!(test.show_tape(), String::from("_"));

    assert_eq!(test.run(), Err(RunError::MissingRule));
    assert_eq!(test.current_state, "q1");
    assert_eq!(test.current_position, 0);
}

#[test]
fn head_at_the_representation_edge() {
    let mut test = TuringMachine {
        blank_symbol: '_',
        input_symbols: vec!['1', '0'],
        tape_symbols: vec!['0', '1', '_'],
        states: Table::new(),
        current_state: "q1",
        tape: Tape::new(),
        current_position: i32::MAX,
        final_states: vec![],
    };
    assert_eq!(test.run(), Err(RunError::HeadOutOfRange));
    assert_eq!(test.current_position, i32::MAX);
}

#[test]
fn status_plain_snapshot() {
    let mut test = TuringMachine::init();
    test.init_tape("0101");
    assert_eq!(test.status(true, false), String::from("====\n0101\n^\n====\n"));
    assert_eq!(test.status(false, false), String::from("0101\n^\n"));

    test.move_head(TapeMove::Right);
    test.move_head(TapeMove::Right);
    assert_eq!(test.status(false, false), String::from("0101\n  ^\n"));
}

#[test]
fn status_detail_line() {
    let test = single_rule_machine();
    assert_eq!(
        test.status(false, true),
        String::from("_\n^\nState:'q1, Pos: '0, Next State:q2, Relative Pos.0'\n")
    );
}

#[test]
fn status_marks_the_head_at_negative_positions() {
    // cells at -2..0 with the head at -2: relative position 0, so the caret
    // sits at the window's left edge even though the absolute position is
    // negative
    let mut test = TuringMachine::init();
    test.write_head('0');
    test.move_head(TapeMove::Left);
    test.write_head('1');
    test.move_head(TapeMove::Left);
    test.write_head('0');
    assert_eq!(test.current_position, -2);
    assert_eq!(test.relative_position(), 0);
    assert_eq!(test.status(false, false), String::from("010\n^\n"));
}

#[test]
fn status_with_head_left_of_the_window() {
    let mut test = single_rule_machine();
    test.move_head(TapeMove::Left);
    // no rule reads the blank in state q2, and the caret line is left bare
    test.current_state = "q2";
    assert_eq!(
        test.status(false, true),
        String::from("_\n\nState:'q2, Pos: '-1, Next State:?, Relative Pos.-1'\n")
    );
}

#[test]
fn status_with_multi_digit_positions() {
    let mut test = single_rule_machine();
    for _ in 0..12 {
        test.move_head(TapeMove::Right);
    }
    assert_eq!(
        test.status(false, true),
        String::from("_\n            ^\nState:'q1, Pos: '12, Next State:q2, Relative Pos.12'\n")
    );
}

#[test]
fn transition_predicts_the_next_state() {
    let test = single_rule_machine();
    assert_eq!(test.transition(), Some("q2"));

    let mut stuck = single_rule_machine();
    stuck.current_state = "q9";
    assert_eq!(stuck.transition(), None);
}
