use alan::machine::{any_rule_for_state, Machine};
use alan::model::{Error, Symbol};
use alan::parse::{parse_cases, parse_tape};
use alan::token::Lexer;

fn machine_with(state: &str, tape_text: &str) -> Machine {
    let tape = parse_tape(Lexer::from_text(tape_text)).unwrap();
    let mut machine = Machine::new(tape).unwrap();
    machine.state = Symbol::new(state);
    machine
}

/// Run the print/step loop as the driver does, collecting the printed lines,
/// until the machine halts or a step fails.
fn drive(machine: &mut Machine, cases: &Vec<alan::model::Case>) -> (Vec<String>, Result<(), Error>) {
    let mut lines = Vec::new();
    while !machine.halt {
        let (snapshot, caret) = machine.render();
        lines.push(snapshot);
        lines.push(caret);
        machine.halt = true;
        if machine.head >= machine.tape.len() && any_rule_for_state(cases, &machine.state) {
            panic!("the head ran off the right edge of the tape");
        }
        if let Err(e) = machine.next(cases) {
            return (lines, Err(e));
        }
    }
    (lines, Ok(()))
}

#[test]
fn construction_rejects_the_empty_tape() {
    assert_eq!(Machine::new(Vec::new()).unwrap_err(), Error::EmptyTape);
    let none = parse_tape(Lexer::from_text(" \n")).unwrap();
    assert_eq!(Machine::new(none).unwrap_err(), Error::EmptyTape);
}

#[test]
fn construction_starts_in_inc_at_cell_zero() {
    let tape = parse_tape(Lexer::from_text("a b c")).unwrap();
    let machine = Machine::new(tape).unwrap();
    assert_eq!(machine.state, Symbol::new("Inc"));
    assert_eq!(machine.head, 0);
    assert!(!machine.halt);
    assert_eq!(machine.tape.len(), 3);
    assert_eq!(machine.tape_default, Symbol::new("c"));
}

#[test]
fn one_step_applies_the_matching_rule() {
    let cases = parse_cases(Lexer::from_text("S0 0 1 -> S1")).unwrap();
    let mut machine = machine_with("S0", "0");
    assert!(machine.next(&cases).is_ok());
    assert_eq!(machine.tape[0], Symbol::new("1"));
    assert_eq!(machine.head, 1);
    assert_eq!(machine.state, Symbol::new("S1"));
    assert!(!machine.halt);

    machine.halt = true;
    assert!(machine.next(&cases).is_ok());
    assert!(machine.halt);
    assert_eq!(machine.tape[0], Symbol::new("1"));
    assert_eq!(machine.head, 1);
    assert_eq!(machine.state, Symbol::new("S1"));
}

#[test]
fn left_from_cell_zero_underflows_after_the_write() {
    let cases = parse_cases(Lexer::from_text("S0 0 1 <- S1")).unwrap();
    let mut machine = machine_with("S0", "0");
    assert_eq!(machine.next(&cases).unwrap_err(), Error::TapeUnderflow);
    assert_eq!(machine.tape[0], Symbol::new("1"));
    assert_eq!(machine.head, 0);
    assert_eq!(machine.state, Symbol::new("S0"));
}

#[test]
fn first_rule_in_file_order_wins() {
    let cases =
        parse_cases(Lexer::from_text("S0 0 A -> S1\nS0 0 B -> S2")).unwrap();
    let mut machine = machine_with("S0", "0 0");
    assert!(machine.next(&cases).is_ok());
    assert_eq!(machine.tape[0], Symbol::new("A"));
    assert_eq!(machine.state, Symbol::new("S1"));

    let mut again = machine_with("S0", "0 0");
    assert!(again.next(&cases).is_ok());
    assert_eq!(again.tape[0], Symbol::new("A"));
    assert_eq!(again.state, Symbol::new("S1"));
}

#[test]
fn snapshot_shows_state_tape_and_caret() {
    let machine = machine_with("Inc", "0 1");
    let (line, caret) = machine.render();
    assert_eq!(line, "Inc: 0 1 ");
    assert_eq!(caret, "     ^");

    let mut moved = machine_with("Inc", "0 1");
    moved.head = 1;
    let (line, caret) = moved.render();
    assert_eq!(line, "Inc: 0 1 ");
    assert_eq!(caret, "       ^");
}

#[test]
fn caret_falls_back_to_column_zero_past_the_tape() {
    let mut machine = machine_with("Done", "0");
    machine.head = 1;
    let (line, caret) = machine.render();
    assert_eq!(line, "Done: 0 ");
    assert_eq!(caret, "^");
}

#[test]
fn a_full_run_prints_every_step_and_halts() {
    let cases = parse_cases(Lexer::from_text("Inc 0 1 -> Done")).unwrap();
    let tape = parse_tape(Lexer::from_text("0 0")).unwrap();
    let mut machine = Machine::new(tape).unwrap();
    let (lines, outcome) = drive(&mut machine, &cases);
    assert!(outcome.is_ok());
    assert_eq!(
        lines,
        vec![
            "Inc: 0 0 ".to_string(),
            "     ^".to_string(),
            "Done: 1 0 ".to_string(),
            "        ^".to_string(),
        ]
    );
}

#[test]
fn underflow_aborts_but_keeps_prior_output() {
    let cases = parse_cases(Lexer::from_text("Inc 0 0 <- Inc")).unwrap();
    let tape = parse_tape(Lexer::from_text("0")).unwrap();
    let mut machine = Machine::new(tape).unwrap();
    let (lines, outcome) = drive(&mut machine, &cases);
    assert_eq!(outcome.unwrap_err(), Error::TapeUnderflow);
    assert_eq!(lines, vec!["Inc: 0 ".to_string(), "     ^".to_string()]);
}

#[test]
fn two_runs_print_identical_output() {
    let program = "Inc 0 1 -> Inc\nInc 1 0 -> Done";
    let tape_text = "0 1 0";
    let mut first_lines = Vec::new();
    let mut second_lines = Vec::new();
    for lines in [&mut first_lines, &mut second_lines] {
        let cases = parse_cases(Lexer::from_text(program)).unwrap();
        let tape = parse_tape(Lexer::from_text(tape_text)).unwrap();
        let mut machine = Machine::new(tape).unwrap();
        let (run, outcome) = drive(&mut machine, &cases);
        assert!(outcome.is_ok());
        *lines = run;
    }
    assert_eq!(first_lines, second_lines);
}

#[test]
fn rules_for_other_states_do_not_fire() {
    let cases = parse_cases(Lexer::from_text("Other 0 1 -> Other")).unwrap();
    let mut machine = machine_with("S0", "0");
    machine.halt = true;
    assert!(machine.next(&cases).is_ok());
    assert!(machine.halt);
    assert_eq!(machine.tape[0], Symbol::new("0"));
    assert!(!any_rule_for_state(&cases, &Symbol::new("S0")));
    assert!(any_rule_for_state(&cases, &Symbol::new("Other")));
}
