use alan::model::{Error, Step, Symbol};
use alan::parse::{parse_cases, parse_step, parse_symbol, parse_tape};
use alan::token::Lexer;

#[test]
fn one_rule_parses() {
    let cases = parse_cases(Lexer::from_text("S0 0 1 -> S1")).unwrap();
    assert_eq!(cases.len(), 1);
    assert_eq!(cases[0].state, Symbol::new("S0"));
    assert_eq!(cases[0].read, Symbol::new("0"));
    assert_eq!(cases[0].write, Symbol::new("1"));
    assert_eq!(cases[0].step, Step::Right);
    assert_eq!(cases[0].next, Symbol::new("S1"));
}

#[test]
fn left_arrow_parses_as_left() {
    let cases = parse_cases(Lexer::from_text("S0 0 1 <- S1")).unwrap();
    assert_eq!(cases.len(), 1);
    assert_eq!(cases[0].step, Step::Left);
}

#[test]
fn bad_step_token_is_invalid_step() {
    let r = parse_cases(Lexer::from_text("S0 0 1 ?? S1"));
    assert_eq!(r.unwrap_err(), Error::InvalidStep(Symbol::new("??")));
}

#[test]
fn truncated_rule_is_unexpected_end() {
    let r = parse_cases(Lexer::from_text("S0 0 1 ->"));
    assert_eq!(r.unwrap_err(), Error::UnexpectedEnd);
}

#[test]
fn rule_cut_before_step_is_unexpected_end() {
    let r = parse_cases(Lexer::from_text("S0 0"));
    assert_eq!(r.unwrap_err(), Error::UnexpectedEnd);
}

#[test]
fn empty_program_has_no_rules() {
    let cases = parse_cases(Lexer::from_text("")).unwrap();
    assert_eq!(cases.len(), 0);
}

#[test]
fn rules_keep_program_order() {
    let cases = parse_cases(Lexer::from_text("A 0 1 -> B\nB 1 0 <- A")).unwrap();
    assert_eq!(cases.len(), 2);
    assert_eq!(cases[0].state, Symbol::new("A"));
    assert_eq!(cases[1].state, Symbol::new("B"));
}

#[test]
fn tape_keeps_token_order() {
    let tape = parse_tape(Lexer::from_text("0 1\n0")).unwrap();
    assert_eq!(tape.len(), 3);
    assert_eq!(tape[0], Symbol::new("0"));
    assert_eq!(tape[1], Symbol::new("1"));
    assert_eq!(tape[2], Symbol::new("0"));
}

#[test]
fn empty_tape_text_parses_to_no_symbols() {
    let tape = parse_tape(Lexer::from_text(" \n ")).unwrap();
    assert_eq!(tape.len(), 0);
}

#[test]
fn symbol_comes_off_the_stream() {
    let mut lexer = Lexer::from_text("one two");
    assert_eq!(parse_symbol(&mut lexer).unwrap(), Symbol::new("one"));
    assert_eq!(parse_symbol(&mut lexer).unwrap(), Symbol::new("two"));
    assert_eq!(parse_symbol(&mut lexer).unwrap_err(), Error::UnexpectedEnd);
}

#[test]
fn step_tokens_parse_alone() {
    let mut lexer = Lexer::from_text("-> <-");
    assert_eq!(parse_step(&mut lexer).unwrap(), Step::Right);
    assert_eq!(parse_step(&mut lexer).unwrap(), Step::Left);
    assert_eq!(parse_step(&mut lexer).unwrap_err(), Error::UnexpectedEnd);
}

#[test]
fn error_messages_match_the_diagnostics() {
    assert_eq!(
        Error::UnexpectedEnd.message(),
        "expected symbol but reached end of input"
    );
    assert_eq!(
        Error::InvalidStep(Symbol::new("??")).message(),
        "expected '->' or '<-' but got ??"
    );
    assert_eq!(Error::EmptyTape.message(), "tape file may not be empty.");
    assert_eq!(Error::TapeUnderflow.message(), "tape underflow.");
}
