use alan::model::Symbol;
use alan::token::tokenize;

#[test]
fn splits_on_spaces_and_newlines() {
    let toks = tokenize("A B\nC");
    assert_eq!(toks.len(), 3);
    assert_eq!(toks[0], Symbol::new("A"));
    assert_eq!(toks[1], Symbol::new("B"));
    assert_eq!(toks[2], Symbol::new("C"));
}

#[test]
fn all_whitespace_yields_no_tokens() {
    let toks = tokenize("  \n \n   ");
    assert_eq!(toks.len(), 0);
}

#[test]
fn empty_text_yields_no_tokens() {
    let toks = tokenize("");
    assert_eq!(toks.len(), 0);
}

#[test]
fn runs_of_separators_collapse() {
    let toks = tokenize("\n\n  left   right \n");
    assert_eq!(toks.len(), 2);
    assert_eq!(toks[0], Symbol::new("left"));
    assert_eq!(toks[1], Symbol::new("right"));
}

#[test]
fn tabs_are_not_separators() {
    let toks = tokenize("A\tB C");
    assert_eq!(toks.len(), 2);
    assert_eq!(toks[0], Symbol::new("A\tB"));
    assert_eq!(toks[1], Symbol::new("C"));
}
