//! The machine itself: its configuration, the transition step, and the
//! printable snapshot of a configuration.

use vstd::prelude::*;

use crate::model::{Case, CaseV, Error, ErrorV, Step, Symbol};

verus! {

/// The machine's configuration: current state, tape contents, the default
/// cell symbol retained from construction, head position, and the halt flag
/// the driver uses to detect that no rule matched.
#[derive(Debug)]
pub struct Machine {
    pub state: Symbol,
    pub tape: Vec<Symbol>,
    pub tape_default: Symbol,
    pub head: usize,
    pub halt: bool,
}

/// The mathematical value of a [`Machine`]: each symbol taken as its
/// character sequence.
pub struct MachineV {
    pub state: Seq<char>,
    pub tape: Seq<Seq<char>>,
    pub tape_default: Seq<char>,
    pub head: int,
    pub halt: bool,
}

impl View for Machine {
    type V = MachineV;

    open spec fn view(&self) -> MachineV {
        MachineV {
            state: self.state@,
            tape: self.tape.deep_view(),
            tape_default: self.tape_default@,
            head: self.head as int,
            halt: self.halt,
        }
    }
}

/// Whether rule `c` applies to a machine in state `state` reading `read`.
pub open spec fn rule_applies(c: CaseV, state: Seq<char>, read: Seq<char>) -> bool {
    c.state == state && c.read == read
}

/// The first rule of `cs`, in program order, that applies to `(state,
/// read)`, if any does.
pub open spec fn first_match(cs: Seq<CaseV>, state: Seq<char>, read: Seq<char>) -> Option<CaseV>
    decreases cs.len(),
{
    if cs.len() == 0 {
        None
    } else if rule_applies(cs[0], state, read) {
        Some(cs[0])
    } else {
        first_match(cs.skip(1), state, read)
    }
}

/// Whether any rule of `cs` names `state` as its current state.
pub open spec fn has_state_rule(cs: Seq<CaseV>, state: Seq<char>) -> bool {
    exists|j: int| 0 <= j < cs.len() && cs[j].state == state
}

/// One transition of machine `m` under rule table `cs`: the configuration
/// after the step and the error, if any.
///
/// If no rule applies the configuration is unchanged (in particular the
/// halt flag keeps whatever value the driver set).  Otherwise the matched
/// rule's write symbol replaces the cell under the head first; a left move
/// from cell zero then fails with `TapeUnderflow`, and any other move
/// updates the head, switches the state, and clears the halt flag.
pub open spec fn spec_next(m: MachineV, cs: Seq<CaseV>) -> (MachineV, Option<ErrorV>) {
    match first_match(cs, m.state, m.tape[m.head]) {
        None => (m, None),
        Some(c) => {
            let written = MachineV { tape: m.tape.update(m.head, c.write), ..m };
            match c.step {
                Step::Left => {
                    if m.head == 0 {
                        (written, Some(ErrorV::TapeUnderflow))
                    } else {
                        (
                            MachineV {
                                state: c.next,
                                head: m.head - 1,
                                halt: false,
                                ..written
                            },
                            None,
                        )
                    }
                },
                Step::Right => {
                    (MachineV { state: c.next, head: m.head + 1, halt: false, ..written }, None)
                },
            }
        },
    }
}

/// Rule precedence: if rule `i` applies and no earlier rule does, rule `i`
/// is the one that fires; any later rule for the same pair is never chosen.
pub proof fn lemma_first_rule_wins(cs: Seq<CaseV>, state: Seq<char>, read: Seq<char>, i: int)
    requires
        0 <= i < cs.len(),
        rule_applies(cs[i], state, read),
        forall|j: int| 0 <= j < i ==> !rule_applies(cs[j], state, read),
    ensures
        first_match(cs, state, read) == Some(cs[i]),
    decreases i,
{
    if i > 0 {
        assert forall|j: int| 0 <= j < i - 1 implies !rule_applies(
            cs.skip(1)[j],
            state,
            read,
        ) by {
            assert(cs.skip(1)[j] == cs[j + 1]);
        }
        lemma_first_rule_wins(cs.skip(1), state, read, i - 1);
    }
}

/// Halting: no rule of the table applies if and only if the scan finds no
/// match.
pub proof fn lemma_no_rule_matches(cs: Seq<CaseV>, state: Seq<char>, read: Seq<char>)
    ensures
        (first_match(cs, state, read) is None) <==> (forall|j: int|
            0 <= j < cs.len() ==> !rule_applies(cs[j], state, read)),
    decreases cs.len(),
{
    if cs.len() > 0 && !rule_applies(cs[0], state, read) {
        lemma_no_rule_matches(cs.skip(1), state, read);
        if first_match(cs, state, read) is None {
            assert forall|j: int| 0 <= j < cs.len() implies !rule_applies(cs[j], state, read) by {
                if j > 0 {
                    assert(cs.skip(1)[j - 1] == cs[j]);
                }
            }
        } else {
            let j = choose|j: int|
                0 <= j < cs.skip(1).len() && rule_applies(cs.skip(1)[j], state, read);
            assert(cs.skip(1)[j] == cs[j + 1]);
        }
    }
}

/// Determinism: the step outcome and the printed snapshot are functions of
/// the configuration and the rule table alone, so two runs over the same
/// rules and tape take the same steps and print the same text.
pub proof fn lemma_deterministic(m1: MachineV, m2: MachineV, cs1: Seq<CaseV>, cs2: Seq<CaseV>)
    requires
        m1 == m2,
        cs1 == cs2,
    ensures
        spec_next(m1, cs1) == spec_next(m2, cs2),
        spec_snapshot_line(m1) == spec_snapshot_line(m2),
        spec_caret_line(m1) == spec_caret_line(m2),
{
}

/// The tape as printed: each cell followed by one space.
pub open spec fn spec_tape_text(tape: Seq<Seq<char>>) -> Seq<char>
    decreases tape.len(),
{
    if tape.len() == 0 {
        Seq::empty()
    } else {
        spec_tape_text(tape.drop_last()) + tape.last() + seq![' ']
    }
}

/// The first printed line of a snapshot: the state name, a colon and a
/// space, then the tape.
pub open spec fn spec_snapshot_line(m: MachineV) -> Seq<char> {
    m.state + seq![':', ' '] + spec_tape_text(m.tape)
}

/// The printed width of the first `k` tape cells, each with its trailing
/// space.
pub open spec fn spec_prefix_width(tape: Seq<Seq<char>>, k: int) -> int
    decreases k,
{
    if k <= 0 {
        0
    } else {
        spec_prefix_width(tape, k - 1) + tape[k - 1].len() + 1
    }
}

/// The column of the caret: where the head's cell starts on the snapshot
/// line, or column zero when the head stands past the end of the tape.
pub open spec fn spec_caret_col(m: MachineV) -> int {
    if 0 <= m.head < m.tape.len() {
        m.state.len() + 2 + spec_prefix_width(m.tape, m.head)
    } else {
        0
    }
}

/// The second printed line of a snapshot: spaces up to the caret column,
/// then the caret.
pub open spec fn spec_caret_line(m: MachineV) -> Seq<char> {
    Seq::new(spec_caret_col(m) as nat, |i: int| ' ') + seq!['^']
}

proof fn lemma_tape_text_len(tape: Seq<Seq<char>>, k: int)
    requires
        0 <= k <= tape.len(),
    ensures
        spec_tape_text(tape.take(k)).len() == spec_prefix_width(tape, k),
    decreases k,
{
    if k > 0 {
        lemma_tape_text_len(tape, k - 1);
        assert(tape.take(k).drop_last() =~= tape.take(k - 1));
        assert(tape.take(k).last() == tape[k - 1]);
    } else {
        assert(tape.take(0) =~= Seq::<Seq<char>>::empty());
    }
}

impl Machine {
    /// The machine at the start of a run: the hardcoded start state, the
    /// given tape with the head on its first cell, and the tape's last
    /// symbol retained as the default cell symbol.  An empty tape is
    /// rejected with `EmptyTape`.
    pub fn new(tape: Vec<Symbol>) -> (r: Result<Machine, Error>)
        ensures
            tape@.len() == 0 ==> (r matches Err(e) && e@ == ErrorV::EmptyTape),
            tape@.len() > 0 ==> (r matches Ok(m) && m@ == (MachineV {
                state: "Inc"@,
                tape: tape.deep_view(),
                tape_default: tape.deep_view().last(),
                head: 0,
                halt: false,
            })),
    {
        if tape.len() == 0 {
            return Err(Error::EmptyTape);
        }
        let tape_default = tape[tape.len() - 1].clone();
        Ok(Machine { state: Symbol::new("Inc"), tape, tape_default, head: 0, halt: false })
    }

    /// Apply the first rule of `cases` that matches the current state and
    /// the symbol under the head, as [`spec_next`] describes.
    ///
    /// The head must stand on the tape unless no rule so much as names the
    /// current state, in which case the scan touches no cell and the
    /// machine is left unchanged.
    pub fn next(&mut self, cases: &Vec<Case>) -> (r: Result<(), Error>)
        requires
            old(self)@.head < old(self)@.tape.len() || !has_state_rule(
                cases.deep_view(),
                old(self)@.state,
            ),
        ensures
            final(self)@ == spec_next(old(self)@, cases.deep_view()).0,
            (r matches Ok(u) && spec_next(old(self)@, cases.deep_view()).1 is None) || (r
                matches Err(e) && spec_next(old(self)@, cases.deep_view()).1 == Some(e@)),
    {
        let ghost m0 = self@;
        let ghost csv = cases.deep_view();
        let mut i: usize = 0;
        while i < cases.len()
            invariant
                i <= cases.len(),
                self == old(self),
                m0 == self@,
                csv == cases.deep_view(),
                m0.head < m0.tape.len() || !has_state_rule(csv, m0.state),
                forall|j: int| 0 <= j < i ==> !rule_applies(csv[j], m0.state, m0.tape[m0.head]),
            decreases cases.len() - i,
        {
            let case = &cases[i];
            if case.state == self.state {
                proof {
                    assert(csv[i as int].state == m0.state);
                    assert(m0.head < m0.tape.len());
                }
                if case.read == self.tape[self.head] {
                    proof {
                        lemma_first_rule_wins(csv, m0.state, m0.tape[m0.head], i as int);
                    }
                    self.tape[self.head] = case.write.clone();
                    let tape_len = self.tape.len();
                    match case.step {
                        Step::Left => {
                            if self.head == 0 {
                                proof {
                                    assert(self@.tape =~= m0.tape.update(m0.head, csv[i as int].write));
                                }
                                return Err(Error::TapeUnderflow);
                            }
                            self.head = self.head - 1;
                        },
                        Step::Right => {
                            proof {
                                assert(self.head < tape_len);
                            }
                            self.head = self.head + 1;
                        },
                    }
                    self.state = case.next.clone();
                    self.halt = false;
                    proof {
                        assert(self@.tape =~= m0.tape.update(m0.head, csv[i as int].write));
                    }
                    return Ok(());
                }
            }
            i = i + 1;
        }
        proof {
            lemma_no_rule_matches(csv, m0.state, m0.tape[m0.head]);
        }
        Ok(())
    }

    /// The two lines the driver prints for the current configuration: the
    /// snapshot line and the caret line.
    pub fn render(&self) -> (r: (String, String))
        ensures
            r.0@ == spec_snapshot_line(self@),
            r.1@ == spec_caret_line(self@),
    {
        let ghost mv = self@;
        let mut line = self.state.name.clone();
        line.append(": ");
        proof {
            reveal_strlit(": ");
            assert(": "@ =~= seq![':', ' ']);
            assert(mv.tape.take(0) =~= Seq::<Seq<char>>::empty());
            assert(line@ =~= mv.state + seq![':', ' '] + spec_tape_text(mv.tape.take(0)));
        }
        let mut col: usize = 0;
        let mut i: usize = 0;
        while i < self.tape.len()
            invariant
                i <= self.tape.len(),
                mv == self@,
                line@ == mv.state + seq![':', ' '] + spec_tape_text(mv.tape.take(i as int)),
                col == if mv.head < i { spec_caret_col(mv) } else { 0 },
            decreases self.tape.len() - i,
        {
            if i == self.head {
                col = line.unicode_len();
                proof {
                    lemma_tape_text_len(mv.tape, i as int);
                }
            }
            line.append(self.tape[i].text());
            line.append(" ");
            proof {
                reveal_strlit(" ");
                assert(" "@ =~= seq![' ']);
                assert(mv.tape.take(i + 1).drop_last() =~= mv.tape.take(i as int));
                assert(mv.tape.take(i + 1).last() == mv.tape[i as int]);
            }
            i = i + 1;
        }
        proof {
            assert(mv.tape.take(mv.tape.len() as int) =~= mv.tape);
        }
        let mut caret = String::new();
        let mut j: usize = 0;
        while j < col
            invariant
                j <= col,
                caret@ == Seq::new(j as nat, |k: int| ' '),
            decreases col - j,
        {
            caret.append(" ");
            j = j + 1;
            proof {
                reveal_strlit(" ");
                assert(caret@ =~= Seq::new(j as nat, |k: int| ' '));
            }
        }
        caret.append("^");
        proof {
            reveal_strlit("^");
            assert("^"@ =~= seq!['^']);
            assert(caret@ =~= spec_caret_line(mv));
        }
        (line, caret)
    }
}

/// Whether some rule of `cases` names `state` as its current state; the
/// head may only run off the right edge of the tape while this holds of the
/// machine's state.
pub fn any_rule_for_state(cases: &Vec<Case>, state: &Symbol) -> (b: bool)
    ensures
        b == has_state_rule(cases.deep_view(), state@),
{
    let mut i: usize = 0;
    while i < cases.len()
        invariant
            i <= cases.len(),
            forall|j: int| 0 <= j < i ==> cases.deep_view()[j].state != state@,
        decreases cases.len() - i,
    {
        if cases[i].state == *state {
            proof {
                assert(cases.deep_view()[i as int].state == state@);
            }
            return true;
        }
        i = i + 1;
    }
    false
}

} // verus!
