//! Parsing the token stream into a rule table or a tape.
//!
//! A program is zero or more five-token rules `STATE READ WRITE (-> | <-)
//! NEXT`; a tape is every remaining token, one cell each.  Parsing stops at
//! the first failure and reports it.

use vstd::prelude::*;

use crate::model::{Case, CaseV, Error, ErrorV, Step, Symbol};
use crate::token::Lexer;

verus! {

/// The head movement encoded by a step token: `->` is right, `<-` is left,
/// anything else is no step at all.
pub open spec fn spec_step_of(t: Seq<char>) -> Option<Step> {
    if t == "->"@ {
        Some(Step::Right)
    } else if t == "<-"@ {
        Some(Step::Left)
    } else {
        None
    }
}

/// The rule encoded by the first five tokens of `ts`, whose step token
/// encodes `st`.
pub open spec fn spec_case_of(ts: Seq<Seq<char>>, st: Step) -> CaseV {
    CaseV { state: ts[0], read: ts[1], write: ts[2], step: st, next: ts[4] }
}

/// The rule table encoded by a whole token stream: five-token rules in
/// program order until the stream is exhausted.  A stream that ends inside a
/// rule is `UnexpectedEnd`; a bad step token is `InvalidStep` with that
/// token.
pub open spec fn spec_parse_cases(ts: Seq<Seq<char>>) -> Result<Seq<CaseV>, ErrorV>
    decreases ts.len(),
{
    if ts.len() == 0 {
        Ok(Seq::empty())
    } else if ts.len() < 4 {
        Err(ErrorV::UnexpectedEnd)
    } else if spec_step_of(ts[3]) is None {
        Err(ErrorV::InvalidStep(ts[3]))
    } else if ts.len() == 4 {
        Err(ErrorV::UnexpectedEnd)
    } else {
        match spec_parse_cases(ts.skip(5)) {
            Ok(rest) => Ok(
                seq![spec_case_of(ts, spec_step_of(ts[3]).unwrap())] + rest,
            ),
            Err(e) => Err(e),
        }
    }
}

/// Consume exactly one token as a symbol; fail with `UnexpectedEnd` if none
/// remains.
pub fn parse_symbol(lexer: &mut Lexer) -> (r: Result<Symbol, Error>)
    requires
        old(lexer).wf(),
    ensures
        final(lexer).wf(),
        old(lexer)@.len() == 0 ==> (r matches Err(e) && e@ == ErrorV::UnexpectedEnd && final(lexer)@ == old(lexer)@),
        old(lexer)@.len() > 0 ==> (r matches Ok(t) && t@ == old(lexer)@[0] && final(lexer)@ == old(lexer)@.skip(1)),
{
    match lexer.next_token() {
        Some(t) => Ok(t),
        None => Err(Error::UnexpectedEnd),
    }
}

/// Consume one token and require it to encode a head movement; fail with
/// `InvalidStep` carrying the offending token otherwise.
pub fn parse_step(lexer: &mut Lexer) -> (r: Result<Step, Error>)
    requires
        old(lexer).wf(),
    ensures
        final(lexer).wf(),
        old(lexer)@.len() == 0 ==> (r matches Err(e) && e@ == ErrorV::UnexpectedEnd && final(lexer)@ == old(lexer)@),
        old(lexer)@.len() > 0 ==> final(lexer)@ == old(lexer)@.skip(1),
        old(lexer)@.len() > 0 ==> match spec_step_of(old(lexer)@[0]) {
            Some(st) => r matches Ok(got) && got == st,
            None => r matches Err(e) && e@ == ErrorV::InvalidStep(old(lexer)@[0]),
        },
{
    let symbol = match parse_symbol(lexer) {
        Ok(t) => t,
        Err(e) => {
            return Err(e);
        },
    };
    let right = String::from_str("->");
    if symbol.name == right {
        return Ok(Step::Right);
    }
    let left = String::from_str("<-");
    if symbol.name == left {
        return Ok(Step::Left);
    }
    Err(Error::InvalidStep(symbol))
}

/// Consume five tokens as one rule, in the fixed order state, read, write,
/// step, next, propagating the first failure.
pub fn parse_case(lexer: &mut Lexer) -> (r: Result<Case, Error>)
    requires
        old(lexer).wf(),
    ensures
        final(lexer).wf(),
        old(lexer)@.len() >= 5 && spec_step_of(old(lexer)@[3]) is Some ==> (r matches Ok(c) && c@
            == spec_case_of(old(lexer)@, spec_step_of(old(lexer)@[3]).unwrap()) && final(lexer)@
            == old(lexer)@.skip(5)),
        old(lexer)@.len() < 4 ==> (r matches Err(e) && e@ == ErrorV::UnexpectedEnd && final(lexer)@.len() == 0),
        old(lexer)@.len() >= 4 && spec_step_of(old(lexer)@[3]) is None ==> (r matches Err(e) && e@
            == ErrorV::InvalidStep(old(lexer)@[3]) && final(lexer)@ == old(lexer)@.skip(4)),
        old(lexer)@.len() == 4 && spec_step_of(old(lexer)@[3]) is Some ==> (r matches Err(e) && e@
            == ErrorV::UnexpectedEnd && final(lexer)@ == old(lexer)@.skip(4)),
{
    let ghost ts = lexer@;
    let state = match parse_symbol(lexer) {
        Ok(t) => t,
        Err(e) => {
            return Err(e);
        },
    };
    proof {
        assert(lexer@ =~= ts.skip(1));
    }
    let read = match parse_symbol(lexer) {
        Ok(t) => t,
        Err(e) => {
            return Err(e);
        },
    };
    proof {
        assert(lexer@ =~= ts.skip(2));
    }
    let write = match parse_symbol(lexer) {
        Ok(t) => t,
        Err(e) => {
            return Err(e);
        },
    };
    proof {
        assert(lexer@ =~= ts.skip(3));
    }
    let step = match parse_step(lexer) {
        Ok(st) => st,
        Err(e) => {
            return Err(e);
        },
    };
    proof {
        assert(lexer@ =~= ts.skip(4));
    }
    let next = match parse_symbol(lexer) {
        Ok(t) => t,
        Err(e) => {
            return Err(e);
        },
    };
    proof {
        assert(lexer@ =~= ts.skip(5));
    }
    Ok(Case { state, read, write, step, next })
}

/// Parse rules until the token stream is exhausted, in program order.
pub fn parse_cases(lexer: Lexer) -> (r: Result<Vec<Case>, Error>)
    requires
        lexer.wf(),
    ensures
        spec_parse_cases(lexer@) matches Ok(cs) ==> (r matches Ok(v) && v.deep_view() == cs),
        spec_parse_cases(lexer@) matches Err(e) ==> (r matches Err(got) && got@ == e),
{
    let ghost ts0 = lexer@;
    let mut stream = lexer;
    let mut cases: Vec<Case> = Vec::new();
    proof {
        assert(cases.deep_view() =~= Seq::<CaseV>::empty());
        if spec_parse_cases(ts0) is Ok {
            assert(cases.deep_view() + spec_parse_cases(ts0)->Ok_0 =~= spec_parse_cases(ts0)->Ok_0);
        }
    }
    while stream.has_next()
        invariant
            stream.wf(),
            ts0 == lexer@,
            match spec_parse_cases(stream@) {
                Ok(cs) => spec_parse_cases(ts0) == Ok::<Seq<CaseV>, ErrorV>(
                    cases.deep_view() + cs,
                ),
                Err(e) => spec_parse_cases(ts0) == Err::<Seq<CaseV>, ErrorV>(e),
            },
        decreases stream@.len(),
    {
        let ghost ts = stream@;
        let case = match parse_case(&mut stream) {
            Ok(c) => c,
            Err(e) => {
                return Err(e);
            },
        };
        let ghost before = cases.deep_view();
        cases.push(case);
        proof {
            assert(cases.deep_view() =~= before.push(case@));
            let rest = spec_parse_cases(ts.skip(5));
            if rest is Ok {
                assert(before + (seq![case@] + rest->Ok_0) =~= cases.deep_view()
                    + rest->Ok_0);
            }
        }
    }
    proof {
        assert(cases.deep_view() + Seq::<CaseV>::empty() =~= cases.deep_view());
    }
    Ok(cases)
}

/// Parse every remaining token as one tape cell, left to right.  This never
/// fails: an empty stream yields an empty tape, which the machine
/// constructor rejects.
pub fn parse_tape(lexer: Lexer) -> (r: Result<Vec<Symbol>, Error>)
    requires
        lexer.wf(),
    ensures
        r matches Ok(v) && v.deep_view() == lexer@,
{
    let ghost ts0 = lexer@;
    let mut stream = lexer;
    let mut symbols: Vec<Symbol> = Vec::new();
    proof {
        assert(symbols.deep_view() =~= Seq::<Seq<char>>::empty());
        assert(symbols.deep_view() + ts0 =~= ts0);
    }
    while stream.has_next()
        invariant
            stream.wf(),
            symbols.deep_view() + stream@ == ts0,
        decreases stream@.len(),
    {
        let symbol = match parse_symbol(&mut stream) {
            Ok(t) => t,
            Err(e) => {
                return Err(e);
            },
        };
        let ghost before = symbols.deep_view();
        let ghost remaining = stream@;
        symbols.push(symbol);
        proof {
            assert(symbols.deep_view() =~= before.push(symbol@));
            assert(symbols.deep_view() + remaining =~= ts0);
        }
    }
    proof {
        assert(symbols.deep_view() + stream@ =~= symbols.deep_view());
    }
    Ok(symbols)
}

} // verus!
