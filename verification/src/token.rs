//! Splitting raw text into whitespace-delimited tokens, and the token stream
//! the parser consumes.
//!
//! Only the space and newline characters delimit tokens; empty fragments are
//! discarded.  Tokenization always succeeds: all-whitespace text yields an
//! empty token sequence.

use vstd::prelude::*;

use crate::model::Symbol;

verus! {

/// The two characters that separate tokens.
pub open spec fn is_separator(c: char) -> bool {
    c == ' ' || c == '\n'
}

/// The tokens of `s` after the partial token `cur`, read left to right:
/// a separator ends `cur` (dropped if empty), any other character extends it.
pub open spec fn spec_tokens_from(s: Seq<char>, cur: Seq<char>) -> Seq<Seq<char>>
    decreases s.len(),
{
    if s.len() == 0 {
        if cur.len() == 0 {
            Seq::empty()
        } else {
            seq![cur]
        }
    } else if is_separator(s[0]) {
        if cur.len() == 0 {
            spec_tokens_from(s.skip(1), Seq::empty())
        } else {
            seq![cur] + spec_tokens_from(s.skip(1), Seq::empty())
        }
    } else {
        spec_tokens_from(s.skip(1), cur.push(s[0]))
    }
}

/// The sequence of non-empty tokens of `s`, in order of appearance.
pub open spec fn spec_tokens(s: Seq<char>) -> Seq<Seq<char>> {
    spec_tokens_from(s, Seq::empty())
}

/// Text made of separators alone carries no tokens at all.
pub proof fn lemma_whitespace_has_no_tokens(s: Seq<char>)
    requires
        forall|i: int| 0 <= i < s.len() ==> is_separator(s[i]),
    ensures
        spec_tokens(s) == Seq::<Seq<char>>::empty(),
    decreases s.len(),
{
    if s.len() > 0 {
        assert forall|i: int| 0 <= i < s.skip(1).len() implies is_separator(s.skip(1)[i]) by {
            assert(s.skip(1)[i] == s[i + 1]);
        }
        lemma_whitespace_has_no_tokens(s.skip(1));
    }
}

/// Split `src` into its whitespace-delimited tokens.
pub fn tokenize(src: &str) -> (toks: Vec<Symbol>)
    ensures
        toks.deep_view() == spec_tokens(src@),
{
    let ghost s = src@;
    let n = src.unicode_len();
    let mut toks: Vec<Symbol> = Vec::new();
    let mut start: usize = 0;
    let mut i: usize = 0;
    proof {
        assert(s.skip(0) =~= s);
        assert(s.subrange(0, 0) =~= Seq::<char>::empty());
        assert(toks.deep_view() =~= Seq::<Seq<char>>::empty());
        assert(toks.deep_view() + spec_tokens_from(s, Seq::empty()) =~= spec_tokens(s));
    }
    while i < n
        invariant
            n == s.len(),
            s == src@,
            start <= i <= n,
            spec_tokens(s) == toks.deep_view() + spec_tokens_from(
                s.skip(i as int),
                s.subrange(start as int, i as int),
            ),
        decreases n - i,
    {
        let ghost cur = s.subrange(start as int, i as int);
        proof {
            assert(s.skip(i as int)[0] == s[i as int]);
            assert(s.skip(i as int).skip(1) =~= s.skip(i as int + 1));
        }
        let c = src.get_char(i);
        if c == ' ' || c == '\n' {
            if start < i {
                let ghost before = toks.deep_view();
                toks.push(Symbol::new(src.substring_char(start, i)));
                proof {
                    assert(toks.deep_view() =~= before.push(cur));
                    assert(before + (seq![cur] + spec_tokens_from(
                        s.skip(i as int + 1),
                        Seq::empty(),
                    )) =~= toks.deep_view() + spec_tokens_from(
                        s.skip(i as int + 1),
                        Seq::empty(),
                    ));
                }
            } else {
                proof {
                    assert(cur =~= Seq::<char>::empty());
                }
            }
            i = i + 1;
            start = i;
            proof {
                assert(s.subrange(start as int, i as int) =~= Seq::<char>::empty());
            }
        } else {
            i = i + 1;
            proof {
                assert(s.subrange(start as int, i as int) =~= cur.push(s[i - 1]));
            }
        }
    }
    proof {
        assert(s.skip(n as int) =~= Seq::<char>::empty());
    }
    if start < n {
        let ghost before = toks.deep_view();
        let ghost cur = s.subrange(start as int, n as int);
        toks.push(Symbol::new(src.substring_char(start, n)));
        proof {
            assert(toks.deep_view() =~= before.push(cur));
            assert(before + seq![cur] =~= toks.deep_view());
        }
    } else {
        proof {
            assert(s.subrange(start as int, n as int) =~= Seq::<char>::empty());
            assert(toks.deep_view() + Seq::<Seq<char>>::empty() =~= toks.deep_view());
        }
    }
    toks
}

/// A restartable cursor over a tokenized input: the parser reads tokens from
/// the front, one at a time.  Its view is the sequence of tokens not yet
/// consumed.
pub struct Lexer {
    toks: Vec<Symbol>,
    pos: usize,
}

impl View for Lexer {
    type V = Seq<Seq<char>>;

    closed spec fn view(&self) -> Seq<Seq<char>> {
        self.toks.deep_view().skip(self.pos as int)
    }
}

impl Lexer {
    /// The cursor never stands past the end of its token list.
    pub closed spec fn wf(&self) -> bool {
        self.pos <= self.toks.len()
    }

    /// A stream over the given tokens, positioned at the first.
    pub fn new(toks: Vec<Symbol>) -> (l: Lexer)
        ensures
            l.wf(),
            l@ == toks.deep_view(),
    {
        let l = Lexer { toks, pos: 0 };
        proof {
            assert(l@ =~= l.toks.deep_view());
        }
        l
    }

    /// A stream over the tokens of `src`.
    pub fn from_text(src: &str) -> (l: Lexer)
        ensures
            l.wf(),
            l@ == spec_tokens(src@),
    {
        Lexer::new(tokenize(src))
    }

    /// Whether a token remains to be read.
    pub fn has_next(&self) -> (b: bool)
        requires
            self.wf(),
        ensures
            b == (self@.len() > 0),
    {
        self.pos < self.toks.len()
    }

    /// Read the next token, if any remains.
    pub fn next_token(&mut self) -> (r: Option<Symbol>)
        requires
            old(self).wf(),
        ensures
            final(self).wf(),
            old(self)@.len() == 0 ==> r is None && final(self)@ == old(self)@,
            old(self)@.len() > 0 ==> (r matches Some(t) && t@ == old(self)@[0] && final(self)@
                == old(self)@.skip(1)),
    {
        if self.pos < self.toks.len() {
            let t = self.toks[self.pos].clone();
            self.pos = self.pos + 1;
            proof {
                assert(self@ =~= old(self)@.skip(1));
            }
            Some(t)
        } else {
            None
        }
    }
}

} // verus!
