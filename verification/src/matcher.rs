//! Structural `db.table` exclusion matcher: a pattern is compiled once,
//! at registration, into literal bytes and wildcard tokens, and a name is
//! excluded when some pattern matches somewhere inside it.

use vstd::prelude::*;

verus! {

/// One compiled pattern element.
#[derive(Clone, Copy, PartialEq, Eq, Structural, Debug)]
pub enum Token {
    /// Matches exactly this byte.
    Lit(u8),
    /// Matches a run (possibly empty) of word bytes within one segment.
    Wild,
}

/// A word byte: an ASCII letter, digit or underscore. A wildcard run
/// never crosses a `.` segment boundary, since `.` is not a word byte.
pub open spec fn is_word_byte_spec(b: u8) -> bool {
    (48 <= b <= 57) || (65 <= b <= 90) || (97 <= b <= 122) || b == 95
}

/// Executable twin of `is_word_byte_spec`.
pub fn is_word_byte(b: u8) -> (r: bool)
    ensures
        r == is_word_byte_spec(b),
{
    (48 <= b && b <= 57) || (65 <= b && b <= 90) || (97 <= b && b <= 122) || b == 95
}

/// The tokens `toks[ti ..]` match some prefix of `s[si ..]`: a literal
/// consumes its exact byte, a wildcard either ends its run or consumes
/// one more word byte, and an exhausted token list matches with the rest
/// of `s` ignored.
pub open spec fn toks_match_from(toks: Seq<Token>, ti: int, s: Seq<u8>, si: int) -> bool
    decreases toks.len() - ti, s.len() - si,
{
    if ti < 0 || ti >= toks.len() {
        true
    } else {
        match toks[ti] {
            Token::Lit(c) => 0 <= si < s.len() && s[si] == c && toks_match_from(
                toks,
                ti + 1,
                s,
                si + 1,
            ),
            Token::Wild => toks_match_from(toks, ti + 1, s, si) || (0 <= si < s.len()
                && is_word_byte_spec(s[si]) && toks_match_from(toks, ti, s, si + 1)),
        }
    }
}

/// The compiled pattern matches somewhere inside `s` (unanchored, as a
/// substring search): its tokens match a prefix of some suffix of `s`.
pub open spec fn pattern_matches(toks: Seq<Token>, s: Seq<u8>) -> bool {
    exists|i: int| 0 <= i <= s.len() && toks_match_from(toks, 0, s, i)
}

/// The tokens a pattern string compiles to: `*` becomes a wildcard, any
/// other byte a literal.
pub open spec fn compiled_spec(p: Seq<u8>) -> Seq<Token> {
    p.map_values(|b: u8| if b == 42 { Token::Wild } else { Token::Lit(b) })
}

/// A compiled exclusion pattern.
pub struct Pattern {
    pub tokens: Vec<Token>,
}

impl View for Pattern {
    type V = Seq<Token>;

    open spec fn view(&self) -> Seq<Token> {
        self.tokens@
    }
}

/// Compile a pattern string once, at registration time.
pub fn compile_pattern(p: &Vec<u8>) -> (r: Pattern)
    ensures
        r@ == compiled_spec(p@),
{
    let mut tokens: Vec<Token> = Vec::new();
    let mut i: usize = 0;
    while i < p.len()
        invariant
            i <= p@.len(),
            tokens@ == compiled_spec(p@.take(i as int)),
        decreases p@.len() - i,
    {
        let b = p[i];
        if b == 42 {
            tokens.push(Token::Wild);
        } else {
            tokens.push(Token::Lit(b));
        }
        assert(tokens@ =~= compiled_spec(p@.take(i + 1))) by {
            assert(p@.take(i + 1).drop_last() =~= p@.take(i as int));
        }
        i = i + 1;
    }
    assert(p@.take(p@.len() as int) =~= p@);
    Pattern { tokens }
}

/// Match the tokens from `ti` on against `s` from `si` on, backtracking
/// over whether each wildcard run ends or takes one more word byte.
fn match_from(toks: &Vec<Token>, ti: usize, s: &Vec<u8>, si: usize) -> (r: bool)
    requires
        ti <= toks.len(),
        si <= s.len(),
    ensures
        r == toks_match_from(toks@, ti as int, s@, si as int),
    decreases toks@.len() - ti, s@.len() - si,
{
    if ti == toks.len() {
        return true;
    }
    match toks[ti] {
        Token::Lit(c) => si < s.len() && s[si] == c && match_from(toks, ti + 1, s, si + 1),
        Token::Wild => match_from(toks, ti + 1, s, si) || (si < s.len() && is_word_byte(s[si])
            && match_from(toks, ti, s, si + 1)),
    }
}

/// The pattern matches somewhere inside `s`.
pub fn pattern_is_match(pat: &Pattern, s: &Vec<u8>) -> (r: bool)
    ensures
        r == pattern_matches(pat@, s@),
{
    let mut i: usize = 0;
    loop
        invariant
            i <= s@.len(),
            forall|j: int| 0 <= j < i ==> !#[trigger] toks_match_from(pat@, 0, s@, j),
        decreases s@.len() - i,
    {
        if match_from(&pat.tokens, 0, s, i) {
            return true;
        }
        if i == s.len() {
            return false;
        }
        i = i + 1;
    }
}

} // verus!
