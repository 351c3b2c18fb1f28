//! The pattern lexer: turns a pattern string into a sequence of
//! quantifier-aware tokens.

use vstd::prelude::*;
use crate::fsm::FSM_COLUMN_SIZE;

verus! {

/// One matchable unit of a pattern.
#[derive(Clone, Copy, PartialEq, Eq, Debug)]
pub enum Atom {
    /// `.` in a pattern: matches every printable character.
    Any,
    /// `$` in a pattern: matches only the end of the input.
    EndLine,
    /// Any other pattern character: matches exactly itself.
    Char(char),
}

/// A lexed pattern element: an atom matched exactly once, or zero or more
/// times (greedily).  `+` is desugared by the lexer into `Atom` followed by
/// `Star` of the same atom, so it needs no token kind of its own.
#[derive(Clone, Copy, PartialEq, Eq, Debug)]
pub enum Token {
    Atom(Atom),
    Star(Atom),
}

/// Why a pattern was rejected at compile time.
#[derive(Clone, Copy, PartialEq, Eq, Debug)]
pub enum CompileError {
    /// A `*` or `+` stood where an atom was expected, so it had no
    /// preceding atom to quantify.
    InvalidQuantifier,
    /// A literal pattern character lies outside the supported symbol-code
    /// range of the transition table.
    UnsupportedSymbol,
}

pub open spec fn is_quantifier(c: char) -> bool {
    c == '*' || c == '+'
}

pub open spec fn is_metachar(c: char) -> bool {
    c == '.' || c == '$' || c == '*' || c == '+'
}

/// The atom a single non-quantifier pattern character stands for.
pub open spec fn atom_of_char(c: char) -> Atom {
    if c == '.' {
        Atom::Any
    } else if c == '$' {
        Atom::EndLine
    } else {
        Atom::Char(c)
    }
}

/// Whether a pattern character can stand in a pattern: metacharacters are
/// handled structurally, and any other character must have a symbol code
/// inside the table's range.
pub open spec fn char_supported(c: char) -> bool {
    is_metachar(c) || (c as int) < FSM_COLUMN_SIZE as int
}

/// The tokens the lexer hands the compiler for pattern `s`, or the first
/// error found scanning left to right: an atom character followed by `*`
/// becomes one `Star` token, followed by `+` it becomes the atom once and
/// then its `Star`, and otherwise it becomes a bare `Atom` token.
pub open spec fn spec_lex(s: Seq<char>) -> Result<Seq<Token>, CompileError>
    decreases s.len(),
{
    if s.len() == 0 {
        Ok(Seq::empty())
    } else if is_quantifier(s[0]) {
        Err(CompileError::InvalidQuantifier)
    } else if !char_supported(s[0]) {
        Err(CompileError::UnsupportedSymbol)
    } else {
        let atom = atom_of_char(s[0]);
        if s.len() > 1 && s[1] == '*' {
            match spec_lex(s.skip(2)) {
                Ok(rest) => Ok(seq![Token::Star(atom)] + rest),
                Err(e) => Err(e),
            }
        } else if s.len() > 1 && s[1] == '+' {
            match spec_lex(s.skip(2)) {
                Ok(rest) => Ok(seq![Token::Atom(atom), Token::Star(atom)] + rest),
                Err(e) => Err(e),
            }
        } else {
            match spec_lex(s.skip(1)) {
                Ok(rest) => Ok(seq![Token::Atom(atom)] + rest),
                Err(e) => Err(e),
            }
        }
    }
}

proof fn lemma_skip_skip(s: Seq<char>, i: int, k: int)
    requires
        0 <= i,
        0 <= k,
        i + k <= s.len(),
    ensures
        s.skip(i).skip(k) == s.skip(i + k),
{
    assert(s.skip(i).skip(k) =~= s.skip(i + k));
}

/// A pattern character that is matched purely literally: not a
/// metacharacter, and inside the table's symbol range.
pub open spec fn is_plain_char(c: char) -> bool {
    !is_metachar(c) && (c as int) < FSM_COLUMN_SIZE as int
}

/// A pattern containing no metacharacters (and no characters the lexer
/// rejects): every character stands for itself.
pub open spec fn is_plain_pattern(p: Seq<char>) -> bool {
    forall |i: int| 0 <= i < p.len() ==> is_plain_char(#[trigger] p[i])
}

/// A plain pattern lexes without error, to exactly one literal atom token
/// per character.
pub proof fn lemma_lex_plain(p: Seq<char>)
    requires
        is_plain_pattern(p),
    ensures
        spec_lex(p) is Ok,
        spec_lex(p)->Ok_0.len() == p.len(),
        forall |k: int| 0 <= k < p.len() ==> (#[trigger] spec_lex(p)->Ok_0[k])
            == Token::Atom(Atom::Char(p[k])),
    decreases p.len(),
{
    if p.len() > 0 {
        let rest = p.skip(1);
        assert(forall |i: int| 0 <= i < rest.len() ==> is_plain_char(#[trigger] rest[i]));
        lemma_lex_plain(rest);
        let head = seq![Token::Atom(Atom::Char(p[0]))];
        let toks = spec_lex(p)->Ok_0;
        assert(toks == head + spec_lex(rest)->Ok_0);
        assert forall |k: int| 0 <= k < p.len() implies (#[trigger] toks[k]) == Token::Atom(
            Atom::Char(p[k]),
        ) by {
            if k > 0 {
                assert(toks[k] == spec_lex(rest)->Ok_0[k - 1]);
                assert(rest[k - 1] == p[k]);
            }
        }
    }
}

/// Scan `src` left to right and produce its token sequence, or the first
/// error: a quantifier with nothing to quantify, or an unsupported literal
/// character.
pub fn lexer(src: &str) -> (result: Result<Vec<Token>, CompileError>)
    ensures
        (match result {
            Ok(tokens) => spec_lex(src@) == Ok::<Seq<Token>, CompileError>(tokens@),
            Err(e) => spec_lex(src@) == Err::<Seq<Token>, CompileError>(e),
        }),
{
    let n = src.unicode_len();
    let mut result: Vec<Token> = Vec::new();
    let mut i: usize = 0;
    proof {
        assert(src@.skip(0) =~= src@);
    }
    while i < n
        invariant
            n == src@.len(),
            i <= n,
            spec_lex(src@) == (match spec_lex(src@.skip(i as int)) {
                Ok(rest) => Ok::<Seq<Token>, CompileError>(result@ + rest),
                Err(e) => Err::<Seq<Token>, CompileError>(e),
            }),
        decreases n - i,
    {
        let ghost rem = src@.skip(i as int);
        let ghost result0 = result@;
        let c = src.get_char(i);
        proof {
            assert(rem.len() == n - i);
            assert(rem[0] == src@[i as int]);
        }
        if c == '*' || c == '+' {
            return Err(CompileError::InvalidQuantifier);
        }
        let atom: Atom;
        if c == '.' {
            atom = Atom::Any;
        } else if c == '$' {
            atom = Atom::EndLine;
        } else {
            if c as usize >= FSM_COLUMN_SIZE {
                return Err(CompileError::UnsupportedSymbol);
            }
            atom = Atom::Char(c);
        }
        proof {
            assert(atom == atom_of_char(rem[0]));
        }
        let mut next_is_star = false;
        let mut next_is_plus = false;
        if i + 1 < n {
            let c2 = src.get_char(i + 1);
            proof {
                assert(rem[1] == src@[i as int + 1]);
            }
            next_is_star = c2 == '*';
            next_is_plus = c2 == '+';
        }
        if next_is_star {
            result.push(Token::Star(atom));
            proof {
                lemma_skip_skip(src@, i as int, 2);
                if spec_lex(src@.skip(i as int + 2)) is Ok {
                    let rest2 = spec_lex(src@.skip(i as int + 2))->Ok_0;
                    assert(result0 + (seq![Token::Star(atom)] + rest2) =~= result@ + rest2);
                }
            }
            i = i + 2;
        } else if next_is_plus {
            result.push(Token::Atom(atom));
            result.push(Token::Star(atom));
            proof {
                lemma_skip_skip(src@, i as int, 2);
                if spec_lex(src@.skip(i as int + 2)) is Ok {
                    let rest2 = spec_lex(src@.skip(i as int + 2))->Ok_0;
                    assert(result0 + (seq![Token::Atom(atom), Token::Star(atom)] + rest2)
                        =~= result@ + rest2);
                }
            }
            i = i + 2;
        } else {
            result.push(Token::Atom(atom));
            proof {
                lemma_skip_skip(src@, i as int, 1);
                if spec_lex(src@.skip(i as int + 1)) is Ok {
                    let rest2 = spec_lex(src@.skip(i as int + 1))->Ok_0;
                    assert(result0 + (seq![Token::Atom(atom)] + rest2) =~= result@ + rest2);
                }
            }
            i = i + 1;
        }
    }
    proof {
        assert(src@.skip(n as int).len() == 0);
        assert(result@ + Seq::<Token>::empty() =~= result@);
    }
    Ok(result)
}

} // verus!
