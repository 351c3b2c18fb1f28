//! General properties of the engine, stated and proved over the spec-level
//! model that the executable functions' contracts are written against:
//! `spec_lex` for the lexer, `spec_table` for the compiler and
//! `spec_matches` for the matcher.

use vstd::prelude::*;
use crate::fsm::{
    ActionModel, atom_column, atom_matches_code, lookup, spec_matches, spec_run, spec_table,
    lemma_spec_table_index, lemma_spec_table_len, lemma_spec_table_wf,
};
use crate::lexer::{Atom, is_plain_pattern, lemma_lex_plain, spec_lex};

verus! {

/// Determinism: compiling one pattern always yields one table, so two
/// compilations of the same pattern give identical `matches` results on
/// every input.  `Regex::compile` ties each successful result's view to
/// `spec_table` over the pattern's tokens, and `Regex::match_str` ties each
/// result to `spec_matches` over that view, so nothing else can influence a
/// match outcome.
pub proof fn lemma_compile_deterministic(
    p: Seq<char>,
    s: Seq<char>,
    t1: Seq<Seq<ActionModel>>,
    t2: Seq<Seq<ActionModel>>,
)
    requires
        spec_lex(p) is Ok,
        t1 == spec_table(spec_lex(p)->Ok_0),
        t2 == spec_table(spec_lex(p)->Ok_0),
    ensures
        t1 == t2,
        spec_matches(t1, s) == spec_matches(t2, s),
{
}

/// Idempotence: matching mutates nothing, so any two matches of the same
/// compiled table against the same input return the same boolean.
/// `Regex::match_str` takes the table by shared reference and its result
/// equals `spec_matches` of the table's view and the input alone.
pub proof fn lemma_match_idempotent(t: Seq<Seq<ActionModel>>, s: Seq<char>, r1: bool, r2: bool)
    requires
        r1 == spec_matches(t, s),
        r2 == spec_matches(t, s),
    ensures
        r1 == r2,
{
}

proof fn lemma_plain_run(p: Seq<char>, t: Seq<Seq<ActionModel>>, k: int)
    requires
        is_plain_pattern(p),
        spec_lex(p) is Ok,
        t == spec_table(spec_lex(p)->Ok_0),
        0 <= k <= p.len(),
    ensures
        spec_run(t, p, k + 1, k),
    decreases p.len() - k,
{
    let toks = spec_lex(p)->Ok_0;
    lemma_lex_plain(p);
    lemma_spec_table_len(toks);
    lemma_spec_table_wf(toks);
    if k < p.len() {
        lemma_spec_table_index(toks, k + 1);
        assert(t[k + 1] == atom_column(Atom::Char(p[k]), k + 2));
        assert(atom_matches_code(Atom::Char(p[k]), p[k] as int));
        assert(lookup(t, k + 1, p[k] as int) == (ActionModel { next: k + 2, offset: 1 }));
        lemma_plain_run(p, t, k + 1);
        assert(spec_run(t, p, k + 1, k) == spec_run(t, p, k + 2, k + 1));
    }
}

/// Literal exactness: a pattern of plain characters lexes without error and
/// matches itself — the run steps through one literal column per character
/// and leaves the table exactly at its end.
pub proof fn lemma_plain_pattern_matches_itself(p: Seq<char>)
    requires
        is_plain_pattern(p),
    ensures
        spec_lex(p) is Ok,
        spec_matches(spec_table(spec_lex(p)->Ok_0), p),
{
    lemma_lex_plain(p);
    lemma_plain_run(p, spec_table(spec_lex(p)->Ok_0), 0);
}

} // verus!
