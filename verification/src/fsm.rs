//! The transition table: columns of actions indexed by symbol code, the
//! compiler that builds the table from tokens, and the matcher that walks it.

use vstd::prelude::*;
use crate::lexer::{Atom, CompileError, Token, spec_lex, lexer};

verus! {

/// Number of entries in one transition column: symbol codes `0..=128` for
/// characters plus code `129`, the reserved end-of-input pseudo-symbol.
pub const FSM_COLUMN_SIZE: usize = 130;

/// Symbol code of the reserved end-of-input pseudo-symbol.  It is consumed
/// only by the matcher's post-loop anchor check, never mid-string.
pub const FSM_LINEEND: usize = 129;

/// First printable symbol code (inclusive).
pub const FSM_PRINTABLE_FIRST: usize = 32;

/// One past the last printable symbol code.
pub const FSM_PRINTABLE_END: usize = 127;

/// A state of the automaton, as an index into the table.
pub type FsmIndex = usize;

/// One transition: the state to move to (`0` is the fail state) and how many
/// input positions to advance (`0` or `1`).
#[derive(Clone, Copy, PartialEq, Eq, Debug)]
pub struct FsmAction {
    pub next: FsmIndex,
    pub offset: i32,
}

/// Mathematical value of one transition, over unbounded integers.
pub struct ActionModel {
    pub next: int,
    pub offset: int,
}

impl View for FsmAction {
    type V = ActionModel;

    open spec fn view(&self) -> ActionModel {
        ActionModel { next: self.next as int, offset: self.offset as int }
    }
}

/// The transition written into every entry that no atom claims: go to the
/// fail state without advancing.
pub open spec fn fail_action() -> ActionModel {
    ActionModel { next: 0, offset: 0 }
}

/// The column of the fail state: every entry fails.
pub open spec fn fail_column() -> Seq<ActionModel> {
    Seq::new(FSM_COLUMN_SIZE as nat, |code: int| fail_action())
}

/// One automaton state's outgoing transitions, one action per symbol code.
#[derive(Debug)]
pub struct FsmColumn {
    ts: Vec<FsmAction>,
}

impl View for FsmColumn {
    type V = Seq<ActionModel>;

    closed spec fn view(&self) -> Seq<ActionModel> {
        self.ts@.map_values(|a: FsmAction| a@)
    }
}

impl FsmColumn {
    /// A fresh column with every entry at the default fail transition.
    pub fn new() -> (column: FsmColumn)
        ensures
            column@ == fail_column(),
    {
        let mut ts: Vec<FsmAction> = Vec::new();
        let mut i: usize = 0;
        while i < FSM_COLUMN_SIZE
            invariant
                i <= FSM_COLUMN_SIZE,
                ts@.len() == i as int,
                forall |k: int| 0 <= k < i as int ==> ts@[k] == (FsmAction { next: 0, offset: 0 }),
            decreases FSM_COLUMN_SIZE - i,
        {
            ts.push(FsmAction { next: 0, offset: 0 });
            i += 1;
        }
        let column = FsmColumn { ts };
        proof {
            assert(column@ =~= fail_column());
        }
        column
    }
}

/// Whether atom `a` claims symbol code `code`: `.` claims every printable
/// code, `$` only the end-of-input pseudo-symbol, and a literal character
/// exactly its own code.
pub open spec fn atom_matches_code(a: Atom, code: int) -> bool {
    match a {
        Atom::Any => FSM_PRINTABLE_FIRST as int <= code < FSM_PRINTABLE_END as int,
        Atom::EndLine => code == FSM_LINEEND as int,
        Atom::Char(c) => code == c as int,
    }
}

/// The column compiled for a once-matched atom whose successful transition
/// leads to state `success`: claimed codes advance there consuming one
/// position, all others fail.
pub open spec fn atom_column(a: Atom, success: int) -> Seq<ActionModel> {
    Seq::new(
        FSM_COLUMN_SIZE as nat,
        |code: int|
            if atom_matches_code(a, code) {
                ActionModel { next: success, offset: 1 }
            } else {
                fail_action()
            },
    )
}

/// The column compiled for `Star(a)` standing at index `current`: claimed
/// codes self-loop and consume one position, all others fall through to the
/// following column without consuming.
pub open spec fn star_column(a: Atom, current: int) -> Seq<ActionModel> {
    Seq::new(
        FSM_COLUMN_SIZE as nat,
        |code: int|
            if atom_matches_code(a, code) {
                ActionModel { next: current, offset: 1 }
            } else {
                ActionModel { next: current + 1, offset: 0 }
            },
    )
}

/// The column one token contributes when it stands at index `current`.
pub open spec fn token_column(t: Token, current: int) -> Seq<ActionModel> {
    match t {
        Token::Atom(a) => atom_column(a, current + 1),
        Token::Star(a) => star_column(a, current),
    }
}

/// The table compiled from `tokens`: the fail column at index `0`, then one
/// column per token, in order.
pub open spec fn spec_table(tokens: Seq<Token>) -> Seq<Seq<ActionModel>>
    decreases tokens.len(),
{
    if tokens.len() == 0 {
        seq![fail_column()]
    } else {
        spec_table(tokens.drop_last())
            + seq![token_column(tokens.last(), tokens.len() as int)]
    }
}

pub proof fn lemma_spec_table_len(tokens: Seq<Token>)
    ensures
        spec_table(tokens).len() == tokens.len() + 1,
    decreases tokens.len(),
{
    if tokens.len() > 0 {
        lemma_spec_table_len(tokens.drop_last());
    }
}

pub proof fn lemma_spec_table_index(tokens: Seq<Token>, k: int)
    requires
        0 <= k <= tokens.len(),
    ensures
        spec_table(tokens).len() == tokens.len() + 1,
        k == 0 ==> spec_table(tokens)[k] == fail_column(),
        k >= 1 ==> spec_table(tokens)[k] == token_column(tokens[k - 1], k),
    decreases tokens.len(),
{
    lemma_spec_table_len(tokens);
    if tokens.len() == 0 {
    } else if k == tokens.len() {
        lemma_spec_table_len(tokens.drop_last());
    } else {
        lemma_spec_table_index(tokens.drop_last(), k);
    }
}

/// What every action of a well-formed table satisfies: the offset is `0` or
/// `1`, the next state is in range (`table_len` itself meaning acceptance),
/// and a non-consuming transition either fails or moves strictly forward, so
/// that matching always terminates.
pub open spec fn wf_action(a: ActionModel, state: int, table_len: int) -> bool {
    &&& a.offset == 0 || a.offset == 1
    &&& 0 <= a.next <= table_len
    &&& (a.offset == 0 ==> a.next == 0 || a.next > state)
}

/// Well-formedness of a whole table: at least the fail column, every column
/// full-size, every action well-formed for the column it stands in.
pub open spec fn wf_table(t: Seq<Seq<ActionModel>>) -> bool {
    &&& t.len() >= 1
    &&& (forall |i: int| 0 <= i < t.len() ==> (#[trigger] t[i]).len() == FSM_COLUMN_SIZE as int)
    &&& (forall |i: int, j: int|
        0 <= i < t.len() && 0 <= j < FSM_COLUMN_SIZE as int
            ==> wf_action(#[trigger] t[i][j], i, t.len() as int))
}

pub proof fn lemma_spec_table_wf(tokens: Seq<Token>)
    ensures
        wf_table(spec_table(tokens)),
    decreases tokens.len(),
{
    lemma_spec_table_len(tokens);
    let t = spec_table(tokens);
    if tokens.len() == 0 {
        assert forall |i: int, j: int|
            0 <= i < t.len() && 0 <= j < FSM_COLUMN_SIZE as int
                implies wf_action(#[trigger] t[i][j], i, t.len() as int) by {
            assert(t[i] == fail_column());
        }
    } else {
        let prefix = spec_table(tokens.drop_last());
        lemma_spec_table_wf(tokens.drop_last());
        lemma_spec_table_len(tokens.drop_last());
        assert forall |i: int| 0 <= i < t.len() implies (#[trigger] t[i]).len()
            == FSM_COLUMN_SIZE as int by {
            if i < prefix.len() {
                assert(t[i] == prefix[i]);
            }
        }
        assert forall |i: int, j: int|
            0 <= i < t.len() && 0 <= j < FSM_COLUMN_SIZE as int
                implies wf_action(#[trigger] t[i][j], i, t.len() as int) by {
            if i < prefix.len() {
                assert(t[i] == prefix[i]);
                assert(wf_action(prefix[i][j], i, prefix.len() as int));
            } else {
                assert(t[i] == token_column(tokens.last(), tokens.len() as int));
            }
        }
    }
}

/// The column grown while the printable range is still being filled: codes
/// up to `bound` (exclusive) already advance to `success`, the rest still
/// fail.
spec fn any_column_prefix(success: int, bound: int) -> Seq<ActionModel> {
    Seq::new(
        FSM_COLUMN_SIZE as nat,
        |code: int|
            if FSM_PRINTABLE_FIRST as int <= code < bound {
                ActionModel { next: success, offset: 1 }
            } else {
                fail_action()
            },
    )
}

/// Build the column for a once-matched atom: set every symbol code the atom
/// claims to advance to state `success` consuming one position.  A literal
/// whose code lies outside the table claims no code at all.
pub fn compile_atom(atom: &Atom, success: FsmIndex) -> (column: FsmColumn)
    ensures
        column@ == atom_column(*atom, success as int),
{
    let mut column = FsmColumn::new();
    let success_action = FsmAction { next: success, offset: 1 };
    proof {
        assert(column.ts@.len() == column@.len());
    }
    match atom {
        Atom::Any => {
            let mut code: usize = FSM_PRINTABLE_FIRST;
            proof {
                assert(column@ =~= any_column_prefix(success as int, code as int));
            }
            while code < FSM_PRINTABLE_END
                invariant
                    FSM_PRINTABLE_FIRST <= code <= FSM_PRINTABLE_END,
                    column.ts@.len() == FSM_COLUMN_SIZE as int,
                    column@ == any_column_prefix(success as int, code as int),
                decreases FSM_PRINTABLE_END - code,
            {
                let ghost before = column@;
                column.ts[code] = FsmAction { next: success, offset: 1 };
                proof {
                    assert(column@ =~= before.update(
                        code as int,
                        ActionModel { next: success as int, offset: 1 },
                    ));
                    assert(column@ =~= any_column_prefix(success as int, code as int + 1));
                }
                code += 1;
            }
            proof {
                assert(column@ =~= atom_column(*atom, success as int));
            }
        }
        Atom::EndLine => {
            let ghost before = column@;
            column.ts[FSM_LINEEND] = success_action;
            proof {
                assert(column@ =~= before.update(FSM_LINEEND as int, success_action@));
                assert(column@ =~= atom_column(*atom, success as int));
            }
        }
        Atom::Char(c) => {
            let code = *c as usize;
            if code < FSM_COLUMN_SIZE {
                let ghost before = column@;
                column.ts[code] = success_action;
                proof {
                    assert(column@ =~= before.update(code as int, success_action@));
                    assert(column@ =~= atom_column(*atom, success as int));
                }
            } else {
                proof {
                    assert(column@ =~= atom_column(*atom, success as int));
                }
            }
        }
    }
    column
}

/// The column grown while `Star` patching is under way: codes below `bound`
/// already carry their final `Star` action, the rest still carry the plain
/// atom action for `current` as the success state.
spec fn star_patch_prefix(a: Atom, current: int, bound: int) -> Seq<ActionModel> {
    Seq::new(
        FSM_COLUMN_SIZE as nat,
        |code: int|
            if code < bound {
                star_column(a, current)[code]
            } else {
                atom_column(a, current)[code]
            },
    )
}

proof fn lemma_spec_table_take_step(tokens: Seq<Token>, i: int)
    requires
        0 <= i < tokens.len(),
    ensures
        spec_table(tokens.take(i + 1)) == spec_table(tokens.take(i)) + seq![
            token_column(tokens[i], i + 1),
        ],
{
    let t1 = tokens.take(i + 1);
    assert(t1.drop_last() =~= tokens.take(i));
    assert(t1.last() == tokens[i]);
}

/// The table of a compiled pattern, as a sequence of column views.
pub open spec fn table_view(cs: Seq<FsmColumn>) -> Seq<Seq<ActionModel>> {
    cs.map_values(|c: FsmColumn| c@)
}

/// A compiled pattern: an immutable transition table.  Index `0` is the fail
/// state, index `1` the start state; any state index at or past the table's
/// length means the whole pattern was consumed (success).
#[derive(Debug)]
pub struct Regex {
    cs: Vec<FsmColumn>,
}

impl View for Regex {
    type V = Seq<Seq<ActionModel>>;

    closed spec fn view(&self) -> Seq<Seq<ActionModel>> {
        table_view(self.cs@)
    }
}

/// The action consulted for `code` in state `state`: symbol codes outside
/// the table's range fail rather than crash.
pub open spec fn lookup(t: Seq<Seq<ActionModel>>, state: int, code: int) -> ActionModel {
    if 0 <= code < FSM_COLUMN_SIZE as int {
        t[state][code]
    } else {
        fail_action()
    }
}

/// One matcher run over table `t` and input `s`, from `state` with the head
/// at `head`: state `0` fails, a state at or past the table's length
/// succeeds, mid-string steps follow the current symbol's action, and at end
/// of input the end-of-input pseudo-symbol's action decides.
pub open spec fn spec_run(t: Seq<Seq<ActionModel>>, s: Seq<char>, state: int, head: int) -> bool
    decreases s.len() - head, t.len() - state,
        when wf_table(t) && 0 <= state <= t.len() && 0 <= head <= s.len()
{
    if state == 0 {
        false
    } else if state >= t.len() {
        true
    } else if head < s.len() {
        let a = lookup(t, state, s[head] as int);
        if a.next == 0 {
            false
        } else {
            spec_run(t, s, a.next, head + a.offset)
        }
    } else {
        t[state][FSM_LINEEND as int].next >= t.len()
    }
}

/// Whether table `t` matches input `s`: a run from the start state with the
/// head at the beginning.
pub open spec fn spec_matches(t: Seq<Seq<ActionModel>>, s: Seq<char>) -> bool {
    spec_run(t, s, 1, 0)
}

impl Regex {
    /// Every compiled table is well-formed, so matching it terminates.
    #[verifier::type_invariant]
    pub open spec fn wf(&self) -> bool {
        wf_table(self@)
    }

    /// Compile `src`: lex it into tokens, then grow the table one column per
    /// token — a plain atom's column advances to the following column, a
    /// `Star` column self-loops on its atom and falls through to the
    /// following column on everything else.
    pub fn compile(src: &str) -> (result: Result<Regex, CompileError>)
        ensures
            (match result {
                Ok(r) => spec_lex(src@) is Ok && r@ == spec_table(spec_lex(src@)->Ok_0),
                Err(e) => spec_lex(src@) == Err::<Seq<Token>, CompileError>(e),
            }),
    {
        let tokens = match lexer(src) {
            Ok(t) => t,
            Err(e) => {
                return Err(e);
            },
        };
        let mut cs: Vec<FsmColumn> = Vec::new();
        cs.push(FsmColumn::new());
        proof {
            assert(tokens@.take(0) =~= Seq::<Token>::empty());
            assert(table_view(cs@) =~= spec_table(tokens@.take(0)));
        }
        let mut i: usize = 0;
        while i < tokens.len()
            invariant
                i <= tokens@.len(),
                cs@.len() == i + 1,
                table_view(cs@) == spec_table(tokens@.take(i as int)),
            decreases tokens@.len() - i,
        {
            let ghost cs0 = cs@;
            let token = tokens[i];
            let current_state = cs.len();
            cs.push(FsmColumn::new());
            let next_state = cs.len();
            let column: FsmColumn;
            match token {
                Token::Atom(atom) => {
                    column = compile_atom(&atom, next_state);
                },
                Token::Star(atom) => {
                    let mut col = compile_atom(&atom, current_state);
                    proof {
                        assert(col.ts@.len() == col@.len());
                        assert(col@ =~= star_patch_prefix(atom, current_state as int, 0));
                    }
                    let mut j: usize = 0;
                    while j < FSM_COLUMN_SIZE
                        invariant
                            j <= FSM_COLUMN_SIZE,
                            1 <= current_state,
                            next_state == current_state + 1,
                            col.ts@.len() == FSM_COLUMN_SIZE as int,
                            col@ == star_patch_prefix(atom, current_state as int, j as int),
                        decreases FSM_COLUMN_SIZE - j,
                    {
                        let ghost before = col@;
                        proof {
                            assert(before[j as int] == col.ts@[j as int]@);
                        }
                        if col.ts[j].next == 0 {
                            col.ts[j] = FsmAction { next: next_state, offset: 0 };
                            proof {
                                assert(before[j as int].next == 0);
                                assert(col@ =~= before.update(
                                    j as int,
                                    ActionModel { next: next_state as int, offset: 0 },
                                ));
                                assert(!atom_matches_code(atom, j as int));
                                assert(col@ =~= star_patch_prefix(
                                    atom,
                                    current_state as int,
                                    j as int + 1,
                                ));
                            }
                        } else {
                            proof {
                                assert(before[j as int].next != 0);
                                assert(col@[j as int] == atom_column(
                                    atom,
                                    current_state as int,
                                )[j as int]);
                                assert(atom_matches_code(atom, j as int));
                                assert(col@ =~= star_patch_prefix(
                                    atom,
                                    current_state as int,
                                    j as int + 1,
                                ));
                            }
                        }
                        j += 1;
                    }
                    proof {
                        assert(col@ =~= star_column(atom, current_state as int));
                    }
                    column = col;
                },
            }
            proof {
                assert(column@ == token_column(token, current_state as int));
            }
            cs[current_state] = column;
            proof {
                lemma_spec_table_take_step(tokens@, i as int);
                assert(cs@ =~= cs0 + seq![column]);
                assert(table_view(cs@) =~= table_view(cs0) + seq![column@]);
                assert(table_view(cs@) == spec_table(tokens@.take(i as int + 1)));
            }
            i += 1;
        }
        proof {
            assert(tokens@.take(tokens@.len() as int) =~= tokens@);
            lemma_spec_table_wf(tokens@);
        }
        Ok(Regex { cs })
    }

    /// Run the table against `input`.  The matcher walks the table from the
    /// start state, following each current symbol's action; at end of input
    /// the end-of-input pseudo-symbol's action is consulted once; the input
    /// matches exactly when the automaton is driven past the table's last
    /// column.
    pub fn match_str(&self, input: &str) -> (result: bool)
        ensures
            result == spec_matches(self@, input@),
    {
        proof {
            use_type_invariant(self);
        }
        let n = input.unicode_len();
        let num_states = self.cs.len();
        let mut state: usize = 1;
        let mut head: usize = 0;
        while 0 < state && state < num_states && head < n
            invariant
                self.wf(),
                num_states == self@.len(),
                n == input@.len(),
                state <= num_states,
                head <= n,
                spec_matches(self@, input@) == spec_run(
                    self@,
                    input@,
                    state as int,
                    head as int,
                ),
            decreases n - head, (if state == 0 { 0int } else { num_states - state }),
        {
            let c = input.get_char(head);
            let code = c as usize;
            let action: FsmAction;
            if code < FSM_COLUMN_SIZE {
                let column = &self.cs[state];
                proof {
                    assert(column@ == self@[state as int]);
                    assert(column.ts@.len() == column@.len());
                }
                action = column.ts[code];
                proof {
                    assert(action@ == self@[state as int][code as int]);
                }
            } else {
                action = FsmAction { next: 0, offset: 0 };
            }
            proof {
                assert(action@ == lookup(self@, state as int, c as int));
                assert(wf_action(action@, state as int, num_states as int));
                assert(spec_run(self@, input@, state as int, head as int) == (if action@.next
                    == 0 {
                    false
                } else {
                    spec_run(self@, input@, action@.next, head as int + action@.offset)
                }));
            }
            state = action.next;
            head = head + (action.offset as usize);
        }
        if state == 0 {
            return false;
        }
        if state < num_states {
            let column = &self.cs[state];
            proof {
                assert(column@ == self@[state as int]);
                assert(column.ts@.len() == column@.len());
            }
            let action = column.ts[FSM_LINEEND];
            state = action.next;
            return state >= num_states;
        }
        true
    }
}

} // verus!
