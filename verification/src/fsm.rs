//! A reusable finite-state-machine engine for grammar validation. The
//! engine only walks tokens through a transition function and reports
//! acceptance or the exact failure point; what states and tokens mean is
//! encoded entirely in the grammar and in its caller's mapping from the
//! failing state to a diagnostic.

use vstd::prelude::*;
use crate::grammar::{Grammar, transition};
use crate::token::{Token, TokenKind, kinds_of};

verus! {

/// A grammar checker: a start state, the set of accepting states, and a
/// transition function, chosen by the `grammar` tag. State `0` is the
/// reserved reject sentinel a transition returns to stop the run.
pub struct FiniteStateMachine {
    pub start_state: u32,
    pub accept_states: Vec<u32>,
    pub grammar: Grammar,
}

/// Walks token kinds from `i` on, starting in `state`. Yields the pair the
/// engine reports: the final state and the index of the token whose
/// transition rejected, or `-1` when every token was consumed.
pub open spec fn run_from(g: Grammar, state: u32, kinds: Seq<TokenKind>, i: int) -> (u32, int)
    decreases kinds.len() - i,
{
    if i < 0 || i >= kinds.len() {
        (state, -1)
    } else {
        let next = transition(g, state, kinds[i]);
        if next == 0 {
            (state, i)
        } else {
            run_from(g, next, kinds, i + 1)
        }
    }
}

impl FiniteStateMachine {
    /// The state/rejection pair this machine reports for a token sequence.
    pub open spec fn outcome(self, kinds: Seq<TokenKind>) -> (u32, int) {
        run_from(self.grammar, self.start_state, kinds, 0)
    }

    /// Whether this machine accepts a token sequence: every token is
    /// consumed and the final state is an accepting one.
    pub open spec fn accepted(self, kinds: Seq<TokenKind>) -> bool {
        self.outcome(kinds).1 == -1 && self.accept_states@.contains(self.outcome(kinds).0)
    }

    /// Runs the machine over a token sequence. On success every token was
    /// consumed and an accepting state reached; on failure the reported
    /// pair is the state before the rejecting transition together with the
    /// rejecting token, or the final state with the last token when the
    /// sequence ran out in a non-accepting state.
    pub fn run(&self, tokens: &Vec<Token>) -> (r: Result<(), (u32, Token)>)
        requires
            tokens@.len() > 0,
        ensures
            ({
                let (fstate, ridx) = self.outcome(kinds_of(tokens@));
                match r {
                    Ok(_) => self.accepted(kinds_of(tokens@)),
                    Err((st, tok)) => {
                        &&& !self.accepted(kinds_of(tokens@))
                        &&& st == fstate
                        &&& tok@ == tokens@[
                            if ridx >= 0 {
                                ridx
                            } else {
                                tokens@.len() - 1
                            }
                        ]@
                    },
                }
            }),
    {
        let ghost kinds = kinds_of(tokens@);
        let mut state = self.start_state;
        let mut i: usize = 0;
        while i < tokens.len()
            invariant
                i <= tokens@.len(),
                kinds == kinds_of(tokens@),
                kinds.len() == tokens@.len(),
                self.outcome(kinds) == run_from(self.grammar, state, kinds, i as int),
            decreases tokens@.len() - i,
        {
            let next = transition(self.grammar, state, tokens[i].kind);
            if next == 0 {
                return Err((state, tokens[i].clone()));
            }
            state = next;
            i += 1;
        }
        if self.is_accept_state(state) {
            Ok(())
        } else {
            Err((state, tokens[tokens.len() - 1].clone()))
        }
    }

    /// Whether `state` is one of the accepting states.
    pub fn is_accept_state(&self, state: u32) -> (r: bool)
        ensures
            r == self.accept_states@.contains(state),
    {
        let mut i: usize = 0;
        while i < self.accept_states.len()
            invariant
                i <= self.accept_states@.len(),
                forall|j: int| 0 <= j < i ==> self.accept_states@[j] != state,
            decreases self.accept_states@.len() - i,
        {
            if self.accept_states[i] == state {
                return true;
            }
            i += 1;
        }
        false
    }
}

/// The rejection index a run reports is `-1` or a position of the walked
/// sequence at or after the starting point.
pub proof fn lemma_run_from_bounds(g: Grammar, state: u32, kinds: Seq<TokenKind>, i: int)
    requires
        0 <= i <= kinds.len(),
    ensures
        ({
            let (st, ridx) = run_from(g, state, kinds, i);
            ridx == -1 || i <= ridx < kinds.len()
        }),
    decreases kinds.len() - i,
{
    if i < kinds.len() {
        let next = transition(g, state, kinds[i]);
        if next != 0 {
            lemma_run_from_bounds(g, next, kinds, i + 1);
        }
    }
}

/// Grammar checking is deterministic: the verdict and the failure pair are
/// functions of the token sequence alone, so driving the same sequence
/// through the engine twice yields the same outcome.
pub proof fn lemma_run_deterministic(
    fsm: FiniteStateMachine,
    kinds: Seq<TokenKind>,
    r1: (u32, int),
    r2: (u32, int),
)
    requires
        r1 == fsm.outcome(kinds),
        r2 == fsm.outcome(kinds),
    ensures
        r1 == r2,
{
}

} // verus!
