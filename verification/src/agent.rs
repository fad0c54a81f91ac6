//! Agents: stateful units that produce one move per tick.

use vstd::prelude::*;
use vstd::array::array_as_slice;
use crate::moves::Move;
use crate::ranking::{first_greatest, highest, lemma_folds_in_range};

verus! {

/// The move that a sequence of moves, each held for `repeat` ticks, gives
/// at a tick: the idle move once the sequence is exhausted.
pub open spec fn scheduled(moves: Seq<Move>, repeat: nat, tick: nat) -> Move {
    if repeat > 0 && tick / repeat < moves.len() {
        moves[(tick / repeat) as int]
    } else {
        Move::idle()
    }
}

/// An open-loop agent: a recorded sequence of moves, each held for a fixed
/// number of ticks, and a cursor that counts the ticks played.
#[derive(Clone, Debug)]
pub struct GeneticAgent {
    moves: Vec<Move>,
    curr: usize,
    repeat_move: usize,
}

impl GeneticAgent {
    /// The recorded moves.
    pub closed spec fn moves(self) -> Seq<Move> {
        self.moves@
    }

    /// The number of ticks played so far.
    pub closed spec fn cursor(self) -> nat {
        self.curr as nat
    }

    /// The number of ticks for which each move is held.
    pub closed spec fn repeat(self) -> nat {
        self.repeat_move as nat
    }

    /// The number of ticks that the recorded moves span.
    pub open spec fn span(self) -> nat {
        self.moves().len() * self.repeat()
    }

    /// Each move is held for at least one tick, the span fits the machine
    /// word, and the cursor has not left the span.
    pub open spec fn wf(self) -> bool {
        &&& self.repeat() > 0
        &&& self.span() <= usize::MAX
        &&& self.cursor() <= self.span()
    }

    /// Tells whether the invariant holds, as it does of every agent that
    /// [`Self::new`] made and [`Self::get_move`] advanced.
    pub fn is_valid(&self) -> (ok: bool)
        ensures
            ok == self.wf(),
    {
        if self.repeat_move == 0 {
            return false;
        }
        let length: usize = self.moves.len();
        let most: usize = usize::MAX / self.repeat_move;
        proof {
            lemma_within_span(usize::MAX as nat, self.repeat_move as nat, length as nat);
        }
        if length > most {
            return false;
        }
        self.curr <= length * self.repeat_move
    }

    /// An agent at the start of its moves.
    pub fn new(moves: Vec<Move>, repeat_move: usize) -> (agent: GeneticAgent)
        requires
            repeat_move > 0,
            moves.len() * repeat_move <= usize::MAX,
        ensures
            agent.wf(),
            agent.moves() == moves@,
            agent.repeat() == repeat_move,
            agent.cursor() == 0,
    {
        GeneticAgent { moves, curr: 0, repeat_move }
    }

    /// The move of the next tick. While the cursor is inside the span the
    /// scheduled move is returned and the cursor advances; after that the
    /// idle move is returned and nothing changes.
    pub fn get_move(&mut self) -> (m: Move)
        requires
            old(self).wf(),
        ensures
            final(self).wf(),
            final(self).moves() == old(self).moves(),
            final(self).repeat() == old(self).repeat(),
            m == scheduled(old(self).moves(), old(self).repeat(), old(self).cursor()),
            final(self).cursor() == if old(self).cursor() < old(self).span() {
                old(self).cursor() + 1
            } else {
                old(self).cursor()
            },
    {
        proof {
            lemma_within_span(self.curr as nat, self.repeat_move as nat, self.moves@.len());
        }
        if self.curr / self.repeat_move < self.moves.len() {
            let player_move = self.moves[self.curr / self.repeat_move];
            self.curr += 1;
            player_move
        } else {
            Move::default()
        }
    }

    /// The recorded moves, copied out.
    pub fn recorded(&self) -> (moves: Vec<Move>)
        ensures
            moves@ == self.moves(),
    {
        crate::genome::copy_genome(&self.moves)
    }

    /// The number of ticks for which each move is held.
    pub fn repeat_move(&self) -> (r: usize)
        ensures
            r == self.repeat(),
    {
        self.repeat_move
    }

    /// A copy of the agent, cursor included.
    pub fn snapshot(&self) -> (copy: GeneticAgent)
        ensures
            copy.moves() == self.moves(),
            copy.cursor() == self.cursor(),
            copy.repeat() == self.repeat(),
    {
        GeneticAgent {
            moves: crate::genome::copy_genome(&self.moves),
            curr: self.curr,
            repeat_move: self.repeat_move,
        }
    }

    /// The cursor after a number of further calls of [`Self::get_move`].
    pub open spec fn cursor_after(self, calls: nat) -> nat {
        if self.cursor() + calls < self.span() {
            self.cursor() + calls
        } else {
            self.span()
        }
    }

    /// Replay: call number `calls` of an agent, counted from zero, returns
    /// the move scheduled at tick `cursor + calls`, however far beyond the
    /// span that tick lies.
    pub proof fn lemma_replay(self, calls: nat)
        requires
            self.wf(),
        ensures
            scheduled(self.moves(), self.repeat(), self.cursor_after(calls)) == scheduled(
                self.moves(),
                self.repeat(),
                self.cursor() + calls,
            ),
            self.cursor_after(calls + 1) == if self.cursor_after(calls) < self.span() {
                self.cursor_after(calls) + 1
            } else {
                self.cursor_after(calls)
            },
    {
        lemma_within_span(self.cursor_after(calls), self.repeat(), self.moves().len());
        lemma_within_span(self.cursor() + calls, self.repeat(), self.moves().len());
    }
}

/// A tick lies within the span of `length` moves held `repeat` ticks each
/// exactly if its quotient by `repeat` is an index of a move.
pub proof fn lemma_within_span(tick: nat, repeat: nat, length: nat)
    requires
        repeat > 0,
    ensures
        (tick / repeat < length) == (tick < length * repeat),
{
    vstd::arithmetic::div_mod::lemma_fundamental_div_mod(tick as int, repeat as int);
    vstd::arithmetic::div_mod::lemma_mod_bound(tick as int, repeat as int);
    let q = tick as int / repeat as int;
    if q < length {
        assert((q + 1) * repeat <= length * repeat) by (nonlinear_arith)
            requires
                q + 1 <= length,
                repeat > 0,
        ;
        assert((q + 1) * repeat == q * repeat + repeat) by (nonlinear_arith);
        assert(repeat * q == q * repeat) by (nonlinear_arith);
    } else {
        assert(q * repeat >= length * repeat) by (nonlinear_arith)
            requires
                q >= length,
                repeat > 0,
        ;
        assert(repeat * q == q * repeat) by (nonlinear_arith);
    }
}

/// The number of actions that a policy chooses among.
pub const ACTIONS: usize = 8;

/// The decision core of a closed-loop agent: it holds each chosen move for
/// a fixed number of ticks and then chooses anew, the action whose value
/// is greatest.
#[derive(Clone, Copy, Debug)]
pub struct DQNAgent {
    curr: (Move, usize),
    repeat_move: usize,
}

impl DQNAgent {
    /// The move that is being held.
    pub closed spec fn held(self) -> Move {
        self.curr.0
    }

    /// The number of ticks for which the held move has been played.
    pub closed spec fn played(self) -> nat {
        self.curr.1 as nat
    }

    /// The number of ticks for which each chosen move is held.
    pub closed spec fn repeat(self) -> nat {
        self.repeat_move as nat
    }

    /// Whether the next call of [`Self::get_move`] chooses anew.
    pub open spec fn due(self) -> bool {
        self.played() >= self.repeat()
    }

    /// The move that the action values choose: that of the first action
    /// whose value is greatest.
    pub open spec fn choice(q_values: Seq<u32>) -> Move {
        Move::of_action(first_greatest(q_values) as nat)
    }

    /// A core that chooses at its first tick.
    pub fn new(repeat_move: usize) -> (agent: DQNAgent)
        ensures
            agent.repeat() == repeat_move,
            agent.played() == repeat_move,
            agent.held() == Move::idle(),
            agent.due(),
    {
        DQNAgent { curr: (Move::default(), repeat_move), repeat_move }
    }

    /// Tells whether the next call of [`Self::get_move`] reads the action
    /// values.
    pub fn needs_decision(&self) -> (r: bool)
        ensures
            r == self.due(),
    {
        !(self.curr.1 < self.repeat_move)
    }

    /// The move of the next tick: the held move while it has been played
    /// for fewer ticks than it is held for, else the move that the action
    /// values choose, which is then held.
    pub fn get_move(&mut self, q_values: &[u32; 8]) -> (m: Move)
        ensures
            final(self).repeat() == old(self).repeat(),
            final(self).held() == m,
            !old(self).due() ==> m == old(self).held(),
            !old(self).due() ==> final(self).played() == old(self).played() + 1,
            old(self).due() ==> m == DQNAgent::choice(q_values@),
            old(self).due() ==> final(self).played() == 1,
    {
        if self.curr.1 < self.repeat_move {
            self.curr.1 += 1;
            self.curr.0
        } else {
            let best: usize = highest(array_as_slice(q_values)).unwrap();
            let player_move = Move::from_action(best);
            self.curr = (player_move, 1);
            player_move
        }
    }
}

/// The closed set of agents.
#[derive(Clone, Debug)]
pub enum Agent {
    Genetic(GeneticAgent),
    DQN(DQNAgent),
}

impl Agent {
    /// Whether the agent's own invariant holds.
    pub open spec fn wf(self) -> bool {
        match self {
            Agent::Genetic(agent) => agent.wf(),
            Agent::DQN(_) => true,
        }
    }

    /// Tells whether the agent's own invariant holds.
    pub fn is_valid(&self) -> (ok: bool)
        ensures
            ok == self.wf(),
    {
        match self {
            Agent::Genetic(agent) => agent.is_valid(),
            Agent::DQN(_) => true,
        }
    }

    /// Whether two agents are of one kind and in one state.
    pub open spec fn same_as(self, other: Agent) -> bool {
        match (self, other) {
            (Agent::Genetic(a), Agent::Genetic(b)) => {
                &&& a.moves() == b.moves()
                &&& a.cursor() == b.cursor()
                &&& a.repeat() == b.repeat()
            },
            (Agent::DQN(a), Agent::DQN(b)) => a == b,
            _ => false,
        }
    }

    /// A copy of the agent in its present state.
    pub fn snapshot(&self) -> (copy: Agent)
        ensures
            copy.same_as(*self),
    {
        match self {
            Agent::Genetic(agent) => Agent::Genetic(agent.snapshot()),
            Agent::DQN(agent) => Agent::DQN(*agent),
        }
    }

    /// Tells whether the next call of [`Self::get_move`] reads the action
    /// values: an open-loop agent never does.
    pub fn needs_decision(&self) -> (r: bool)
        ensures
            r == match *self {
                Agent::Genetic(_) => false,
                Agent::DQN(agent) => agent.due(),
            },
    {
        match self {
            Agent::Genetic(_) => false,
            Agent::DQN(agent) => agent.needs_decision(),
        }
    }

    /// The move of the next tick, as the agent inside produces it.
    pub fn get_move(&mut self, q_values: &[u32; 8]) -> (m: Move)
        requires
            old(self).wf(),
        ensures
            final(self).wf(),
            match (*old(self), *final(self)) {
                (Agent::Genetic(before), Agent::Genetic(after)) => {
                    &&& m == scheduled(before.moves(), before.repeat(), before.cursor())
                    &&& after.moves() == before.moves()
                    &&& after.repeat() == before.repeat()
                    &&& after.cursor() == before.cursor_after(1)
                },
                (Agent::DQN(before), Agent::DQN(after)) => {
                    &&& after.repeat() == before.repeat()
                    &&& after.held() == m
                    &&& m == if before.due() {
                        DQNAgent::choice(q_values@)
                    } else {
                        before.held()
                    }
                    &&& after.played() == if before.due() {
                        1
                    } else {
                        before.played() + 1
                    }
                },
                _ => false,
            },
    {
        match self {
            Agent::Genetic(agent) => agent.get_move(),
            Agent::DQN(agent) => agent.get_move(q_values),
        }
    }
}

} // verus!
