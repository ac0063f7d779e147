//! What exploring a function means, stated over the models of the states.

use vstd::prelude::*;
use crate::disassembler::instruction::InstructionModel;
use crate::symbolic::state::{StateModel, Status};

verus! {

/// What a state manager holds.
pub struct StateManagerModel {
    /// The instructions that the states run through.
    pub instructions: Seq<InstructionModel>,
    /// The states, each at the index that is its id.
    pub states: Seq<StateModel>,
    /// The ids of the states that are still to be stepped.
    pub active: Set<usize>,
    /// The ids of the states that ran off the end of the instructions.
    pub terminated: Set<usize>,
}

impl StateManagerModel {
    /// A manager with one fresh state, which is active.
    pub open spec fn initial(instructions: Seq<InstructionModel>) -> StateManagerModel {
        StateManagerModel {
            instructions,
            states: seq![StateModel::initial(0, 0)],
            active: set![0usize],
            terminated: Set::empty(),
        }
    }

    /// The manager's invariant: every state has an id that fits a machine word, every
    /// active id is that of a state, and that state is active.
    pub open spec fn wf(self) -> bool {
        &&& self.states.len() <= usize::MAX
        &&& forall|id: usize| #[trigger]
            self.active.contains(id) ==> id < self.states.len() && self.states[id as int].status
                == Status::Active
    }

    /// The state with the given id after the steps of `rounds` rounds: an active state has
    /// taken a step in each round until it stopped running, any other has been left alone.
    pub open spec fn stepped(self, id: int, rounds: nat) -> StateModel {
        if self.active.contains(id as usize) {
            self.states[id].after(self.instructions, rounds)
        } else {
            self.states[id]
        }
    }

    /// The state with the given id as the manager holds it after `rounds` rounds: it has
    /// taken its steps, and it is terminated if it has run off the end of the instructions.
    pub open spec fn state_after(self, id: int, rounds: nat) -> StateModel {
        if self.fell_off(id as usize, rounds) {
            self.stepped(id, rounds).with_status(Status::Terminated)
        } else {
            self.stepped(id, rounds)
        }
    }

    /// Whether the state with the given id is still among the active ones after `rounds`
    /// rounds: it was active at first, and in every round so far it took a step and stayed
    /// active.
    pub open spec fn alive(self, id: usize, rounds: nat) -> bool {
        &&& self.active.contains(id)
        &&& rounds > 0 ==> {
            &&& self.states[id as int].after(self.instructions, (rounds - 1) as nat).running(
                self.instructions,
            )
            &&& self.states[id as int].after(self.instructions, rounds).status == Status::Active
        }
    }

    /// The lines that the states with an id below `upto` report in the round after `round`
    /// earlier ones, in the order of the ids.
    pub open spec fn round_lines(self, round: nat, upto: nat) -> Seq<Seq<char>>
        decreases upto,
    {
        if upto == 0 {
            Seq::empty()
        } else {
            let id = (upto - 1) as int;
            let earlier = self.round_lines(round, (upto - 1) as nat);
            if self.active.contains(id as usize) {
                match self.states[id].line_at(self.instructions, round) {
                    Some(line) => earlier.push(line),
                    None => earlier,
                }
            } else {
                earlier
            }
        }
    }

    /// The lines reported in the first `rounds` rounds: round by round, and within a round
    /// in the order of the ids.
    pub open spec fn report(self, rounds: nat) -> Seq<Seq<char>>
        decreases rounds,
    {
        if rounds == 0 {
            Seq::empty()
        } else {
            self.report((rounds - 1) as nat) + self.round_lines(
                (rounds - 1) as nat,
                self.states.len(),
            )
        }
    }

    /// The ids of the active states that run off the end of the instructions: those whose
    /// own steps leave them active when they have stopped running.
    pub open spec fn falling_off(self) -> Set<usize> {
        Set::new(
            |id: usize|
                self.active.contains(id) && self.states[id as int].finished(
                    self.instructions,
                ).status == Status::Active,
        )
    }

    /// The state with the given id when the manager has explored. A state that was not
    /// active is as it was. One that was active has run until it stopped; if it stopped
    /// because it ran off the end of the instructions, and so was still active, it is
    /// terminated.
    pub open spec fn final_state(self, id: int) -> StateModel {
        if self.falling_off().contains(id as usize) {
            self.states[id].finished(self.instructions).with_status(Status::Terminated)
        } else if self.active.contains(id as usize) {
            self.states[id].finished(self.instructions)
        } else {
            self.states[id]
        }
    }

    /// The manager when no state is active any more: every state that was active has run
    /// until it stopped, and those that ran off the end are terminated and have joined the
    /// terminated ones.
    pub open spec fn explored(self) -> StateManagerModel {
        StateManagerModel {
            instructions: self.instructions,
            states: Seq::new(self.states.len(), |id: int| self.final_state(id)),
            active: Set::empty(),
            terminated: self.terminated + self.falling_off(),
        }
    }

    /// All that is reported while the manager explores. No state runs for more rounds than
    /// there are instructions, and one more round tells that it has run off the end.
    pub open spec fn explored_report(self) -> Seq<Seq<char>> {
        self.report(self.instructions.len() + 1)
    }

    /// A state that is alive after `rounds` rounds is active, and has moved on by one
    /// instruction in each round.
    pub proof fn lemma_alive(self, id: usize, rounds: nat)
        requires
            self.wf(),
            self.alive(id, rounds),
        ensures
            self.state_after(id as int, rounds) == self.stepped(id as int, rounds),
            self.stepped(id as int, rounds).status == Status::Active,
            self.stepped(id as int, rounds).pos == self.states[id as int].pos + rounds,
            rounds <= self.instructions.len(),
    {
        if rounds > 0 {
            let state = self.states[id as int];
            let before = state.after(self.instructions, (rounds - 1) as nat);
            state.lemma_after_running(self.instructions, (rounds - 1) as nat);
            before.lemma_step_moves(self.instructions[before.pos as int]);
        }
    }

    /// A state that was active and is no longer alive after `rounds` rounds has stopped
    /// running: it stays as it is, reports nothing more, and is not alive later.
    pub proof fn lemma_dead(self, id: usize, rounds: nat, later: nat)
        requires
            self.wf(),
            self.active.contains(id),
            !self.alive(id, rounds),
            rounds <= later,
        ensures
            !self.stepped(id as int, rounds).running(self.instructions),
            self.stepped(id as int, later) == self.stepped(id as int, rounds),
            self.state_after(id as int, later) == self.state_after(id as int, rounds),
            self.fell_off(id, later) == self.fell_off(id, rounds),
            self.states[id as int].line_at(self.instructions, later) is None,
            !self.alive(id, later),
            !self.alive(id, later + 1),
    {
        let state = self.states[id as int];
        assert(!state.after(self.instructions, rounds).running(self.instructions));
        state.lemma_after_stable(self.instructions, rounds, later);
        if later > 0 && later > rounds {
            state.lemma_after_stable(self.instructions, rounds, (later - 1) as nat);
        }
    }

    /// Once no state is alive, a round reports nothing.
    pub proof fn lemma_round_silent(self, rounds: nat, round: nat, upto: nat)
        requires
            self.wf(),
            forall|id: usize| !self.alive(id, rounds),
            rounds <= round,
            upto <= self.states.len(),
        ensures
            self.round_lines(round, upto) == Seq::<Seq<char>>::empty(),
        decreases upto,
    {
        if upto > 0 {
            self.lemma_round_silent(rounds, round, (upto - 1) as nat);
            let id = (upto - 1) as usize;
            if self.active.contains(id) {
                self.lemma_dead(id, rounds, round);
            }
        }
    }

    /// Once no state is alive, the report grows no more.
    pub proof fn lemma_report_stable(self, rounds: nat, later: nat)
        requires
            self.wf(),
            forall|id: usize| !self.alive(id, rounds),
            rounds <= later,
        ensures
            self.report(later) == self.report(rounds),
        decreases later,
    {
        if rounds < later {
            self.lemma_report_stable(rounds, (later - 1) as nat);
            self.lemma_round_silent(rounds, (later - 1) as nat, self.states.len());
            assert(self.report(later) =~= self.report((later - 1) as nat));
        }
    }

    /// Once no state is alive, every state is as it is when the manager has explored.
    pub proof fn lemma_all_finished(self, rounds: nat, id: int)
        requires
            self.wf(),
            forall|id: usize| !self.alive(id, rounds),
            0 <= id < self.states.len(),
        ensures
            self.state_after(id, rounds) == self.explored().states[id],
            self.stepped(id, rounds) == if self.active.contains(id as usize) {
                self.states[id].finished(self.instructions)
            } else {
                self.states[id]
            },
            self.fell_off(id as usize, rounds) == self.falling_off().contains(id as usize),
    {
        if self.active.contains(id as usize) {
            let state = self.states[id];
            let length = self.instructions.len();
            self.lemma_dead(id as usize, rounds, rounds);
            if rounds <= length {
                state.lemma_after_stable(self.instructions, rounds, length);
            } else {
                state.lemma_finished(self.instructions, rounds);
            }
        }
    }

    /// What a round does with the state of the given id. A state that is not active is
    /// passed over. An active state whose position is that of an instruction takes a step,
    /// and leaves the active ones unless it is still active afterwards. Any other active
    /// state has run off the end: it is terminated, leaves the active ones and joins the
    /// terminated ones.
    pub open spec fn visit(self, id: usize) -> (StateManagerModel, Option<Seq<char>>) {
        let state = self.states[id as int];
        if !self.active.contains(id) {
            (self, None)
        } else if state.pos < self.instructions.len() {
            let (next, line) = state.step(self.instructions[state.pos as int]);
            (
                StateManagerModel {
                    states: self.states.update(id as int, next),
                    active: if next.status == Status::Active {
                        self.active
                    } else {
                        self.active.remove(id)
                    },
                    ..self
                },
                line,
            )
        } else {
            (
                StateManagerModel {
                    states: self.states.update(
                        id as int,
                        state.with_status(Status::Terminated),
                    ),
                    active: self.active.remove(id),
                    terminated: self.terminated.insert(id),
                    ..self
                },
                None,
            )
        }
    }

    /// Whether `now` is what `self` has become after `rounds` whole rounds and the visits
    /// of the following round to the ids below `upto`.
    pub open spec fn tracks(self, now: StateManagerModel, rounds: nat, upto: nat) -> bool {
        &&& now.instructions == self.instructions
        &&& now.states.len() == self.states.len()
        &&& forall|i: int|
            0 <= i < self.states.len() ==> #[trigger] now.states[i] == self.state_after(
                i,
                self.visits(i, rounds, upto),
            )
        &&& forall|id: usize| #[trigger]
            now.active.contains(id) <==> self.alive(id, self.visits(id as int, rounds, upto))
        &&& forall|id: usize| #[trigger]
            now.terminated.contains(id) <==> self.terminated.contains(id) || self.fell_off(
                id,
                self.visits(id as int, rounds, upto),
            )
    }

    /// The number of visits that the state of the given id has had after `rounds` whole
    /// rounds and the visits of the following round to the ids below `upto`.
    pub open spec fn visits(self, id: int, rounds: nat, upto: nat) -> nat {
        if id < upto {
            rounds + 1
        } else {
            rounds
        }
    }

    /// Whether the state of the given id has run off the end of the instructions within
    /// `rounds` rounds: it was active, is alive no more, and its own steps have left it
    /// active.
    pub open spec fn fell_off(self, id: usize, rounds: nat) -> bool {
        &&& self.active.contains(id)
        &&& !self.alive(id, rounds)
        &&& self.stepped(id as int, rounds).status == Status::Active
    }

    /// A visit keeps the invariant and carries the round on by one id, and it reports the
    /// line of the step that the state takes in this round, if it takes one.
    pub proof fn lemma_visit(self, now: StateManagerModel, rounds: nat, id: usize)
        requires
            self.wf(),
            now.wf(),
            self.tracks(now, rounds, id as nat),
            id < self.states.len(),
        ensures
            now.visit(id).0.wf(),
            self.tracks(now.visit(id).0, rounds, (id + 1) as nat),
            self.round_lines(rounds, (id + 1) as nat) == match now.visit(id).1 {
                Some(line) => self.round_lines(rounds, id as nat).push(line),
                None => self.round_lines(rounds, id as nat),
            },
    {
        let state = self.states[id as int];
        let next = now.visit(id).0;
        assert(now.states[id as int] == self.state_after(id as int, rounds));
        if self.active.contains(id) {
            if self.alive(id, rounds) {
                self.lemma_alive(id, rounds);
                assert(now.active.contains(id));
                assert(now.states[id as int] == state.after(self.instructions, rounds));
            } else {
                self.lemma_dead(id, rounds, rounds);
                self.lemma_dead(id, rounds, rounds + 1);
                assert(!now.active.contains(id));
            }
        } else {
            assert(!self.alive(id, rounds));
            assert(!now.active.contains(id));
        }
        assert forall|i: int| 0 <= i < self.states.len() implies #[trigger] next.states[i]
            == self.state_after(i, self.visits(i, rounds, (id + 1) as nat)) by {
            assert(now.states[i] == self.state_after(i, self.visits(i, rounds, id as nat)));
        }
        assert forall|x: usize| #[trigger]
            next.active.contains(x) <==> self.alive(
                x,
                self.visits(x as int, rounds, (id + 1) as nat),
            ) by {
            assert(now.active.contains(x) <==> self.alive(
                x,
                self.visits(x as int, rounds, id as nat),
            ));
        }
        assert forall|x: usize| #[trigger]
            next.terminated.contains(x) <==> self.terminated.contains(x) || self.fell_off(
                x,
                self.visits(x as int, rounds, (id + 1) as nat),
            ) by {
            assert(now.terminated.contains(x) <==> self.terminated.contains(x) || self.fell_off(
                x,
                self.visits(x as int, rounds, id as nat),
            ));
        }
        assert forall|x: usize| #[trigger] next.active.contains(x) implies x < next.states.len()
            && next.states[x as int].status == Status::Active by {
            assert(now.active.contains(x));
        }
    }

    /// When the last id of a round has been visited, the next round starts.
    pub proof fn lemma_round_over(self, now: StateManagerModel, rounds: nat)
        requires
            self.wf(),
            self.tracks(now, rounds, self.states.len()),
        ensures
            self.tracks(now, rounds + 1, 0),
    {
        assert forall|i: int| 0 <= i < self.states.len() implies #[trigger] now.states[i]
            == self.state_after(i, self.visits(i, rounds + 1, 0)) by {
            assert(now.states[i] == self.state_after(
                i,
                self.visits(i, rounds, self.states.len()),
            ));
        }
        assert forall|id: usize| #[trigger]
            now.active.contains(id) <==> self.alive(id, self.visits(id as int, rounds + 1, 0)) by {
            assert(now.active.contains(id) <==> self.alive(
                id,
                self.visits(id as int, rounds, self.states.len()),
            ));
        }
        assert forall|id: usize| #[trigger]
            now.terminated.contains(id) <==> self.terminated.contains(id) || self.fell_off(
                id,
                self.visits(id as int, rounds + 1, 0),
            ) by {
            assert(now.terminated.contains(id) <==> self.terminated.contains(id) || self.fell_off(
                id,
                self.visits(id as int, rounds, self.states.len()),
            ));
        }
    }

    /// When no state is active after some rounds, the manager has explored, and the report
    /// is complete.
    pub proof fn lemma_explored(self, now: StateManagerModel, rounds: nat)
        requires
            self.wf(),
            self.tracks(now, rounds, 0),
            now.active == Set::<usize>::empty(),
            rounds <= self.instructions.len() + 1,
        ensures
            now == self.explored(),
            self.report(rounds) == self.explored_report(),
    {
        assert forall|id: usize| !self.alive(id, rounds) by {
            assert(!now.active.contains(id));
        }
        assert forall|i: int| 0 <= i < self.states.len() implies now.states[i]
            == self.explored().states[i] by {
            self.lemma_all_finished(rounds, i);
        }
        assert(now.states =~= self.explored().states);
        assert forall|id: usize|
            now.terminated.contains(id) <==> self.explored().terminated.contains(id) by {
            if self.active.contains(id) {
                self.lemma_all_finished(rounds, id as int);
            }
        }
        assert(now.terminated =~= self.explored().terminated);
        self.lemma_report_stable(rounds, self.instructions.len() + 1);
    }

    /// While a state is active, no more rounds have passed than there are instructions.
    pub proof fn lemma_rounds_bounded(self, now: StateManagerModel, rounds: nat)
        requires
            self.wf(),
            self.tracks(now, rounds, 0),
            now.active != Set::<usize>::empty(),
        ensures
            rounds <= self.instructions.len(),
    {
        if rounds > self.instructions.len() {
            assert forall|id: usize| !now.active.contains(id) by {
                if self.alive(id, rounds) {
                    self.lemma_alive(id, rounds);
                }
            }
            assert(now.active =~= Set::empty());
        }
    }
}

} // verus!
