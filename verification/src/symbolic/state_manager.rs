//! Driving the states of a function until none is active.

use std::collections::HashSet;
use vstd::prelude::*;
use crate::disassembler::function::{instruction_models, Function};
use crate::disassembler::instruction::Instruction;
use crate::symbolic::exploration::StateManagerModel;
use crate::symbolic::state::{State, StateModel, Status};
use crate::text::line_texts;

verus! {

broadcast use vstd::std_specs::hash::group_hash_axioms;

/// The models of a sequence of states, in order.
pub open spec fn state_models(states: Seq<State>) -> Seq<StateModel> {
    states.map_values(|s: State| s@)
}

/// The states of one function and the instructions they run through.
#[derive(Debug)]
pub struct StateManager {
    instructions: Vec<Instruction>,
    states: Vec<State>,
    active_state_ids: HashSet<usize>,
    terminated_state_ids: HashSet<usize>,
}

impl View for StateManager {
    type V = StateManagerModel;

    closed spec fn view(&self) -> StateManagerModel {
        StateManagerModel {
            instructions: instruction_models(self.instructions@),
            states: state_models(self.states@),
            active: self.active_state_ids@,
            terminated: self.terminated_state_ids@,
        }
    }
}

impl StateManager {
    /// The manager's invariant: that of its model and that of each state.
    pub closed spec fn wf(&self) -> bool {
        &&& self@.wf()
        &&& forall|i: int| 0 <= i < self.states@.len() ==> #[trigger] self.states@[i].wf()
    }

    /// Creates a new state manager.
    pub fn new(function: Function) -> (r: StateManager)
        ensures
            r.wf(),
            r@ == StateManagerModel::initial(function@.instructions),
    {
        let entry_state = State::new(0, 0);
        let mut active_state_ids: HashSet<usize> = HashSet::new();
        active_state_ids.insert(entry_state.id());

        let mut states: Vec<State> = Vec::new();
        states.push(entry_state);
        let r = StateManager {
            instructions: function.instructions(),
            states,
            active_state_ids,
            terminated_state_ids: HashSet::new(),
        };
        proof {
            assert(r@.states =~= seq![StateModel::initial(0, 0)]);
            assert(r@.active =~= set![0usize]);
        }
        r
    }

    /// Returns the state with the given id, if there is one.
    pub fn state(&self, id: usize) -> (r: Option<&State>)
        ensures
            match r {
                Some(state) => id < self@.states.len() && state@ == self@.states[id as int] && (
                self.wf() ==> state.wf()),
                None => id >= self@.states.len(),
            },
    {
        if id < self.states.len() {
            Some(&self.states[id])
        } else {
            None
        }
    }

    /// Tells whether the state with the given id is still to be stepped.
    pub fn is_active(&self, id: usize) -> (r: bool)
        ensures
            r == self@.active.contains(id),
    {
        self.active_state_ids.contains(&id)
    }

    /// Tells whether the state with the given id has run off the end of the instructions.
    pub fn is_terminated(&self, id: usize) -> (r: bool)
        ensures
            r == self@.terminated.contains(id),
    {
        self.terminated_state_ids.contains(&id)
    }

    /// Visits the state with the given id in a round, and adds the line that it reports, if
    /// any, to `lines`.
    fn visit(&mut self, id: usize, lines: &mut Vec<String>)
        requires
            old(self).wf(),
            id < old(self)@.states.len(),
        ensures
            final(self).wf(),
            final(self)@ == old(self)@.visit(id).0,
            line_texts(final(lines)@) == match old(self)@.visit(id).1 {
                Some(line) => line_texts(old(lines)@).push(line),
                None => line_texts(old(lines)@),
            },
    {
        if self.active_state_ids.contains(&id) {
            assert(self@.active.contains(id));
            let pos = self.states[id].pos();
            if pos < self.instructions.len() {
                let line = self.states[id].step(&self.instructions[pos]);
                let stays = match *self.states[id].status() {
                    Status::Active => true,
                    _ => false,
                };
                if !stays {
                    self.active_state_ids.remove(&id);
                }
                assert(self@.states =~= old(self)@.visit(id).0.states);
                if let Some(line) = line {
                    lines.push(line);
                    assert(line_texts(lines@) =~= line_texts(old(lines)@).push(line@));
                }
            } else {
                self.states[id].terminate();
                self.active_state_ids.remove(&id);
                self.terminated_state_ids.insert(id);
                assert(self@.states =~= old(self)@.visit(id).0.states);
            }
        } else {
            assert(self@.states =~= old(self)@.states);
        }
    }

    /// Keeps simulating until all states have terminated. Returns the lines that the states
    /// report on the way, in the order in which they are reported.
    pub fn explore(&mut self) -> (lines: Vec<String>)
        requires
            old(self).wf(),
        ensures
            final(self).wf(),
            final(self)@ == old(self)@.explored(),
            line_texts(lines@) == old(self)@.explored_report(),
    {
        let ghost start = self@;
        let ghost mut rounds: nat = 0;
        let mut lines: Vec<String> = Vec::new();
        let mut done = false;
        proof {
            assert(line_texts(lines@) =~= start.report(0));
            assert(start.tracks(self@, 0, 0));
        }
        while !done
            invariant
                self.wf(),
                start.wf(),
                start.tracks(self@, rounds, 0),
                line_texts(lines@) == start.report(rounds),
                rounds <= start.instructions.len() + 1,
                !done ==> rounds <= start.instructions.len(),
                done ==> self@.active == Set::<usize>::empty(),
            decreases
                    if done {
                        0
                    } else {
                        start.instructions.len() + 1 - rounds
                    },
        {
            let mut id: usize = 0;
            while id < self.states.len()
                invariant
                    self.wf(),
                    start.wf(),
                    id <= self.states.len(),
                    self.states.len() == start.states.len(),
                    start.tracks(self@, rounds, id as nat),
                    line_texts(lines@) == start.report(rounds) + start.round_lines(
                        rounds,
                        id as nat,
                    ),
                decreases self.states.len() - id,
            {
                proof {
                    start.lemma_visit(self@, rounds, id);
                }
                self.visit(id, &mut lines);
                id = id + 1;
            }
            done = self.active_state_ids.is_empty();
            proof {
                start.lemma_round_over(self@, rounds);
                rounds = rounds + 1;
                if !done {
                    start.lemma_rounds_bounded(self@, rounds);
                }
            }
        }
        proof {
            start.lemma_explored(self@, rounds);
        }
        lines
    }
}

} // verus!
