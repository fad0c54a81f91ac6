//! A training session: one search at work in the background and the
//! consumer's view of what it has found.
//!
//! The session owns the receiving end of the channel. Dropping that end,
//! by going back to the selection or by leaving, is what stops the search.

use vstd::prelude::*;
use crate::agent::Agent;
use crate::genetic::{Algorithm, Message};
use crate::training::{
    bounded_channel,
    capacity_of,
    GeneticTrainingDetails,
    MAX_CHANNEL_CAPACITY,
};

verus! {

/// The modes of the application around the session.
#[derive(Clone, Copy, Debug, PartialEq, Eq, Hash, Structural)]
pub enum AppState {
    Editor,
    Game,
    Train,
}

impl Default for AppState {
    fn default() -> (state: AppState)
        ensures
            state == AppState::Editor,
    {
        AppState::Editor
    }
}

/// What a session shows.
#[derive(Clone, Copy, Debug, PartialEq, Eq, Structural)]
pub enum Screen {
    /// The settings of the search; no search is at work.
    Select,
    /// The candidates that the search has reported.
    Train,
    /// The replay of one candidate; the search goes on behind it.
    Visualize,
}

/// The state of a training session.
pub struct Session {
    algorithm: Algorithm,
    screen: Screen,
    details: Option<GeneticTrainingDetails>,
}

impl Session {
    /// What the session shows.
    pub closed spec fn screen(self) -> Screen {
        self.screen
    }

    /// The settings of the search.
    pub closed spec fn algorithm(self) -> Algorithm {
        self.algorithm
    }

    /// Whether the session holds the receiving end of a channel.
    pub closed spec fn is_listening(self) -> bool {
        self.details is Some
    }

    /// The candidates received so far; none while nothing is listened to.
    pub closed spec fn history(self) -> Seq<Message> {
        match self.details {
            Some(details) => details.history(),
            None => Seq::empty(),
        }
    }

    /// The session listens exactly while it is not at the selection.
    pub open spec fn wf(self) -> bool {
        self.is_listening() == (self.screen() != Screen::Select)
    }

    /// A session at the selection, with the given settings.
    pub fn new(algorithm: Algorithm) -> (session: Session)
        ensures
            session.wf(),
            session.screen() == Screen::Select,
            session.algorithm() == algorithm,
            session.history().len() == 0,
    {
        Session { algorithm, screen: Screen::Select, details: None }
    }

    /// Tells what the session shows.
    pub fn current_screen(&self) -> (screen: Screen)
        ensures
            screen == self.screen(),
    {
        self.screen
    }

    /// The settings of the search.
    pub fn settings(&self) -> (algorithm: Algorithm)
        ensures
            algorithm == self.algorithm(),
    {
        self.algorithm
    }

    /// Changes the settings; only the selection allows it.
    pub fn configure(&mut self, algorithm: Algorithm) -> (changed: bool)
        requires
            old(self).wf(),
        ensures
            final(self).wf(),
            changed == (old(self).screen() == Screen::Select),
            final(self).screen() == old(self).screen(),
            final(self).history() == old(self).history(),
            final(self).algorithm() == if changed {
                algorithm
            } else {
                old(self).algorithm()
            },
    {
        match self.screen {
            Screen::Select => {
                self.algorithm = algorithm;
                true
            },
            _ => false,
        }
    }

    /// Starts a search from the selection: a new channel of the given
    /// capacity is made, the session keeps its receiving end with an empty
    /// history and shows the candidates, and the sending end is handed out
    /// for the one worker that runs the search. Anywhere else nothing
    /// happens.
    pub fn begin_training(&mut self, capacity: usize) -> (sender: Option<
        crossbeam::channel::Sender<Message>,
    >)
        requires
            old(self).wf(),
            capacity <= MAX_CHANNEL_CAPACITY,
        ensures
            final(self).wf(),
            final(self).algorithm() == old(self).algorithm(),
            old(self).screen() == Screen::Select <==> sender is Some,
            sender is Some ==> final(self).screen() == Screen::Train && final(self).history().len()
                == 0,
            sender matches Some(s) ==> capacity_of(s) == capacity,
            sender is None ==> final(self).screen() == old(self).screen() && final(self).history()
                == old(self).history(),
    {
        match self.screen {
            Screen::Select => {
                let (sender, receiver) = bounded_channel(capacity);
                let details = match self.algorithm {
                    Algorithm::Genetic(algorithm) => algorithm.training_details_receiver(receiver),
                };
                self.details = Some(details);
                self.screen = Screen::Train;
                Some(sender)
            },
            _ => None,
        }
    }

    /// The number of candidates received so far.
    pub fn candidates(&self) -> (count: usize)
        ensures
            count == self.history().len(),
    {
        match &self.details {
            Some(details) => details.len(),
            None => 0,
        }
    }

    /// The score of the candidate at `index` of the history.
    pub fn score(&self, index: usize) -> (score: Option<u32>)
        ensures
            index < self.history().len() <==> score is Some,
            score matches Some(s) ==> s == self.history()[index as int].0,
    {
        match &self.details {
            Some(details) => match details.candidate(index) {
                Some(message) => Some(message.0),
                None => None,
            },
            None => None,
        }
    }

    /// Takes the candidates that are ready, without waiting; see
    /// [`GeneticTrainingDetails::receive_messages`]. The history keeps
    /// what it held. At the selection nothing is listened to and nothing
    /// changes.
    pub fn poll(&mut self)
        requires
            old(self).wf(),
        ensures
            final(self).wf(),
            final(self).screen() == old(self).screen(),
            final(self).algorithm() == old(self).algorithm(),
            old(self).history().len() <= final(self).history().len() <= old(self).history().len()
                + crate::training::DRAIN_LIMIT,
            final(self).history().take(old(self).history().len() as int) == old(self).history(),
            old(self).screen() == Screen::Select ==> final(self).history() == old(self).history(),
    {
        match &mut self.details {
            Some(details) => {
                details.receive_messages();
            },
            None => {
                assert(self.history().take(0) =~= old(self).history());
            },
        }
    }

    /// Goes back from the candidates to the selection and drops the
    /// receiving end, which stops the search. Anywhere else nothing
    /// happens.
    pub fn back_to_select(&mut self) -> (done: bool)
        requires
            old(self).wf(),
        ensures
            final(self).wf(),
            final(self).algorithm() == old(self).algorithm(),
            done == (old(self).screen() == Screen::Train),
            done ==> final(self).screen() == Screen::Select && !final(self).is_listening(),
            done ==> final(self).history().len() == 0,
            !done ==> final(self).screen() == old(self).screen() && final(self).history() == old(
                self,
            ).history(),
    {
        match self.screen {
            Screen::Train => {
                self.screen = Screen::Select;
                self.details = None;
                true
            },
            _ => false,
        }
    }

    /// Picks the candidate at `index` of the history for replay: from the
    /// candidates, and for an index inside the history, the session
    /// shows the replay and hands out a copy of the agent as it was
    /// reported. Else nothing happens.
    pub fn visualize(&mut self, index: usize) -> (agent: Option<Agent>)
        requires
            old(self).wf(),
        ensures
            final(self).wf(),
            final(self).algorithm() == old(self).algorithm(),
            final(self).history() == old(self).history(),
            agent is Some <==> old(self).screen() == Screen::Train && index < old(self).history().len(),
            agent matches Some(a) ==> final(self).screen() == Screen::Visualize && a.same_as(
                old(self).history()[index as int].1,
            ),
            agent is None ==> final(self).screen() == old(self).screen(),
    {
        match self.screen {
            Screen::Train => {
                let picked = match &self.details {
                    Some(details) => match details.candidate(index) {
                        Some(message) => Some(message.1.snapshot()),
                        None => None,
                    },
                    None => None,
                };
                if picked.is_some() {
                    self.screen = Screen::Visualize;
                }
                picked
            },
            _ => None,
        }
    }

    /// Goes back from a replay to the candidates. Anywhere else nothing
    /// happens.
    pub fn back_to_training(&mut self) -> (done: bool)
        requires
            old(self).wf(),
        ensures
            final(self).wf(),
            final(self).algorithm() == old(self).algorithm(),
            final(self).history() == old(self).history(),
            done == (old(self).screen() == Screen::Visualize),
            final(self).screen() == if done {
                Screen::Train
            } else {
                old(self).screen()
            },
    {
        match self.screen {
            Screen::Visualize => {
                self.screen = Screen::Train;
                true
            },
            _ => false,
        }
    }

    /// Ends the session from any screen: back to the selection with the
    /// default settings, the receiving end dropped.
    pub fn leave(&mut self)
        ensures
            final(self).wf(),
            final(self).screen() == Screen::Select,
            final(self).algorithm() == Algorithm::Genetic(
                crate::genetic::GeneticAlgorithm::standard(),
            ),
            !final(self).is_listening(),
            final(self).history().len() == 0,
    {
        self.algorithm = Algorithm::default();
        self.screen = Screen::Select;
        self.details = None;
    }
}

} // verus!
