//! The suggestion cycle: the state machine that drives which restaurant
//! is currently presented, and the transitions between presenting,
//! terminated and tabulating modes.

use vstd::prelude::*;

use crate::engine::{listing_ok, opt_hours_display, rows_view, tuplify};
use crate::schedule::{Day, Restaurant, RestaurantView};
use crate::time::Time;

verus! {

/// Represents the current state of the user interface.
#[derive(Clone, Copy, Debug, PartialEq, Eq, Structural)]
pub enum State {
    /// The user interface is presenting a restaurant for the user's consideration.
    Presenting,
    /// The app has run out of suggestions and is shrugging at the user.
    Terminated,
    /// The app is showing a list of restaurants to the user, instead of its normal
    /// shuffling interface.
    Tabulating,
}

/// What an `advance` signal did.
#[derive(Clone, Copy, Debug, PartialEq, Eq, Structural)]
pub enum Advance {
    /// A candidate was popped from the queue and is now the current suggestion.
    Suggested,
    /// The queue was exhausted: the cycle has entered its end state.
    Ended,
    /// The queue was exhausted while already in the end state: the caller
    /// should rebuild and reshuffle the candidates and start afresh.
    Restart,
    /// The signal arrived while tabulating and was ignored.
    Ignored,
}

/// The mathematical image of a `SuggestionCycle`: the queued candidates,
/// the two mode flags, and the suggestion currently on display as a
/// (name, hours label) pair.
#[verifier::ext_equal]
pub struct CycleView {
    pub queue: Seq<RestaurantView>,
    pub terminated: bool,
    pub tabulating: bool,
    pub current: Option<(Seq<char>, Seq<char>)>,
}

impl CycleView {
    /// The mode the cycle is in: tabulating overlays whichever of the two
    /// other modes is in effect underneath.
    pub open spec fn state(self) -> State {
        if self.tabulating {
            State::Tabulating
        } else if self.terminated {
            State::Terminated
        } else {
            State::Presenting
        }
    }

    /// Every queued candidate has a well-formed schedule.
    pub open spec fn wf(self) -> bool {
        forall|i: int| 0 <= i < self.queue.len() ==> (#[trigger] self.queue[i]).wf()
    }
}

/// What entering a mode does: presenting clears both flags and the
/// display, terminating sets its flag, clears tabulation and overwrites
/// the display with the terminal message, and tabulating only lays its
/// flag over the mode already in effect.
pub open spec fn set_state_spec(v: CycleView, state: State) -> CycleView {
    match state {
        State::Presenting => CycleView { terminated: false, tabulating: false, current: None, ..v },
        State::Terminated => CycleView { terminated: true, tabulating: false, current: None, ..v },
        State::Tabulating => CycleView { tabulating: true, ..v },
    }
}

/// What a tabulation toggle does to the cycle: it flips the tabulation
/// flag and touches nothing else — neither the queue, nor the underlying
/// mode, nor the current suggestion.
pub open spec fn toggle_spec(v: CycleView) -> CycleView {
    CycleView { tabulating: !v.tabulating, ..v }
}

/// Law: toggling tabulation twice returns the cycle to exactly the state
/// it started in — same queue, same underlying mode, same current
/// suggestion.
pub proof fn lemma_toggle_twice_identity(v: CycleView)
    ensures
        toggle_spec(toggle_spec(v)) == v,
{
    assert(toggle_spec(toggle_spec(v)) =~= v);
}

/// What an `advance` signal does: while tabulating it is ignored; with a
/// non-empty queue the tail candidate is popped and put on display; with
/// an empty queue the cycle either asks for a restart (if already ended)
/// or enters the end state.
pub open spec fn advance_spec(v: CycleView, day: Day) -> (CycleView, Advance) {
    if v.tabulating {
        (v, Advance::Ignored)
    } else if v.queue.len() > 0 {
        let r = v.queue.last();
        (
            CycleView {
                queue: v.queue.drop_last(),
                current: Some((r.name, opt_hours_display(r.hours.on(day)))),
                ..v
            },
            Advance::Suggested,
        )
    } else if v.terminated {
        (v, Advance::Restart)
    } else {
        (set_state_spec(v, State::Terminated), Advance::Ended)
    }
}

/// Drives which restaurant is currently presented.
///
/// The queue holds the shuffled viable candidates still to be shown, in
/// pop-from-the-tail order; the flags give the mode; the current
/// suggestion is what the presentation layer should display.
#[derive(Debug)]
pub struct SuggestionCycle {
    queue: Vec<Restaurant>,
    terminated: bool,
    tabulating: bool,
    current: Option<(String, String)>,
}

impl View for SuggestionCycle {
    type V = CycleView;

    closed spec fn view(&self) -> CycleView {
        CycleView {
            queue: self.queue.deep_view(),
            terminated: self.terminated,
            tabulating: self.tabulating,
            current: match self.current {
                None => None,
                Some(t) => Some((t.0@, t.1@)),
            },
        }
    }
}

impl SuggestionCycle {
    /// A fresh cycle over an already-shuffled queue of candidates, in
    /// presenting mode with nothing on display yet.
    pub fn new(queue: Vec<Restaurant>) -> (c: Self)
        ensures
            c@ == (CycleView {
                queue: queue.deep_view(),
                terminated: false,
                tabulating: false,
                current: None,
            }),
    {
        SuggestionCycle { queue, terminated: false, tabulating: false, current: None }
    }

    /// Returns the state of the application user interface.
    pub fn get_state(&self) -> (state: State)
        ensures
            state == self@.state(),
    {
        if self.tabulating {
            State::Tabulating
        } else if self.terminated {
            State::Terminated
        } else {
            State::Presenting
        }
    }

    /// Sets the state of the application user interface, as
    /// `set_state_spec` describes.
    pub fn set_state(&mut self, state: State)
        ensures
            final(self)@ == set_state_spec(old(self)@, state),
    {
        match state {
            State::Presenting => {
                self.terminated = false;
                self.tabulating = false;
                self.current = None;
            },
            State::Terminated => {
                self.terminated = true;
                self.tabulating = false;
                self.current = None;
            },
            State::Tabulating => {
                self.tabulating = true;
            },
        }
    }

    /// Switches from tabulation mode to the last-used mode.
    pub fn stop_tabulation(&mut self)
        ensures
            final(self)@ == (CycleView { tabulating: false, ..old(self)@ }),
    {
        self.tabulating = false;
    }

    /// Updates the current suggestion to reflect the given name and hours
    /// label.
    pub fn set_suggestion(&mut self, name: &str, hours: &str)
        ensures
            final(self)@ == (CycleView { current: Some((name@, hours@)), ..old(self)@ }),
    {
        self.current = Some((String::from_str(name), String::from_str(hours)));
    }

    /// The suggestion currently on display, as a (name, hours label)
    /// pair.
    pub fn suggestion(&self) -> (s: &Option<(String, String)>)
        ensures
            s is Some <==> self@.current is Some,
            *s matches Some(t) ==> self@.current == Some((t.0@, t.1@)),
    {
        &self.current
    }

    /// How many queued candidates are still to be shown.
    pub fn remaining(&self) -> (n: usize)
        ensures
            n == self@.queue.len(),
    {
        self.queue.len()
    }

    /// Presents a restaurant for the user's consideration: its name goes
    /// on display with the hours label of the given day, or with an empty
    /// label on a day it does not open.
    pub fn suggest(&mut self, restaurant: &Restaurant, day: Day)
        requires
            restaurant@.wf(),
        ensures
            final(self)@ == (CycleView {
                current: Some(
                    (restaurant@.name, opt_hours_display(restaurant@.hours.on(day))),
                ),
                ..old(self)@
            }),
    {
        match restaurant.get_hours(day) {
            Some(hours) => {
                let label = hours.to_display();
                self.set_suggestion(restaurant.name.as_str(), label.as_str());
            },
            None => {
                proof {
                    reveal_strlit("");
                    assert(""@ =~= Seq::<char>::empty());
                }
                self.set_suggestion(restaurant.name.as_str(), "");
            },
        }
    }

    /// Progresses to the next restaurant recommendation, as
    /// `advance_spec` describes.
    ///
    /// If there are no more restaurants, progresses to the end state; if
    /// already in the end state, asks the caller to rebuild the
    /// candidates and start the cycle anew.
    pub fn next(&mut self, day: Day) -> (r: Advance)
        requires
            old(self)@.wf(),
        ensures
            (final(self)@, r) == advance_spec(old(self)@, day),
            final(self)@.wf(),
    {
        if self.tabulating {
            return Advance::Ignored;
        }
        let popped = self.queue.pop();
        match popped {
            Some(restaurant) => {
                assert(restaurant@ == old(self)@.queue.last());
                self.suggest(&restaurant, day);
                proof {
                    assert(self@.queue =~= old(self)@.queue.drop_last());
                }
                Advance::Suggested
            },
            None => {
                if self.terminated {
                    Advance::Restart
                } else {
                    self.set_state(State::Terminated);
                    Advance::Ended
                }
            },
        }
    }

    /// Starts the suggestion cycle over an already-shuffled queue of
    /// candidates: the cycle enters presenting mode and immediately
    /// advances once, so that the first candidate is on display — or,
    /// with an empty queue, so that the cycle is already ended.
    pub fn start(queue: Vec<Restaurant>, day: Day) -> (r: (SuggestionCycle, Advance))
        requires
            forall|i: int|
                0 <= i < queue.deep_view().len() ==> (#[trigger] queue.deep_view()[i]).wf(),
        ensures
            (r.0@, r.1) == advance_spec(
                CycleView {
                    queue: queue.deep_view(),
                    terminated: false,
                    tabulating: false,
                    current: None,
                },
                day,
            ),
            r.0@.wf(),
    {
        let mut cycle = SuggestionCycle::new(queue);
        cycle.set_state(State::Presenting);
        let advance = cycle.next(day);
        (cycle, advance)
    }

    /// Stops the suggestion cycle, presenting the end screen.
    pub fn end(&mut self)
        ensures
            final(self)@ == set_state_spec(old(self)@, State::Terminated),
    {
        self.set_state(State::Terminated);
    }

    /// Computes the full catalog listing and enters tabulation mode over
    /// whichever mode was in effect.
    pub fn list(&mut self, catalog: &Vec<Restaurant>, day: Day, time: Time) -> (rows: Vec<
        (String, String, bool),
    >)
        requires
            time.wf(),
            forall|i: int|
                0 <= i < catalog.deep_view().len() ==> (#[trigger] catalog.deep_view()[i]).wf(),
        ensures
            listing_ok(rows_view(rows@), catalog.deep_view(), day, time),
            final(self)@ == set_state_spec(old(self)@, State::Tabulating),
    {
        let rows = tuplify(catalog, day, time);
        self.set_state(State::Tabulating);
        rows
    }

    /// Handles the list-toggle signal: leaves tabulation if it is on,
    /// else computes the listing and enters it. Either way the state
    /// change is exactly `toggle_spec`: the queue, the underlying mode
    /// and the current suggestion are untouched.
    pub fn toggle_list_mode(&mut self, catalog: &Vec<Restaurant>, day: Day, time: Time) -> (rows:
        Option<Vec<(String, String, bool)>>)
        requires
            time.wf(),
            forall|i: int|
                0 <= i < catalog.deep_view().len() ==> (#[trigger] catalog.deep_view()[i]).wf(),
        ensures
            final(self)@ == toggle_spec(old(self)@),
            old(self)@.tabulating ==> rows is None,
            !old(self)@.tabulating ==> (rows matches Some(r) && listing_ok(
                rows_view(r@),
                catalog.deep_view(),
                day,
                time,
            )),
    {
        if self.get_state() == State::Tabulating {
            self.stop_tabulation();
            proof {
                assert(self@ =~= toggle_spec(old(self)@));
            }
            None
        } else {
            let rows = self.list(catalog, day, time);
            proof {
                assert(self@ =~= toggle_spec(old(self)@));
            }
            Some(rows)
        }
    }
}

} // verus!
