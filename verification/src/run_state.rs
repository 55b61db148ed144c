//! The run/stop state machine that gates drawing and stepping.

use vstd::prelude::*;

verus! {

/// The menu asked for the process to end.
#[derive(Clone, Copy, Debug, PartialEq, Eq, Structural)]
pub struct GameExitEvent;

/// The menu asked for the simulation to run.
#[derive(Clone, Copy, Debug, PartialEq, Eq, Structural)]
pub struct SimulationStartEvent;

/// The menu asked for the simulation to stop.
#[derive(Clone, Copy, Debug, PartialEq, Eq, Structural)]
pub struct SimulationStopEvent;

/// The three things the menu can ask for.
#[derive(Clone, Copy, Debug, PartialEq, Eq, Structural)]
pub enum SimulationEvent {
    Start,
    Stop,
    Exit,
}

/// Whether the simulation runs. While it is stopped the pointer draws and
/// erases and no generation passes; while it runs it is the other way round.
#[derive(Clone, Copy, Debug, PartialEq, Eq, Structural)]
pub struct RunState {
    pub running: bool,
}

impl RunState {
    /// The state after `event`: `Start` leads to running, `Stop` to stopped,
    /// each from either state; `Exit` leaves the state alone.
    pub open spec fn after(self, event: SimulationEvent) -> RunState {
        match event {
            SimulationEvent::Start => RunState { running: true },
            SimulationEvent::Stop => RunState { running: false },
            SimulationEvent::Exit => self,
        }
    }

    /// The initial state: stopped.
    pub fn new() -> (s: RunState)
        ensures
            s == (RunState { running: false }),
    {
        RunState { running: false }
    }

    /// Whether the simulation runs.
    pub fn is_running(&self) -> (r: bool)
        ensures
            r == self.running,
    {
        self.running
    }

    /// Takes a `Start`.
    pub fn start(&mut self)
        ensures
            *final(self) == old(self).after(SimulationEvent::Start),
    {
        self.running = true;
    }

    /// Takes a `Stop`.
    pub fn stop(&mut self)
        ensures
            *final(self) == old(self).after(SimulationEvent::Stop),
    {
        self.running = false;
    }

    /// Takes `event` and tells the host whether the process should end,
    /// which is so for `Exit` alone.
    pub fn handle(&mut self, event: SimulationEvent) -> (should_exit: bool)
        ensures
            *final(self) == old(self).after(event),
            should_exit == (event == SimulationEvent::Exit),
    {
        match event {
            SimulationEvent::Start => {
                self.start();
                false
            },
            SimulationEvent::Stop => {
                self.stop();
                false
            },
            SimulationEvent::Exit => true,
        }
    }
}

/// Whether the host should end the process: it should once an exit request
/// has arrived.
pub fn exit_game(event: Option<GameExitEvent>) -> (should_exit: bool)
    ensures
        should_exit == event.is_some(),
{
    event.is_some()
}

/// Starts the simulation where a start request has arrived, and leaves the
/// state alone where none has.
pub fn set_simulation(event: Option<SimulationStartEvent>, state: &mut RunState)
    ensures
        event.is_some() ==> *final(state) == old(state).after(SimulationEvent::Start),
        event.is_none() ==> *final(state) == *old(state),
{
    if event.is_some() {
        state.start();
    }
}

/// Stops the simulation where a stop request has arrived, and leaves the
/// state alone where none has.
pub fn unset_simulation(event: Option<SimulationStopEvent>, state: &mut RunState)
    ensures
        event.is_some() ==> *final(state) == old(state).after(SimulationEvent::Stop),
        event.is_none() ==> *final(state) == *old(state),
{
    if event.is_some() {
        state.stop();
    }
}

/// A second `Stop` changes nothing: after one or two of them the simulation
/// is stopped, whatever it was before.
pub proof fn lemma_stop_idempotent(s: RunState)
    ensures
        s.after(SimulationEvent::Stop).running == false,
        s.after(SimulationEvent::Stop).after(SimulationEvent::Stop) == s.after(
            SimulationEvent::Stop,
        ),
{
}

/// A second `Start` changes nothing: after one or two of them the simulation
/// runs, whatever it did before.
pub proof fn lemma_start_idempotent(s: RunState)
    ensures
        s.after(SimulationEvent::Start).running == true,
        s.after(SimulationEvent::Start).after(SimulationEvent::Start) == s.after(
            SimulationEvent::Start,
        ),
{
}

} // verus!
