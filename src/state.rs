use vstd::prelude::*;

use crate::game::{App, AppView, Plugins};

verus! {

/// The finite states gating the gameplay phases.
#[derive(Clone, Copy, Debug, PartialEq, Eq, Hash, Structural)]
pub enum GameState {
    InGame,
    Paused,
    GameOver,
}

impl Default for GameState {
    fn default() -> (r: GameState)
        ensures
            r == GameState::InGame,
    {
        GameState::InGame
    }
}

/// The state asked for by a pause edge in state `current`, if any.
pub open spec fn pause_toggle(current: GameState, pause_just_pressed: bool) -> Option<GameState> {
    if !pause_just_pressed {
        None
    } else {
        match current {
            GameState::InGame => Some(GameState::Paused),
            GameState::Paused => Some(GameState::InGame),
            GameState::GameOver => None,
        }
    }
}

/// On a pause edge, asks for `Paused` from `InGame` and for `InGame` from
/// `Paused`; otherwise leaves the pending state alone.
pub fn game_state_input_events(
    next_state: &mut Option<GameState>,
    current_state: GameState,
    pause_just_pressed: bool,
)
    ensures
        *final(next_state) == (match pause_toggle(current_state, pause_just_pressed) {
            Some(s) => Some(s),
            None => *old(next_state),
        }),
{
    if pause_just_pressed {
        match current_state {
            GameState::InGame => {
                *next_state = Some(GameState::Paused);
            },
            GameState::Paused => {
                *next_state = Some(GameState::InGame);
            },
            GameState::GameOver => {},
        }
    }
}

/// Asks for `InGame`; run every frame while the game is over.
pub fn transition_to_in_game(next_state: &mut Option<GameState>)
    ensures
        *final(next_state) == Some(GameState::InGame),
{
    *next_state = Some(GameState::InGame);
}

/// Installs the state machine: pending states are entered each frame, the pause toggle, and the bounce out of `GameOver`.
pub struct StatePlugin;

impl StatePlugin {
    pub fn build(&self, app: &mut App)
        requires
            old(app)@.wf(),
        ensures
            final(app)@ == (AppView { plugins: Plugins { state: true, ..old(app)@.plugins }, ..old(app)@ }),
            final(app)@.wf(),
    {
        app.plugins.state = true;
    }
}

} // verus!
