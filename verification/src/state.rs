//! Session mode and pause sub-mode, and the key-driven moves between them.

use vstd::prelude::*;

verus! {

/// Top-level mode of the application.
#[derive(Clone, Copy, Debug, PartialEq, Eq, Structural, Hash)]
pub enum AppState {
    MainMenu,
    Game,
    GameOver,
}

/// The pause sub-mode of a game: what the toggle key last asked for.
#[derive(Clone, Copy, Debug, PartialEq, Eq, Structural, Hash)]
pub enum SimulationState {
    Running,
    Paused,
}

impl Default for AppState {
    fn default() -> (state: AppState)
        ensures
            state == AppState::MainMenu,
    {
        AppState::MainMenu
    }
}

impl Default for SimulationState {
    fn default() -> (state: SimulationState)
        ensures
            state == SimulationState::Paused,
    {
        SimulationState::Paused
    }
}

/// The keys that went down during the frame, one flag per command.
#[derive(Clone, Copy, Debug, PartialEq, Eq, Structural)]
pub struct KeyPresses {
    /// Ask for a game to start.
    pub enter_game: bool,
    /// Ask for the main menu.
    pub enter_menu: bool,
    /// Flip between running and paused.
    pub toggle_simulation: bool,
    /// Ask the application to quit.
    pub exit: bool,
}

/// The other pause sub-mode.
pub open spec fn toggled(state: SimulationState) -> SimulationState {
    match state {
        SimulationState::Running => SimulationState::Paused,
        SimulationState::Paused => SimulationState::Running,
    }
}

/// The mode that a frame's key presses lead to. A request for the mode that is
/// already on changes nothing; where both requests apply, the menu wins.
/// Nothing leads into `GameOver`.
pub open spec fn next_app_state(keys: KeyPresses, state: AppState) -> AppState {
    if keys.enter_menu && state != AppState::MainMenu {
        AppState::MainMenu
    } else if keys.enter_game && state != AppState::Game {
        AppState::Game
    } else {
        state
    }
}

/// The pause sub-mode after a frame's key presses: the toggle counts only
/// while a game is on.
pub open spec fn next_simulation_state(
    keys: KeyPresses,
    app_state: AppState,
    simulation_state: SimulationState,
) -> SimulationState {
    if keys.toggle_simulation && app_state == AppState::Game {
        toggled(simulation_state)
    } else {
        simulation_state
    }
}

/// Decides what a press of the toggle key does to the pause sub-mode: the
/// mode to switch to, or `None` when the key was not pressed.
pub fn toggle_simulation(toggle_pressed: bool, simulation_state: SimulationState) -> (next: Option<
    SimulationState,
>)
    ensures
        next == if toggle_pressed {
            Some(toggled(simulation_state))
        } else {
            None
        },
{
    if toggle_pressed {
        match simulation_state {
            SimulationState::Paused => Some(SimulationState::Running),
            SimulationState::Running => Some(SimulationState::Paused),
        }
    } else {
        None
    }
}

/// Decides whether a press of the game key starts a game: `Some(Game)` when
/// the key was pressed outside a game, `None` otherwise.
pub fn transition_to_game_state(enter_game_pressed: bool, app_state: AppState) -> (next: Option<
    AppState,
>)
    ensures
        next == if enter_game_pressed && app_state != AppState::Game {
            Some(AppState::Game)
        } else {
            None
        },
{
    if enter_game_pressed && app_state != AppState::Game {
        Some(AppState::Game)
    } else {
        None
    }
}

/// Decides whether a press of the menu key opens the main menu:
/// `Some(MainMenu)` when the key was pressed outside the menu, `None`
/// otherwise.
pub fn transition_to_main_menu_state(enter_menu_pressed: bool, app_state: AppState) -> (next:
    Option<AppState>)
    ensures
        next == if enter_menu_pressed && app_state != AppState::MainMenu {
            Some(AppState::MainMenu)
        } else {
            None
        },
{
    if enter_menu_pressed && app_state != AppState::MainMenu {
        Some(AppState::MainMenu)
    } else {
        None
    }
}

/// Whether the frame's key presses ask the application to quit.
pub fn exit_game(keys: &KeyPresses) -> (quit: bool)
    ensures
        quit == keys.exit,
{
    keys.exit
}

/// Both modes of a running application.
#[derive(Clone, Copy, Debug, PartialEq, Eq, Structural)]
pub struct Session {
    pub app_state: AppState,
    pub simulation_state: SimulationState,
}

impl Session {
    /// A session at launch: in the main menu, with the simulation paused.
    pub fn new() -> (session: Session)
        ensures
            session.app_state == AppState::MainMenu,
            session.simulation_state == SimulationState::Paused,
    {
        Session { app_state: AppState::MainMenu, simulation_state: SimulationState::Paused }
    }

    /// Applies one frame's key presses to both modes. Every decision reads
    /// the modes as they were when the frame began. Returns whether the
    /// application was asked to quit.
    pub fn handle_keys(&mut self, keys: &KeyPresses) -> (quit: bool)
        ensures
            final(self).app_state == next_app_state(*keys, old(self).app_state),
            final(self).simulation_state == next_simulation_state(
                *keys,
                old(self).app_state,
                old(self).simulation_state,
            ),
            old(self).app_state != AppState::Game ==> final(self).simulation_state == old(
                self,
            ).simulation_state,
            quit == keys.exit,
    {
        let app_state = self.app_state;
        if app_state == AppState::Game {
            match toggle_simulation(keys.toggle_simulation, self.simulation_state) {
                Some(next) => {
                    self.simulation_state = next;
                },
                None => {},
            }
        }
        match transition_to_game_state(keys.enter_game, app_state) {
            Some(next) => {
                self.app_state = next;
            },
            None => {},
        }
        match transition_to_main_menu_state(keys.enter_menu, app_state) {
            Some(next) => {
                self.app_state = next;
            },
            None => {},
        }
        exit_game(keys)
    }
}

/// Two presses of the toggle key bring the pause sub-mode back.
pub proof fn lemma_toggle_twice_restores(state: SimulationState)
    ensures
        toggled(state) != state,
        toggled(toggled(state)) == state,
{
}

/// Outside a game the toggle key leaves the pause sub-mode as it was,
/// whatever else was pressed.
pub proof fn lemma_toggle_ignored_outside_game(
    keys: KeyPresses,
    app_state: AppState,
    simulation_state: SimulationState,
)
    requires
        app_state != AppState::Game,
    ensures
        next_simulation_state(keys, app_state, simulation_state) == simulation_state,
{
}

/// No key press leads into `GameOver`: the session is there afterwards only
/// if it was there before.
pub proof fn lemma_game_over_is_never_entered(keys: KeyPresses, state: AppState)
    ensures
        next_app_state(keys, state) == AppState::GameOver ==> state == AppState::GameOver,
{
}

} // verus!
