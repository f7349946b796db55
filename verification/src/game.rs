//! A whole game: the session's modes, the world, and the fixed order in
//! which one frame updates them.

use vstd::prelude::*;
use crate::entity::{ENEMIES_NUMBER, STARS_NUMBER};
use crate::events::GameOver;
use crate::geometry::Bounds;
use crate::movement::MoveKeys;
use crate::spawner::{enemies_added, stars_added};
use crate::state::{
    next_app_state,
    next_simulation_state,
    AppState,
    KeyPresses,
    Session,
    SimulationState,
};
use crate::timer::{SpawnKind, SpawnTimer, ENEMY_SPAWN_PERIOD_US, STAR_SPAWN_PERIOD_US};
use crate::world::{reported, stepped, tallied, FrameReport, World};

verus! {

/// What the outside supplies for one frame.
#[derive(Clone, Copy, Debug, PartialEq, Eq, Structural)]
pub struct FrameInput {
    /// The movement keys held down.
    pub held: MoveKeys,
    /// The command keys that went down during the frame.
    pub presses: KeyPresses,
    /// The time since the last frame, in microseconds.
    pub delta_us: u32,
    /// The window, if there is one.
    pub bounds: Option<Bounds>,
}

/// A game from launch to exit.
#[derive(Debug)]
pub struct Game {
    pub session: Session,
    pub world: World,
    /// The game-over events not yet handled, oldest first.
    pub game_over_events: Vec<GameOver>,
}

/// Whether a frame's key presses start a game in a session.
pub open spec fn enters_game(session: Session, presses: KeyPresses) -> bool {
    session.app_state != AppState::Game && next_app_state(presses, session.app_state)
        == AppState::Game
}

/// A world at the start of a game in a window: the player in the middle,
/// the starting enemies and stars at positions drawn in the window.
pub open spec fn fresh(world: World, window: Bounds) -> bool {
    &&& world.player == Some(window.spec_center())
    &&& enemies_added(Seq::empty(), world.enemies@, ENEMIES_NUMBER as int, window)
    &&& stars_added(Seq::empty(), world.stars@, STARS_NUMBER as int, window)
}

/// The queue of game-over events after a frame: one longer if the frame
/// ended the game.
pub open spec fn queued(before: Seq<GameOver>, report: FrameReport) -> Seq<GameOver> {
    match report.game_over {
        Some(event) => before.push(event),
        None => before,
    }
}

impl Game {
    /// The world is well-formed.
    pub open spec fn wf(self) -> bool {
        self.world.wf()
    }

    /// Tests whether the game is fit for a frame: its world well-formed and
    /// with room in the score.
    pub fn is_ready(&self) -> (ok: bool)
        ensures
            ok == (self.wf() && self.world.has_room()),
    {
        self.world.is_ready()
    }

    /// A game at launch: in the main menu, paused, with an empty world.
    pub fn new() -> (game: Game)
        ensures
            game.wf(),
            game.session.app_state == AppState::MainMenu,
            game.session.simulation_state == SimulationState::Paused,
            game.world.player.is_none(),
            game.world.enemies@.len() == 0,
            game.world.stars@.len() == 0,
            game.world.score.value == 0,
            game.world.star_timer == (SpawnTimer {
                kind: SpawnKind::Collectible,
                period_us: STAR_SPAWN_PERIOD_US,
                elapsed_us: 0,
                finished: false,
            }),
            game.world.enemy_timer == (SpawnTimer {
                kind: SpawnKind::Enemy,
                period_us: ENEMY_SPAWN_PERIOD_US,
                elapsed_us: 0,
                finished: false,
            }),
            game.game_over_events@.len() == 0,
    {
        Game { session: Session::new(), world: World::new(), game_over_events: Vec::new() }
    }

    /// Runs one frame in its fixed order. The world advances by one step,
    /// whatever the session's modes, and a game-over event that the step
    /// brings is queued. Then the command keys act on the session. Where
    /// they start a game, the world is set up anew. Returns the frame's
    /// report and whether the application was asked to quit.
    pub fn update(&mut self, input: &FrameInput) -> (outcome: (FrameReport, bool))
        requires
            old(self).wf(),
            old(self).world.has_room(),
        ensures
            final(self).wf(),
            final(self).session.app_state == next_app_state(
                input.presses,
                old(self).session.app_state,
            ),
            final(self).session.simulation_state == next_simulation_state(
                input.presses,
                old(self).session.app_state,
                old(self).session.simulation_state,
            ),
            outcome.1 == input.presses.exit,
            final(self).game_over_events@ == queued(old(self).game_over_events@, outcome.0),
            final(self).world.score.value >= old(self).world.score.value,
            input.bounds.is_none() ==> outcome.0.is_empty() && final(self).world == old(
                self,
            ).world,
            input.bounds.is_some() && !enters_game(old(self).session, input.presses) ==> stepped(
                old(self).world,
                final(self).world,
                outcome.0,
                input.held,
                input.delta_us,
                input.bounds.unwrap(),
            ),
            input.bounds.is_some() && enters_game(old(self).session, input.presses) ==> {
                &&& reported(
                    old(self).world,
                    outcome.0,
                    input.held,
                    input.delta_us,
                    input.bounds.unwrap(),
                )
                &&& tallied(
                    old(self).world,
                    final(self).world,
                    input.held,
                    input.delta_us,
                    input.bounds.unwrap(),
                )
                &&& fresh(final(self).world, input.bounds.unwrap())
            },
    {
        let before = self.session.app_state;
        let report = self.world.step(input.held, input.delta_us, input.bounds);
        match report.game_over {
            Some(event) => {
                self.game_over_events.push(event);
            },
            None => {},
        }
        let quit = self.session.handle_keys(&input.presses);
        if before != AppState::Game && self.session.app_state == AppState::Game {
            self.world.spawn_initial_entities(input.bounds);
        }
        (report, quit)
    }
}

} // verus!
