use ball_game::state::{
    exit_game, toggle_simulation, transition_to_game_state, transition_to_main_menu_state,
    AppState, KeyPresses, Session, SimulationState,
};

fn no_keys() -> KeyPresses {
    KeyPresses {
        enter_game: false,
        enter_menu: false,
        toggle_simulation: false,
        exit: false,
    }
}

#[test]
fn defaults_are_main_menu_and_paused() {
    assert_eq!(AppState::default(), AppState::MainMenu);
    assert_eq!(SimulationState::default(), SimulationState::Paused);
    let session = Session::new();
    assert_eq!(session.app_state, AppState::MainMenu);
    assert_eq!(session.simulation_state, SimulationState::Paused);
}

#[test]
fn toggle_flips_each_way() {
    assert_eq!(
        toggle_simulation(true, SimulationState::Paused),
        Some(SimulationState::Running)
    );
    assert_eq!(
        toggle_simulation(true, SimulationState::Running),
        Some(SimulationState::Paused)
    );
    assert_eq!(toggle_simulation(false, SimulationState::Paused), None);
    assert_eq!(toggle_simulation(false, SimulationState::Running), None);
}

#[test]
fn game_key_starts_a_game_only_outside_one() {
    assert_eq!(
        transition_to_game_state(true, AppState::MainMenu),
        Some(AppState::Game)
    );
    assert_eq!(
        transition_to_game_state(true, AppState::GameOver),
        Some(AppState::Game)
    );
    assert_eq!(transition_to_game_state(true, AppState::Game), None);
    assert_eq!(transition_to_game_state(false, AppState::MainMenu), None);
}

#[test]
fn menu_key_opens_the_menu_only_outside_it() {
    assert_eq!(
        transition_to_main_menu_state(true, AppState::Game),
        Some(AppState::MainMenu)
    );
    assert_eq!(
        transition_to_main_menu_state(true, AppState::GameOver),
        Some(AppState::MainMenu)
    );
    assert_eq!(transition_to_main_menu_state(true, AppState::MainMenu), None);
    assert_eq!(transition_to_main_menu_state(false, AppState::Game), None);
}

#[test]
fn exit_follows_the_exit_key() {
    let mut keys = no_keys();
    assert!(!exit_game(&keys));
    keys.exit = true;
    assert!(exit_game(&keys));
}

#[test]
fn toggle_in_main_menu_changes_nothing() {
    let mut session = Session::new();
    let mut keys = no_keys();
    keys.toggle_simulation = true;
    let quit = session.handle_keys(&keys);
    assert!(!quit);
    assert_eq!(session.app_state, AppState::MainMenu);
    assert_eq!(session.simulation_state, SimulationState::Paused);
}

#[test]
fn toggle_in_game_over_changes_nothing() {
    let mut session = Session {
        app_state: AppState::GameOver,
        simulation_state: SimulationState::Running,
    };
    let mut keys = no_keys();
    keys.toggle_simulation = true;
    session.handle_keys(&keys);
    assert_eq!(session.app_state, AppState::GameOver);
    assert_eq!(session.simulation_state, SimulationState::Running);
}

#[test]
fn toggle_in_game_flips_and_flips_back() {
    let mut session = Session {
        app_state: AppState::Game,
        simulation_state: SimulationState::Paused,
    };
    let mut keys = no_keys();
    keys.toggle_simulation = true;
    session.handle_keys(&keys);
    assert_eq!(session.simulation_state, SimulationState::Running);
    session.handle_keys(&keys);
    assert_eq!(session.simulation_state, SimulationState::Paused);
    assert_eq!(session.app_state, AppState::Game);
}

#[test]
fn toggle_pressed_with_the_game_key_waits_for_the_game() {
    let mut session = Session::new();
    let mut keys = no_keys();
    keys.toggle_simulation = true;
    keys.enter_game = true;
    session.handle_keys(&keys);
    assert_eq!(session.app_state, AppState::Game);
    assert_eq!(session.simulation_state, SimulationState::Paused);
}

#[test]
fn menu_wins_over_game_where_both_apply() {
    let mut keys = no_keys();
    keys.enter_game = true;
    keys.enter_menu = true;
    let mut from_game_over = Session {
        app_state: AppState::GameOver,
        simulation_state: SimulationState::Paused,
    };
    from_game_over.handle_keys(&keys);
    assert_eq!(from_game_over.app_state, AppState::MainMenu);
    let mut from_menu = Session::new();
    from_menu.handle_keys(&keys);
    assert_eq!(from_menu.app_state, AppState::Game);
    let mut from_game = Session {
        app_state: AppState::Game,
        simulation_state: SimulationState::Running,
    };
    from_game.handle_keys(&keys);
    assert_eq!(from_game.app_state, AppState::MainMenu);
}

#[test]
fn no_keys_lead_into_game_over() {
    for enter_game in [false, true] {
        for enter_menu in [false, true] {
            for toggle in [false, true] {
                for start in [AppState::MainMenu, AppState::Game] {
                    let mut session = Session {
                        app_state: start,
                        simulation_state: SimulationState::Paused,
                    };
                    session.handle_keys(&KeyPresses {
                        enter_game,
                        enter_menu,
                        toggle_simulation: toggle,
                        exit: false,
                    });
                    assert_ne!(session.app_state, AppState::GameOver);
                }
            }
        }
    }
}

#[test]
fn handle_keys_reports_the_exit_key() {
    let mut session = Session::new();
    let mut keys = no_keys();
    keys.exit = true;
    assert!(session.handle_keys(&keys));
    assert_eq!(session, Session::new());
}
