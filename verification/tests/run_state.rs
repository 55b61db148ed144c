use game_of_life::menu::{button_system, ButtonInteraction, ButtonShade, ButtonType};
use game_of_life::run_state::{
    exit_game, set_simulation, unset_simulation, GameExitEvent, RunState, SimulationEvent,
    SimulationStartEvent, SimulationStopEvent,
};

#[test]
fn starts_stopped() {
    assert!(!RunState::new().is_running());
    assert_eq!(RunState::new(), RunState { running: false });
}

#[test]
fn stop_twice_leaves_it_stopped() {
    let mut run = RunState::new();
    run.start();
    run.stop();
    assert!(!run.is_running());
    run.stop();
    assert!(!run.is_running());
}

#[test]
fn start_twice_leaves_it_running() {
    let mut run = RunState::new();
    run.start();
    assert!(run.is_running());
    run.start();
    assert!(run.is_running());
}

#[test]
fn handle_follows_the_events() {
    let mut run = RunState::new();
    assert!(!run.handle(SimulationEvent::Start));
    assert!(run.is_running());
    assert!(run.handle(SimulationEvent::Exit));
    assert!(run.is_running());
    assert!(!run.handle(SimulationEvent::Stop));
    assert!(!run.is_running());
    assert!(run.handle(SimulationEvent::Exit));
    assert!(!run.is_running());
}

#[test]
fn start_request_sets_the_simulation() {
    let mut run = RunState::new();
    set_simulation(None, &mut run);
    assert!(!run.is_running());
    set_simulation(Some(SimulationStartEvent), &mut run);
    assert!(run.is_running());
    set_simulation(None, &mut run);
    assert!(run.is_running());
}

#[test]
fn stop_request_unsets_the_simulation() {
    let mut run = RunState { running: true };
    unset_simulation(None, &mut run);
    assert!(run.is_running());
    unset_simulation(Some(SimulationStopEvent), &mut run);
    assert!(!run.is_running());
    unset_simulation(Some(SimulationStopEvent), &mut run);
    assert!(!run.is_running());
}

#[test]
fn exit_request_ends_the_game() {
    assert!(exit_game(Some(GameExitEvent)));
    assert!(!exit_game(None));
}

#[test]
fn click_sends_the_buttons_event() {
    assert_eq!(
        button_system(ButtonInteraction::Clicked, ButtonType::Start),
        (ButtonShade::Pressed, Some(SimulationEvent::Start))
    );
    assert_eq!(
        button_system(ButtonInteraction::Clicked, ButtonType::Stop),
        (ButtonShade::Pressed, Some(SimulationEvent::Stop))
    );
    assert_eq!(
        button_system(ButtonInteraction::Clicked, ButtonType::Exit),
        (ButtonShade::Pressed, Some(SimulationEvent::Exit))
    );
}

#[test]
fn hover_and_idle_send_nothing() {
    for button in [ButtonType::Start, ButtonType::Stop, ButtonType::Exit] {
        assert_eq!(
            button_system(ButtonInteraction::Hovered, button),
            (ButtonShade::Hovered, None)
        );
        assert_eq!(button_system(ButtonInteraction::Idle, button), (ButtonShade::Normal, None));
    }
}
