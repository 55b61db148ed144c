//! What the three menu buttons do when the pointer meets them.

use vstd::prelude::*;
use crate::run_state::SimulationEvent;

verus! {

/// Which of the menu's buttons a button is.
#[derive(Clone, Copy, Debug, PartialEq, Eq, Structural)]
pub enum ButtonType {
    Start,
    Stop,
    Exit,
}

/// What the pointer does to a button.
#[derive(Clone, Copy, Debug, PartialEq, Eq, Structural)]
pub enum ButtonInteraction {
    Clicked,
    Hovered,
    Idle,
}

/// The three looks of a button.
#[derive(Clone, Copy, Debug, PartialEq, Eq, Structural)]
pub enum ButtonShade {
    Normal,
    Hovered,
    Pressed,
}

/// The event that a click on a button of this type sends.
pub open spec fn button_event(button: ButtonType) -> SimulationEvent {
    match button {
        ButtonType::Start => SimulationEvent::Start,
        ButtonType::Stop => SimulationEvent::Stop,
        ButtonType::Exit => SimulationEvent::Exit,
    }
}

/// How a button looks under an interaction.
pub open spec fn button_shade(interaction: ButtonInteraction) -> ButtonShade {
    match interaction {
        ButtonInteraction::Clicked => ButtonShade::Pressed,
        ButtonInteraction::Hovered => ButtonShade::Hovered,
        ButtonInteraction::Idle => ButtonShade::Normal,
    }
}

/// The look that a button takes under an interaction, and the event that it
/// sends: its own on a click, none otherwise.
pub fn button_system(interaction: ButtonInteraction, button: ButtonType) -> (r: (
    ButtonShade,
    Option<SimulationEvent>,
))
    ensures
        r.0 == button_shade(interaction),
        r.1 == (if interaction == ButtonInteraction::Clicked {
            Some(button_event(button))
        } else {
            None
        }),
{
    match interaction {
        ButtonInteraction::Clicked => {
            let event = match button {
                ButtonType::Start => SimulationEvent::Start,
                ButtonType::Stop => SimulationEvent::Stop,
                ButtonType::Exit => SimulationEvent::Exit,
            };
            (ButtonShade::Pressed, Some(event))
        },
        ButtonInteraction::Hovered => (ButtonShade::Hovered, None),
        ButtonInteraction::Idle => (ButtonShade::Normal, None),
    }
}

} // verus!
