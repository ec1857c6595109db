//! The menu and game-over state machine: what each button press decides.
//! The widgets themselves (layout, colors, the slider's cursor math) are
//! engine-side; this module holds the states, the button actions and the
//! transitions they cause, together with the effects the shell must carry
//! out (exiting the program, persisting a reset record, requesting a
//! restart).

use vstd::prelude::*;

use crate::gameplay::{GameWorld, ScoreRecord};

verus! {

/// The top-level screens of the program.
#[derive(Clone, Copy, PartialEq, Eq, Hash, Debug, Structural)]
pub enum GameState {
    MainMenu,
    InGame,
}

impl Default for GameState {
    /// The program opens on the main menu.
    fn default() -> (r: Self)
        ensures
            r == GameState::MainMenu,
    {
        GameState::MainMenu
    }
}

/// Which menu screen is showing, if any.
#[derive(Clone, Copy, PartialEq, Eq, Hash, Debug, Structural)]
pub enum MenuState {
    MainMenu,
    Settings,
    Disabled,
}

impl Default for MenuState {
    /// Menus start hidden until the main menu is entered.
    fn default() -> (r: Self)
        ensures
            r == MenuState::Disabled,
    {
        MenuState::Disabled
    }
}

/// The actions behind the main menu's buttons.
#[derive(Clone, Copy, PartialEq, Eq, Debug, Structural)]
pub enum MenuButtonAction {
    Play,
    Settings,
    Reset,
    ExitToMainMenu,
    Exit,
}

/// The actions behind the game-over panel's buttons.
#[derive(Clone, Copy, PartialEq, Eq, Debug, Structural)]
pub enum GameOverPanelButtonAction {
    Restart,
    ExitToMenu,
}

/// The filled part of a slider widget (a marker the shell attaches to the
/// bar node).
#[derive(Clone, Copy, PartialEq, Eq, Debug, Default, Structural)]
pub struct SliderBar;

/// What the shell must do after a menu button press: stop the program, or
/// persist a record value.
#[derive(Clone, Copy, PartialEq, Eq, Debug)]
pub struct MenuEffects {
    pub exit_app: bool,
    pub record_to_save: Option<i32>,
}

/// Entering the top-level main menu shows the main menu screen.
pub fn setup_menu(menu_state: &mut MenuState)
    ensures
        *final(menu_state) == MenuState::MainMenu,
{
    *menu_state = MenuState::MainMenu;
}

/// One pressed main-menu button: Play hides the menus and starts a game;
/// Settings and ExitToMainMenu switch menu screens; Reset clears the record
/// and asks the shell to persist the cleared value; Exit asks the shell to
/// stop the program. Nothing else changes.
pub fn menu_button_action(
    action: &MenuButtonAction,
    game_state: &mut GameState,
    menu_state: &mut MenuState,
    record: &mut ScoreRecord,
) -> (effects: MenuEffects)
    ensures
        *final(game_state) == if action == MenuButtonAction::Play {
            GameState::InGame
        } else {
            *old(game_state)
        },
        *final(menu_state) == match action {
            MenuButtonAction::Play => MenuState::Disabled,
            MenuButtonAction::Settings => MenuState::Settings,
            MenuButtonAction::ExitToMainMenu => MenuState::MainMenu,
            _ => *old(menu_state),
        },
        *final(record) == if action == MenuButtonAction::Reset {
            ScoreRecord(0)
        } else {
            *old(record)
        },
        effects.exit_app == (action == MenuButtonAction::Exit),
        effects.record_to_save == if action == MenuButtonAction::Reset {
            Some(0i32)
        } else {
            Option::<i32>::None
        },
{
    match action {
        MenuButtonAction::Exit => MenuEffects { exit_app: true, record_to_save: None },
        MenuButtonAction::Play => {
            *menu_state = MenuState::Disabled;
            *game_state = GameState::InGame;
            MenuEffects { exit_app: false, record_to_save: None }
        },
        MenuButtonAction::Settings => {
            *menu_state = MenuState::Settings;
            MenuEffects { exit_app: false, record_to_save: None }
        },
        MenuButtonAction::Reset => {
            *record = ScoreRecord(0);
            MenuEffects { exit_app: false, record_to_save: Some(0) }
        },
        MenuButtonAction::ExitToMainMenu => {
            *menu_state = MenuState::MainMenu;
            MenuEffects { exit_app: false, record_to_save: None }
        },
    }
}

/// One pressed game-over-panel button: Restart queues a restart request for
/// the restart system; ExitToMenu leaves for the main menu. Nothing else
/// changes.
pub fn game_over_panel_action(
    action: &GameOverPanelButtonAction,
    world: &mut GameWorld,
    game_state: &mut GameState,
)
    requires
        old(world).restart_events < u64::MAX,
    ensures
        *final(world) == if action == GameOverPanelButtonAction::Restart {
            GameWorld { restart_events: (old(world).restart_events + 1) as u64, ..*old(world) }
        } else {
            *old(world)
        },
        *final(game_state) == if action == GameOverPanelButtonAction::ExitToMenu {
            GameState::MainMenu
        } else {
            *old(game_state)
        },
{
    match action {
        GameOverPanelButtonAction::Restart => {
            world.restart_events = world.restart_events + 1;
        },
        GameOverPanelButtonAction::ExitToMenu => {
            *game_state = GameState::MainMenu;
        },
    }
}

} // verus!
