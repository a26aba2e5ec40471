//! A standalone application shell over the repository state of
//! `repo_state`: its key handling and quitting.
use vstd::prelude::*;
use crate::app::ui_after_app_action;
use crate::input_config::{default_bindings, first_match, InputAction, InputConfig, KeyEvent, KeyEventKind};
use crate::repo_state::RepoState;
use crate::ui::{default_ui, Ui, UiView};

verus! {

/// The repository state, the screen, the key bindings, and whether the
/// user asked to quit.
#[derive(Debug)]
pub struct Gitui {
    pub repo_state: RepoState,
    pub ui: Ui,
    pub input_config: InputConfig,
    pub quit: bool,
}

impl Default for Gitui {
    fn default() -> (r: Self)
        ensures
            r.repo_state.file_changes@.len() == 0,
            r.ui@ == default_ui(),
            r.input_config@ == default_bindings(),
            !r.quit,
    {
        Gitui {
            repo_state: RepoState::default(),
            ui: Ui::default(),
            input_config: InputConfig::default(),
            quit: false,
        }
    }
}

impl Gitui {
    /// A fresh application: no changes, the default screen and bindings.
    pub fn init() -> (r: Gitui)
        ensures
            r.repo_state.file_changes@.len() == 0,
            r.ui@ == default_ui(),
            r.input_config@ == default_bindings(),
            !r.quit,
    {
        Gitui::default()
    }

    /// Carries out an action: quit, or pass it to the screen.
    pub fn handle_action(&mut self, action: InputAction)
        ensures
            final(self).quit == (old(self).quit || action == InputAction::Quit),
            final(self).ui@ == ui_after_app_action(old(self).ui@, action),
            final(self).repo_state == old(self).repo_state,
            final(self).input_config == old(self).input_config,
    {
        match action {
            InputAction::Quit => self.quit = true,
            _ => {
                if !self.ui.handle_action(action) {
                    self.ui.set_message(String::from_str("invalid action"));
                }
            },
        }
    }

    /// Takes in a key event: only presses count; a press bound to an
    /// action carries it out, another shows "unmapped key".
    pub fn handle_key(&mut self, event: KeyEvent)
        ensures
            final(self).repo_state == old(self).repo_state,
            final(self).input_config == old(self).input_config,
            event.kind != KeyEventKind::Press ==> final(self).ui@ == old(self).ui@ && final(self).quit == old(self).quit,
            event.kind == KeyEventKind::Press ==> match first_match(old(self).input_config@, event) {
                Some(action) => {
                    &&& final(self).quit == (old(self).quit || action == InputAction::Quit)
                    &&& final(self).ui@ == ui_after_app_action(old(self).ui@, action)
                },
                None => {
                    &&& final(self).quit == old(self).quit
                    &&& final(self).ui@ == (UiView { message: Some("unmapped key"@), ..old(self).ui@ })
                },
            },
    {
        if event.kind != KeyEventKind::Press {
            return;
        }
        match self.input_config.action_for(event) {
            Some(action) => self.handle_action(action),
            None => self.ui.set_message(String::from_str("unmapped key")),
        }
    }
}

} // verus!
