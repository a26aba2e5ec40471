//! The application: what it does with git's reports and the user's keys.
use vstd::prelude::*;
use crate::input_config::{default_bindings, first_match, InputAction, InputConfig, KeyEvent, KeyEventKind};
use crate::git::Status;
use crate::state::{Loadable, State};
use crate::text::{decimal, decimal_text};
use crate::ui::common::{widgets_view, Area, Widget};
use crate::ui::{default_ui, law_screen_actions, ui_after_action, ui_drawn_within, Tab, Ui, UiView};
use crate::worker::{GitEvent, GitOperation};

verus! {

/// The application state, the screen, the key bindings, and whether the
/// user asked to quit.
#[derive(Debug)]
pub struct App {
    pub state: State,
    pub ui: Ui,
    pub input_config: InputConfig,
    pub quit: bool,
}

/// The screen after the application handles an action: quitting leaves it
/// as it is; another action goes to the screen, and an action the screen
/// does not handle shows "invalid action".
pub open spec fn ui_after_app_action(u: UiView, action: InputAction) -> UiView {
    if action == InputAction::Quit {
        u
    } else {
        let (after, handled) = ui_after_action(u, action);
        if handled {
            after
        } else {
            UiView { message: Some("invalid action"@), ..after }
        }
    }
}

impl App {
    /// A fresh application: nothing loaded, the default screen and bindings.
    pub fn init() -> (r: App)
        ensures
            r.state.status is NotRequested,
            r.ui@ == default_ui(),
            r.input_config@ == default_bindings(),
            !r.quit,
    {
        App { state: State::default(), ui: Ui::default(), input_config: InputConfig::default(), quit: false }
    }

    /// Takes in a report of a background git operation: a loaded status
    /// becomes the state's status, with a message that counts the changed
    /// files; a failure becomes the state's status, with a message that
    /// gives the error.
    pub fn handle_git_event(&mut self, event: GitEvent)
        ensures
            final(self).input_config == old(self).input_config,
            final(self).quit == old(self).quit,
            match event {
                GitEvent::Status(s) => {
                    &&& final(self).state.status == Loadable::Loaded(s)
                    &&& final(self).ui@ == (UiView {
                        message: Some(decimal(s@.len()) + " changed"@),
                        ..old(self).ui@
                    })
                },
                GitEvent::Failed { operation, error } => {
                    &&& final(self).state.status == Loadable::<Status>::Failed(error)
                    &&& final(self).ui@ == (UiView { message: Some("git error: "@ + error@), ..old(self).ui@ })
                },
            },
    {
        match event {
            GitEvent::Status(status) => {
                let mut message = decimal_text(status.files_changed.len());
                message.append(" changed");
                self.ui.set_message(message);
                self.state.status = Loadable::Loaded(status);
            },
            GitEvent::Failed { operation, error } => {
                let message = String::from_str("git error: ").concat(error.as_str());
                self.ui.set_message(message);
                match operation {
                    GitOperation::Status => self.state.status = Loadable::Failed(error),
                }
            },
        }
    }

    /// Carries out an action: quit, or pass it to the screen.
    pub fn handle_action(&mut self, action: InputAction)
        ensures
            final(self).quit == (old(self).quit || action == InputAction::Quit),
            final(self).ui@ == ui_after_app_action(old(self).ui@, action),
            final(self).state == old(self).state,
            final(self).input_config == old(self).input_config,
    {
        match action {
            InputAction::Quit => self.quit = true,
            _ => {
                if !self.ui.handle_action(action) {
                    self.ui.set_message(String::from_str("invalid action"));
                }
            },
        }
    }

    /// Takes in a key event: only presses count; a press bound to an
    /// action carries it out, another shows "unmapped key".
    pub fn handle_key(&mut self, event: KeyEvent)
        ensures
            final(self).state == old(self).state,
            final(self).input_config == old(self).input_config,
            event.kind != KeyEventKind::Press ==> final(self).ui@ == old(self).ui@ && final(self).quit == old(self).quit,
            event.kind == KeyEventKind::Press ==> match first_match(old(self).input_config@, event) {
                Some(action) => {
                    &&& final(self).quit == (old(self).quit || action == InputAction::Quit)
                    &&& final(self).ui@ == ui_after_app_action(old(self).ui@, action)
                },
                None => {
                    &&& final(self).quit == old(self).quit
                    &&& final(self).ui@ == (UiView { message: Some("unmapped key"@), ..old(self).ui@ })
                },
            },
    {
        if event.kind != KeyEventKind::Press {
            return;
        }
        match self.input_config.action_for(event) {
            Some(action) => self.handle_action(action),
            None => self.ui.set_message(String::from_str("unmapped key")),
        }
    }

    /// Gives the widgets that draw the screen in `area`.
    pub fn draw(&mut self, area: Area) -> (r: Vec<Widget>)
        ensures
            ui_drawn_within(old(self).ui@, final(self).ui@, widgets_view(r@), area, old(self).state),
            final(self).state == old(self).state,
            final(self).input_config == old(self).input_config,
            final(self).quit == old(self).quit,
    {
        self.ui.draw(area, &self.state)
    }
}

// ---------------------------------------------------------------------------
// Laws of carrying out actions
// ---------------------------------------------------------------------------

/// Quitting leaves the screen as it is. Any other action is passed, as it
/// is, to the screen: where the screen handles it, the result is the
/// screen's own; where not, the screen is left as it is apart from the
/// message "invalid action". So left, right, select and back change no
/// selection and show "invalid action", while on the changes tab down moves
/// the selection one line down and up one line up, with the message kept.
pub proof fn law_actions_reach_the_screen(u: UiView, action: InputAction)
    ensures
        action == InputAction::Quit ==> ui_after_app_action(u, action) == u,
        action != InputAction::Quit && ui_after_action(u, action).1 ==> ui_after_app_action(u, action)
            == ui_after_action(u, action).0,
        action != InputAction::Quit && !ui_after_action(u, action).1 ==> ui_after_app_action(u, action) == (
        UiView { message: Some("invalid action"@), ..u }),
        action != InputAction::Quit && action != InputAction::Up && action != InputAction::Down
            ==> ui_after_app_action(u, action) == (UiView { message: Some("invalid action"@), ..u }),
        ({
            let sel = u.changes.list.selected;
            let after = ui_after_app_action(u, action);
            u.tab == Tab::Changes && action == InputAction::Down && (sel matches Some(i) && i < usize::MAX) ==> {
                &&& after.changes.list.selected == Some((sel->0 + 1) as usize)
                &&& after.message == u.message
                &&& after.tab == u.tab
            }
        }),
        ({
            let sel = u.changes.list.selected;
            let after = ui_after_app_action(u, action);
            u.tab == Tab::Changes && action == InputAction::Up && (sel matches Some(i) && i > 0) ==> {
                &&& after.changes.list.selected == Some((sel->0 - 1) as usize)
                &&& after.message == u.message
                &&& after.tab == u.tab
            }
        }),
{
    law_screen_actions(u, action);
}

} // verus!
