//! What happens to the windows themselves.

use crate::state::{ConnectionModel, ConnectionState, WindowKind};
use crate::text;
use crate::viewer;
use crate::viewer::action;
use crate::viewer::action::{Action, ActionModel};
use crate::viewer::{ArdViewer, SessionViewModel, Step, ViewerModel, WindowState, WindowsModel};
use vstd::prelude::*;

verus! {

broadcast use {
    vstd::std_specs::btree::group_btree_axioms,
    vstd::laws_cmp::group_laws_cmp,
};

/// The state without a session.
pub open spec fn disconnected(state: ViewerModel) -> ViewerModel {
    ViewerModel {
        session: SessionViewModel {
            running: false,
            pointer: None,
            connection: ConnectionModel::Idle,
            ..state.session
        },
        ..state
    }
}

/// What leaving a session asks for.
pub open spec fn disconnecting(state: ViewerModel) -> Seq<ActionModel> {
    if state.session.running {
        seq![ActionModel::StopSession, ActionModel::ClearInput]
    } else {
        seq![ActionModel::ClearInput]
    }
}

/// The state with other windows.
pub open spec fn with_windows(state: ViewerModel, windows: WindowsModel) -> ViewerModel {
    ViewerModel { windows, ..state }
}

/// The windows without one of them.
pub open spec fn window_gone(windows: WindowsModel, id: u64) -> WindowsModel {
    WindowsModel {
        open: windows.open.remove(id),
        maximized: windows.maximized.remove(id),
        pending_close: if windows.pending_close == Some(id) {
            None
        } else {
            windows.pending_close
        },
        ..windows
    }
}

/// A window opened.
pub open spec fn opened(state: ViewerModel, kind: WindowKind, id: u64) -> Step {
    Step {
        state: with_windows(
            state,
            WindowsModel { open: state.windows.open.insert(id, kind), ..state.windows },
        ),
        actions: if kind is Session {
            seq![ActionModel::DisableTitlebarDrag(id)]
        } else {
            Seq::empty()
        },
    }
}

/// A window is gone. A session ends with its window, and everything with the
/// connection window or the last one.
pub open spec fn closed(state: ViewerModel, id: u64) -> Step {
    let was = if state.windows.open.contains_key(id) {
        Some(state.windows.open[id])
    } else {
        None
    };
    let rest = with_windows(state, window_gone(state.windows, id));
    let ends_session = was == Some(WindowKind::Session);
    let (after, asked) = if ends_session {
        (disconnected(rest), disconnecting(rest))
    } else {
        (rest, Seq::empty())
    };
    if was == Some(WindowKind::Connection) || rest.windows.open.dom() =~= Set::empty() {
        Step {
            state: disconnected(after),
            actions: asked + disconnecting(after).push(ActionModel::Exit),
        }
    } else {
        Step { state: after, actions: asked }
    }
}

/// A window changed its size.
pub open spec fn resized(state: ViewerModel, id: u64) -> Step {
    Step {
        state,
        actions: if state.windows.open.contains_key(id) && state.windows.open[id] is Session {
            seq![ActionModel::FitSession(id), ActionModel::QueryMaximized(id)]
        } else {
            seq![ActionModel::QueryMaximized(id)]
        },
    }
}

/// A window was maximized or is not any more.
pub open spec fn maximized(windows: WindowsModel, id: u64, is_maximized: bool) -> WindowsModel {
    WindowsModel {
        maximized: if is_maximized {
            windows.maximized.insert(id)
        } else {
            windows.maximized.remove(id)
        },
        ..windows
    }
}

/// The question whether to close a window is asked.
pub open spec fn asking_to_close(state: ViewerModel, id: u64) -> Step {
    Step {
        state: with_windows(
            state,
            WindowsModel {
                pending_close: Some(id),
                close_modal_target_visible: true,
                close_modal_hidden: true,
                ..state.windows
            },
        ),
        actions: seq![ActionModel::RestartCloseModal, ActionModel::RevealAndFocus(id)],
    }
}

/// The system asks to close a window: the settings close at once, another window
/// after a question.
pub open spec fn close_requested(state: ViewerModel, id: u64) -> Step {
    if state.windows.open.contains_key(id) && state.windows.open[id] is Settings {
        viewer::asking(state, ActionModel::CloseWindow(id))
    } else if state.windows.open.contains_key(id) {
        asking_to_close(state, id)
    } else {
        viewer::quiet(state)
    }
}

/// The window's own button asks to close it.
pub open spec fn close_pressed(state: ViewerModel, id: u64) -> Step {
    if state.windows.open.contains_key(id) && state.windows.open[id] is Settings {
        viewer::asking(state, ActionModel::CloseWindow(id))
    } else {
        asking_to_close(state, id)
    }
}

/// The question is answered with no; it stays until nothing of it is visible.
pub open spec fn close_cancelled(windows: WindowsModel) -> WindowsModel {
    WindowsModel {
        close_modal_target_visible: false,
        pending_close: if windows.close_modal_hidden {
            None
        } else {
            windows.pending_close
        },
        ..windows
    }
}

/// The question is answered with yes.
pub open spec fn close_confirmed(state: ViewerModel) -> Step {
    match state.windows.pending_close {
        Some(id) => Step {
            state: with_windows(
                state,
                WindowsModel {
                    pending_close: None,
                    close_modal_target_visible: false,
                    close_modal_hidden: true,
                    ..state.windows
                },
            ),
            actions: seq![ActionModel::RestartCloseModal, ActionModel::CloseWindow(id)],
        },
        None => viewer::quiet(state),
    }
}

/// The animations went on.
pub open spec fn animated(windows: WindowsModel, hidden: bool) -> WindowsModel {
    WindowsModel {
        close_modal_hidden: hidden,
        pending_close: if !windows.close_modal_target_visible && hidden {
            None
        } else {
            windows.pending_close
        },
        ..windows
    }
}

/// The title bar asks to maximize a window or to undo that.
pub open spec fn maximize_toggled(state: ViewerModel, id: u64) -> Step {
    let is_maximized = !state.windows.maximized.contains(id);
    viewer::asking(
        with_windows(state, maximized(state.windows, id, is_maximized)),
        ActionModel::MaximizeWindow(id, is_maximized),
    )
}

/// The settings are asked for: there is one window of them, beside the connection
/// window.
pub open spec fn settings_opened(state: ViewerModel) -> Step {
    viewer::asking(
        state,
        match viewer::first_window(state.windows.open, WindowKind::Settings) {
            Some(id) => ActionModel::FocusWindow(id),
            None => match viewer::first_window(state.windows.open, WindowKind::Connection) {
                Some(id) => ActionModel::OpenSettingsNear(id),
                None => ActionModel::OpenWindow(WindowKind::Settings),
            },
        },
    )
}

/// The title of a window.
pub open spec fn title_of(state: ViewerModel, id: u64) -> Seq<char> {
    if !state.windows.open.contains_key(id) {
        "ARD Viewer"@
    } else {
        match state.windows.open[id] {
            WindowKind::Connection => "ARD Viewer — Connect"@,
            WindowKind::Settings => "ARD Viewer — Settings"@,
            WindowKind::Session => if state.session.server_name.len() > 0 {
                state.session.server_name + " — ARD Viewer"@
            } else {
                "ARD Viewer — Session"@
            },
        }
    }
}

impl WindowState {
    /// Forgets a window that is gone.
    fn forget(&mut self, id: u64) -> (was: Option<WindowKind>)
        ensures
            final(self)@ == window_gone(old(self)@, id),
            was == if old(self)@.open.contains_key(id) {
                Some(old(self)@.open[id])
            } else {
                None
            },
    {
        self.maximized.remove(&id);
        if let Some(pending) = self.pending_close {
            if pending == id {
                self.pending_close = None;
            }
        }
        self.open.remove(&id)
    }

    /// Takes note of whether a window is maximized.
    pub fn set_maximized(&mut self, id: u64, is_maximized: bool)
        ensures
            final(self)@ == maximized(old(self)@, id, is_maximized),
    {
        if is_maximized {
            self.maximized.insert(id);
        } else {
            self.maximized.remove(&id);
        }
    }

    /// Answers the question whether to close with no.
    pub fn cancel_close(&mut self)
        ensures
            final(self)@ == close_cancelled(old(self)@),
    {
        self.close_modal_target_visible = false;
        if self.close_modal_hidden {
            self.pending_close = None;
        }
    }

    /// Takes note of how much is to be seen of the question whether to close.
    pub fn animate(&mut self, hidden: bool)
        ensures
            final(self)@ == animated(old(self)@, hidden),
    {
        self.close_modal_hidden = hidden;
        if !self.close_modal_target_visible && hidden {
            self.pending_close = None;
        }
    }
}

impl ArdViewer {
    /// Leaves the session.
    pub fn disconnect_session(&mut self) -> (actions: Vec<Action>)
        ensures
            final(self)@ == disconnected(old(self)@),
            action::all_actions(actions@) == disconnecting(old(self)@),
    {
        let mut actions = action::none();
        if self.session.running {
            action::push(&mut actions, Action::StopSession);
        }
        action::push(&mut actions, Action::ClearInput);
        assert(action::all_actions(actions@) =~= disconnecting(old(self)@));
        self.session.running = false;
        self.session.pointer = None;
        self.session.connection = ConnectionState::Idle;
        actions
    }

    pub(crate) fn window_opened(&mut self, kind: WindowKind, id: u64) -> (actions: Vec<Action>)
        ensures
            (Step { state: final(self)@, actions: action::all_actions(actions@) }) == opened(
                old(self)@,
                kind,
                id,
            ),
    {
        self.windows.open.insert(id, kind);
        if kind == WindowKind::Session {
            action::one(Action::DisableTitlebarDrag(id))
        } else {
            action::none()
        }
    }

    pub(crate) fn window_closed(&mut self, id: u64) -> (actions: Vec<Action>)
        ensures
            (Step { state: final(self)@, actions: action::all_actions(actions@) }) == closed(
                old(self)@,
                id,
            ),
    {
        let ghost before = old(self)@;
        let was = self.windows.forget(id);
        let mut actions = action::none();
        if let Some(WindowKind::Session) = was {
            actions = self.disconnect_session();
        }
        let all = match was {
            Some(WindowKind::Connection) => true,
            _ => self.windows.open.is_empty(),
        };
        assert(self@.windows.open.is_empty() == (self@.windows.open.dom() =~= Set::<u64>::empty()));
        if all {
            let more = self.disconnect_session();
            action::extend(&mut actions, more);
            action::push(&mut actions, Action::Exit);
        }
        assert(action::all_actions(actions@) =~= closed(before, id).actions);
        actions
    }

    pub(crate) fn window_resized(&self, id: u64) -> (actions: Vec<Action>)
        ensures
            (Step { state: self@, actions: action::all_actions(actions@) }) == resized(self@, id),
    {
        let mut actions = action::none();
        if self.windows.has_kind(id, WindowKind::Session) {
            action::push(&mut actions, Action::FitSession(id));
        }
        action::push(&mut actions, Action::QueryMaximized(id));
        assert(action::all_actions(actions@) =~= resized(self@, id).actions);
        actions
    }

    fn ask_to_close(&mut self, id: u64) -> (actions: Vec<Action>)
        ensures
            (Step { state: final(self)@, actions: action::all_actions(actions@) })
                == asking_to_close(old(self)@, id),
    {
        self.windows.pending_close = Some(id);
        self.windows.close_modal_target_visible = true;
        self.windows.close_modal_hidden = true;
        let mut actions = action::one(Action::RestartCloseModal);
        action::push(&mut actions, Action::RevealAndFocus(id));
        assert(action::all_actions(actions@) =~= asking_to_close(old(self)@, id).actions);
        actions
    }

    pub(crate) fn close_request(&mut self, id: u64) -> (actions: Vec<Action>)
        ensures
            (Step { state: final(self)@, actions: action::all_actions(actions@) })
                == close_requested(old(self)@, id),
    {
        if self.windows.has_kind(id, WindowKind::Settings) {
            action::one(Action::CloseWindow(id))
        } else if self.windows.open.contains_key(&id) {
            self.ask_to_close(id)
        } else {
            action::none()
        }
    }

    pub(crate) fn close_press(&mut self, id: u64) -> (actions: Vec<Action>)
        ensures
            (Step { state: final(self)@, actions: action::all_actions(actions@) })
                == close_pressed(old(self)@, id),
    {
        if self.windows.has_kind(id, WindowKind::Settings) {
            action::one(Action::CloseWindow(id))
        } else {
            self.ask_to_close(id)
        }
    }

    pub(crate) fn close_confirm(&mut self) -> (actions: Vec<Action>)
        ensures
            (Step { state: final(self)@, actions: action::all_actions(actions@) })
                == close_confirmed(old(self)@),
    {
        match self.windows.pending_close.take() {
            Some(id) => {
                self.windows.close_modal_target_visible = false;
                self.windows.close_modal_hidden = true;
                let mut actions = action::one(Action::RestartCloseModal);
                action::push(&mut actions, Action::CloseWindow(id));
                assert(action::all_actions(actions@) =~= close_confirmed(old(self)@).actions);
                actions
            },
            None => action::none(),
        }
    }

    pub(crate) fn toggle_maximize(&mut self, id: u64) -> (actions: Vec<Action>)
        ensures
            (Step { state: final(self)@, actions: action::all_actions(actions@) })
                == maximize_toggled(old(self)@, id),
    {
        let is_maximized = !self.windows.maximized.contains(&id);
        self.windows.set_maximized(id, is_maximized);
        action::one(Action::MaximizeWindow(id, is_maximized))
    }

    pub(crate) fn open_settings(&self) -> (actions: Vec<Action>)
        ensures
            (Step { state: self@, actions: action::all_actions(actions@) }) == settings_opened(
                self@,
            ),
    {
        if let Some(id) = self.window_id(WindowKind::Settings) {
            return action::one(Action::FocusWindow(id));
        }
        match self.window_id(WindowKind::Connection) {
            Some(id) => action::one(Action::OpenSettingsNear(id)),
            None => action::one(Action::OpenWindow(WindowKind::Settings)),
        }
    }

    /// The title of a window.
    pub fn title(&self, id: u64) -> (title: String)
        ensures
            title@ == title_of(self@, id),
    {
        match self.windows.open.get(&id) {
            Some(WindowKind::Connection) => "ARD Viewer — Connect".to_owned(),
            Some(WindowKind::Settings) => "ARD Viewer — Settings".to_owned(),
            Some(WindowKind::Session) => if self.session.server_name.as_str().is_empty() {
                "ARD Viewer — Session".to_owned()
            } else {
                text::joined(self.session.server_name.as_str(), " — ARD Viewer")
            },
            None => "ARD Viewer".to_owned(),
        }
    }

    /// What is shown in a window, and whether the question whether to close it is.
    pub fn shown_in(&self, id: u64) -> (shown: Option<(WindowKind, bool)>)
        ensures
            shown == if self@.windows.open.contains_key(id) {
                Some((self@.windows.open[id], self@.windows.pending_close == Some(id)))
            } else {
                None
            },
    {
        let asking = match self.windows.pending_close {
            Some(pending) => pending == id,
            None => false,
        };
        match self.windows.open.get(&id) {
            Some(kind) => Some((*kind, asking)),
            None => None,
        }
    }
}

/// The question that is asked before a window is closed, and what it means.
pub open spec fn question_of(kind: WindowKind) -> (Seq<char>, Seq<char>) {
    match kind {
        WindowKind::Connection => (
            "退出 ARD Viewer？"@,
            "打开的设置和远程会话也会一并关闭。"@,
        ),
        WindowKind::Settings => ("关闭设置窗口？"@, "确认关闭当前设置窗口。"@),
        WindowKind::Session => ("关闭远程会话？"@, "当前远程连接将会断开。"@),
    }
}

/// The question that is asked before a window is closed, and what it means.
pub fn close_question(kind: WindowKind) -> (question: (&'static str, &'static str))
    ensures
        (question.0@, question.1@) == question_of(kind),
{
    match kind {
        WindowKind::Connection => (
            "退出 ARD Viewer？",
            "打开的设置和远程会话也会一并关闭。",
        ),
        WindowKind::Settings => ("关闭设置窗口？", "确认关闭当前设置窗口。"),
        WindowKind::Session => ("关闭远程会话？", "当前远程连接将会断开。"),
    }
}

/// A window other than the settings is never closed without a question: asking
/// for it only leads to the question, and only a yes closes it.
pub proof fn law_closing_needs_confirmation(state: ViewerModel, id: u64)
    requires
        state.windows.open.contains_key(id),
        !(state.windows.open[id] is Settings),
    ensures
        close_requested(state, id).state.windows.open == state.windows.open,
        close_requested(state, id).state.windows.pending_close == Some(id),
        !close_requested(state, id).actions.contains(ActionModel::CloseWindow(id)),
        close_cancelled(close_requested(state, id).state.windows).pending_close is None,
        close_confirmed(close_requested(state, id).state).actions.contains(
            ActionModel::CloseWindow(id),
        ),
{
    let confirmed = close_confirmed(close_requested(state, id).state).actions;
    assert(confirmed[1] == ActionModel::CloseWindow(id));
}

/// Closing the settings is not asked about.
pub proof fn law_settings_close_at_once(state: ViewerModel, id: u64)
    requires
        state.windows.open.contains_key(id),
        state.windows.open[id] is Settings,
    ensures
        close_requested(state, id) == viewer::asking(state, ActionModel::CloseWindow(id)),
{
}

/// No session outlives its window, nor the connection window.
pub proof fn law_sessions_end_with_their_window(state: ViewerModel, id: u64)
    requires
        state.windows.open.contains_key(id),
        state.windows.open[id] is Session || state.windows.open[id] is Connection,
    ensures
        !closed(state, id).state.session.running,
        closed(state, id).state.session.connection is Idle,
        state.session.running ==> closed(state, id).actions.contains(ActionModel::StopSession),
        state.windows.open[id] is Connection ==> closed(state, id).actions.contains(ActionModel::Exit),
{
    let actions = closed(state, id).actions;
    if state.session.running {
        assert(actions[0] == ActionModel::StopSession);
    }
    if state.windows.open[id] is Connection {
        assert(actions.last() == ActionModel::Exit);
    }
}

} // verus!
