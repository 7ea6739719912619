//! What happens in the session window.

use crate::clock::{Duration, Instant};
use crate::recording::take;
use crate::state::{ConnectionModel, ConnectionState, WindowKind};
use crate::text;
use crate::viewer;
use crate::viewer::action;
use crate::viewer::action::{Action, ActionModel, InputKind};
use crate::viewer::message::{RawEvent, SessionAction, SessionEvent};
use crate::viewer::settings;
use crate::viewer::{
    ArdViewer, PreferencesModel, SessionView, SessionViewModel, Step, Toolbar, ToolbarModel,
    ViewerModel,
};
use vstd::prelude::*;

verus! {

/// How long an unused toolbar stays, in milliseconds.
pub const TOOLBAR_TIMEOUT_MILLIS: u64 = 4_000;

/// The state with another session.
pub open spec fn with_session(state: ViewerModel, session: SessionViewModel) -> ViewerModel {
    ViewerModel { session, ..state }
}

/// The state with another toolbar.
pub open spec fn with_toolbar(state: ViewerModel, toolbar: ToolbarModel) -> ViewerModel {
    with_session(state, SessionViewModel { toolbar, ..state.session })
}

/// The state with another zoom.
pub open spec fn zoomed(state: ViewerModel, zoom: u32) -> ViewerModel {
    with_session(state, SessionViewModel { zoom, ..state.session })
}

/// The session window fills the screen or does not any more.
pub open spec fn fullscreen_toggled(state: ViewerModel, now: nat) -> Step {
    let touched = viewer::toolbar_touched(state, now);
    let fullscreen = !state.session.fullscreen;
    let after = with_session(touched, SessionViewModel { fullscreen, ..touched.session });
    match viewer::first_window(state.windows.open, WindowKind::Session) {
        Some(id) => viewer::asking(after, ActionModel::SetFullscreen(id, fullscreen)),
        None => viewer::quiet(after),
    }
}

/// The next zoom: up to 1.4 in steps of a tenth, and then 0.6.
pub open spec fn next_zoom(zoom: u32) -> u32 {
    if zoom >= 14 {
        6
    } else {
        (zoom + 1) as u32
    }
}

/// The system's shortcuts go to the other side from now on.
pub open spec fn shortcuts_toggled(state: ViewerModel) -> Step {
    let capture = !state.preferences.capture_system_shortcuts;
    let after = settings::with_preferences(
        state,
        PreferencesModel { capture_system_shortcuts: capture, ..state.preferences },
    );
    viewer::asking(
        viewer::saying(
            after,
            if capture {
                "系统快捷键将发送到远端"@
            } else {
                "系统快捷键保留在本机"@
            },
        ),
        viewer::saving(after, false),
    )
}

/// A button of the toolbar was pressed.
pub open spec fn button_pressed(state: ViewerModel, button: SessionAction, now: nat) -> Step {
    let touched = viewer::toolbar_touched(state, now);
    match button {
        SessionAction::Fit => viewer::quiet(zoomed(touched, 10)),
        SessionAction::Undo => viewer::quiet(zoomed(touched, 10)),
        SessionAction::Zoom => viewer::quiet(zoomed(touched, next_zoom(state.session.zoom))),
        SessionAction::Input => {
            let after = viewer::saying(touched, "远程键鼠输入已启用"@);
            match viewer::first_window(state.windows.open, WindowKind::Session) {
                Some(id) => Step {
                    state: after,
                    actions: seq![ActionModel::FocusWindow(id), ActionModel::FocusIme],
                },
                None => viewer::quiet(after),
            }
        },
        SessionAction::Clipboard => viewer::asking(touched, ActionModel::ReadClipboard),
        SessionAction::SystemShortcut => shortcuts_toggled(touched),
    }
}

/// Time passed: an unused toolbar goes away, unless it is pinned or being moved.
pub open spec fn toolbar_aged(toolbar: ToolbarModel, now: nat) -> ToolbarModel {
    ToolbarModel {
        visible: toolbar.visible && (toolbar.pinned || toolbar.dragging || take::since(
            toolbar.last_interaction,
            now,
        ) < TOOLBAR_TIMEOUT_MILLIS * 1_000_000),
        ..toolbar
    }
}

/// The pointer moved over the toolbar.
pub open spec fn toolbar_pointed(state: ViewerModel, now: nat) -> Step {
    if state.session.toolbar.dragging {
        viewer::asking(viewer::toolbar_touched(state, now), ActionModel::DragToolbar)
    } else {
        viewer::quiet(state)
    }
}

/// The toolbar is moved from now on.
pub open spec fn toolbar_grabbed(state: ViewerModel, now: nat) -> Step {
    viewer::asking(
        with_toolbar(
            state,
            ToolbarModel { dragging: true, ..viewer::touched(state.session.toolbar, now) },
        ),
        ActionModel::StartToolbarDrag,
    )
}

/// The toolbar is not moved any more.
pub open spec fn toolbar_released(toolbar: ToolbarModel, now: nat) -> ToolbarModel {
    if toolbar.dragging {
        ToolbarModel { dragging: false, ..viewer::touched(toolbar, now) }
    } else {
        toolbar
    }
}

/// The toolbar is hidden.
pub open spec fn toolbar_hidden(toolbar: ToolbarModel) -> ToolbarModel {
    ToolbarModel { visible: false, dragging: false, ..toolbar }
}

/// The toolbar is pinned or not any more.
pub open spec fn toolbar_pin_toggled(toolbar: ToolbarModel, now: nat) -> ToolbarModel {
    ToolbarModel { pinned: !toolbar.pinned, ..viewer::touched(toolbar, now) }
}

/// Whether input is of no use in a connection.
pub open spec fn is_lost(connection: ConnectionModel) -> bool {
    connection is Disconnected || connection is Reconnecting || connection is Failed
}

/// The session told something.
pub open spec fn session_told(state: ViewerModel, event: SessionEvent) -> Step {
    match event {
        SessionEvent::State { state: connection, label } => Step {
            state: viewer::saying(
                with_session(
                    state,
                    SessionViewModel { connection: connection@, ..state.session },
                ),
                label@,
            ),
            actions: if is_lost(connection@) {
                seq![ActionModel::ClearInput]
            } else {
                Seq::empty()
            },
        },
        SessionEvent::Connected { server_name } => viewer::asking(
            with_session(
                state,
                SessionViewModel { server_name: server_name@, error: None, ..state.session },
            ),
            ActionModel::AttachInput,
        ),
        SessionEvent::Clipboard(text) => viewer::asking(
            state,
            ActionModel::ApplyRemoteClipboard(text@),
        ),
        SessionEvent::RenderFailed(error) => viewer::quiet(
            failed(state, "渲染失败："@, error@),
        ),
        SessionEvent::RenderRecovered => viewer::quiet(
            with_session(state, SessionViewModel { error: None, ..state.session }),
        ),
    }
}

/// The session shows an error.
pub open spec fn failed(state: ViewerModel, what: Seq<char>, error: Seq<char>) -> ViewerModel {
    with_session(state, SessionViewModel { error: Some(what + error), ..state.session })
}

/// The input that an event is for the session, if it is one. What a widget took
/// is none, except for the pointer and the keys.
pub open spec fn input_of(event: RawEvent, ignored: bool) -> Option<InputKind> {
    match event {
        RawEvent::CursorMoved(position) => Some(InputKind::CursorMoved(position)),
        RawEvent::CursorLeft => Some(InputKind::CursorMoved(None)),
        RawEvent::ButtonPressed => if ignored {
            Some(InputKind::ButtonPressed)
        } else {
            None
        },
        RawEvent::ButtonReleased => if ignored {
            Some(InputKind::ButtonReleased)
        } else {
            None
        },
        RawEvent::WheelScrolled => if ignored {
            Some(InputKind::Wheel)
        } else {
            None
        },
        RawEvent::ModifiersChanged => Some(InputKind::ModifiersChanged),
        RawEvent::KeyPressed { paste } => if paste {
            None
        } else {
            Some(InputKind::KeyPressed)
        },
        RawEvent::KeyReleased => Some(InputKind::KeyReleased),
        RawEvent::ImeOpened => Some(InputKind::ImeOpened),
        RawEvent::ImePreedit => Some(InputKind::ImePreedit),
        RawEvent::ImeCommit => Some(InputKind::ImeCommit),
        RawEvent::ImeClosed => Some(InputKind::ImeClosed),
        RawEvent::Unfocused => Some(InputKind::FocusLost),
        RawEvent::Other => None,
    }
}

/// Where the pointer is after an event.
pub open spec fn pointer_after(event: RawEvent, pointer: Option<(u16, u16)>) -> Option<(u16, u16)> {
    match event {
        RawEvent::CursorMoved(position) => position,
        RawEvent::CursorLeft => None,
        _ => pointer,
    }
}

/// An event came from a window. It counts in the window of a running session;
/// the paste shortcut reads the clipboard in place of being sent.
pub open spec fn event_came(state: ViewerModel, id: u64, event: RawEvent, ignored: bool) -> Step {
    if viewer::first_window(state.windows.open, WindowKind::Session) != Some(id)
        || !state.session.running {
        viewer::quiet(state)
    } else {
        Step {
            state: with_session(
                state,
                SessionViewModel {
                    pointer: pointer_after(event, state.session.pointer),
                    ..state.session
                },
            ),
            actions: match input_of(event, ignored) {
                Some(input) => seq![
                    ActionModel::ForwardInput {
                        input,
                        capture_shortcuts: state.preferences.capture_system_shortcuts,
                    },
                ],
                None => if event == (RawEvent::KeyPressed { paste: true }) {
                    seq![ActionModel::SuppressPaste, ActionModel::ReadClipboard]
                } else {
                    Seq::empty()
                },
            },
        }
    }
}

/// The input method's field changed: its end is kept.
pub open spec fn ime_changed(state: ViewerModel, value: Seq<char>) -> ViewerModel {
    with_session(
        state,
        SessionViewModel { ime_sink: text::last_chars(value, 8), ..state.session },
    )
}

impl Toolbar {
    fn touch(&mut self, now: Instant)
        ensures
            final(self)@ == viewer::touched(old(self)@, now@),
    {
        self.visible = true;
        self.last_interaction = now;
    }

    /// Lets time pass.
    pub fn age(&mut self, now: Instant)
        ensures
            final(self)@ == toolbar_aged(old(self)@, now@),
    {
        let idle = now.saturating_duration_since(self.last_interaction);
        if self.visible && !self.pinned && !self.dragging && !idle.is_shorter_than(
            Duration::from_millis(TOOLBAR_TIMEOUT_MILLIS),
        ) {
            self.visible = false;
        }
    }

    /// Lets go of the toolbar.
    pub fn release(&mut self, now: Instant)
        ensures
            final(self)@ == toolbar_released(old(self)@, now@),
    {
        if self.dragging {
            self.dragging = false;
            self.touch(now);
        }
    }

    /// Hides the toolbar.
    pub fn collapse(&mut self)
        ensures
            final(self)@ == toolbar_hidden(old(self)@),
    {
        self.visible = false;
        self.dragging = false;
    }

    /// Pins the toolbar, or undoes that.
    pub fn toggle_pin(&mut self, now: Instant)
        ensures
            final(self)@ == toolbar_pin_toggled(old(self)@, now@),
    {
        self.pinned = !self.pinned;
        self.touch(now);
    }
}

fn forwarded(event: RawEvent, ignored: bool) -> (input: Option<InputKind>)
    ensures
        input == input_of(event, ignored),
{
    match event {
        RawEvent::CursorMoved(position) => Some(InputKind::CursorMoved(position)),
        RawEvent::CursorLeft => Some(InputKind::CursorMoved(None)),
        RawEvent::ButtonPressed => if ignored {
            Some(InputKind::ButtonPressed)
        } else {
            None
        },
        RawEvent::ButtonReleased => if ignored {
            Some(InputKind::ButtonReleased)
        } else {
            None
        },
        RawEvent::WheelScrolled => if ignored {
            Some(InputKind::Wheel)
        } else {
            None
        },
        RawEvent::ModifiersChanged => Some(InputKind::ModifiersChanged),
        RawEvent::KeyPressed { paste } => if paste {
            None
        } else {
            Some(InputKind::KeyPressed)
        },
        RawEvent::KeyReleased => Some(InputKind::KeyReleased),
        RawEvent::ImeOpened => Some(InputKind::ImeOpened),
        RawEvent::ImePreedit => Some(InputKind::ImePreedit),
        RawEvent::ImeCommit => Some(InputKind::ImeCommit),
        RawEvent::ImeClosed => Some(InputKind::ImeClosed),
        RawEvent::Unfocused => Some(InputKind::FocusLost),
        RawEvent::Other => None,
    }
}

impl SessionView {
    /// Shows an error.
    pub(crate) fn fail(&mut self, what: &str, error: &str)
        ensures
            final(self)@ == (SessionViewModel { error: Some(what@ + error@), ..old(self)@ }),
    {
        self.error = Some(text::joined(what, error));
    }
}

impl ArdViewer {
    pub(crate) fn toggle_fullscreen(&mut self, now: Instant) -> (actions: Vec<Action>)
        ensures
            (Step { state: final(self)@, actions: action::all_actions(actions@) })
                == fullscreen_toggled(old(self)@, now@),
    {
        self.touch_session_toolbar(now);
        self.session.fullscreen = !self.session.fullscreen;
        match self.window_id(WindowKind::Session) {
            Some(id) => action::one(Action::SetFullscreen(id, self.session.fullscreen)),
            None => action::none(),
        }
    }

    fn toggle_shortcuts(&mut self) -> (actions: Vec<Action>)
        ensures
            (Step { state: final(self)@, actions: action::all_actions(actions@) })
                == shortcuts_toggled(old(self)@),
    {
        self.preferences.capture_system_shortcuts = !self.preferences.capture_system_shortcuts;
        let actions = action::one(self.persist_config(false));
        if self.preferences.capture_system_shortcuts {
            self.say("系统快捷键将发送到远端");
        } else {
            self.say("系统快捷键保留在本机");
        }
        actions
    }

    pub(crate) fn press_button(&mut self, button: SessionAction, now: Instant) -> (actions: Vec<
        Action,
    >)
        ensures
            (Step { state: final(self)@, actions: action::all_actions(actions@) })
                == button_pressed(old(self)@, button, now@),
    {
        self.touch_session_toolbar(now);
        match button {
            SessionAction::Fit => {
                self.session.zoom = 10;
                action::none()
            },
            SessionAction::Undo => {
                self.session.zoom = 10;
                action::none()
            },
            SessionAction::Zoom => {
                self.session.zoom = if self.session.zoom >= 14 { 6 } else { self.session.zoom + 1 };
                action::none()
            },
            SessionAction::Input => {
                self.say("远程键鼠输入已启用");
                match self.window_id(WindowKind::Session) {
                    Some(id) => {
                        let mut actions = action::one(Action::FocusWindow(id));
                        action::push(&mut actions, Action::FocusIme);
                        assert(action::all_actions(actions@) =~= seq![
                            ActionModel::FocusWindow(id),
                            ActionModel::FocusIme,
                        ]);
                        actions
                    },
                    None => action::none(),
                }
            },
            SessionAction::Clipboard => action::one(Action::ReadClipboard),
            SessionAction::SystemShortcut => self.toggle_shortcuts(),
        }
    }

    pub(crate) fn point_toolbar(&mut self, now: Instant) -> (actions: Vec<Action>)
        ensures
            (Step { state: final(self)@, actions: action::all_actions(actions@) })
                == toolbar_pointed(old(self)@, now@),
    {
        if self.session.toolbar.dragging {
            self.touch_session_toolbar(now);
            action::one(Action::DragToolbar)
        } else {
            action::none()
        }
    }

    pub(crate) fn grab_toolbar(&mut self, now: Instant) -> (actions: Vec<Action>)
        ensures
            (Step { state: final(self)@, actions: action::all_actions(actions@) })
                == toolbar_grabbed(old(self)@, now@),
    {
        self.session.toolbar.dragging = true;
        self.touch_session_toolbar(now);
        action::one(Action::StartToolbarDrag)
    }

    pub(crate) fn poll_session(&self) -> (actions: Vec<Action>)
        ensures
            action::all_actions(actions@) == if self@.session.running {
                seq![ActionModel::DrainSession]
            } else {
                Seq::empty()
            },
    {
        if self.session.running {
            action::one(Action::DrainSession)
        } else {
            action::none()
        }
    }

    /// Takes what the session tells.
    pub fn handle_session_event(&mut self, event: SessionEvent) -> (actions: Vec<Action>)
        ensures
            (Step { state: final(self)@, actions: action::all_actions(actions@) }) == session_told(
                old(self)@,
                event,
            ),
    {
        match event {
            SessionEvent::State { state, label } => {
                let lost = match &state {
                    ConnectionState::Disconnected(_) => true,
                    ConnectionState::Reconnecting { .. } => true,
                    ConnectionState::Failed(_) => true,
                    _ => false,
                };
                self.session.connection = state;
                self.status = label;
                if lost {
                    action::one(Action::ClearInput)
                } else {
                    action::none()
                }
            },
            SessionEvent::Connected { server_name } => {
                self.session.server_name = server_name;
                self.session.error = None;
                action::one(Action::AttachInput)
            },
            SessionEvent::Clipboard(text) => action::one(Action::ApplyRemoteClipboard(text)),
            SessionEvent::RenderFailed(error) => {
                self.session.fail("渲染失败：", error.as_str());
                action::none()
            },
            SessionEvent::RenderRecovered => {
                self.session.error = None;
                action::none()
            },
        }
    }

    /// Takes an event of a window.
    pub fn handle_session_raw_event(&mut self, id: u64, event: RawEvent, ignored: bool) -> (actions:
        Vec<Action>)
        ensures
            (Step { state: final(self)@, actions: action::all_actions(actions@) }) == event_came(
                old(self)@,
                id,
                event,
                ignored,
            ),
    {
        let here = match self.window_id(WindowKind::Session) {
            Some(window) => window == id,
            None => false,
        };
        if !here || !self.session.running {
            return action::none();
        }
        match event {
            RawEvent::CursorMoved(position) => {
                self.session.pointer = position;
            },
            RawEvent::CursorLeft => {
                self.session.pointer = None;
            },
            _ => {},
        }
        let capture_shortcuts = self.preferences.capture_system_shortcuts;
        match forwarded(event, ignored) {
            Some(input) => action::one(Action::ForwardInput { input, capture_shortcuts }),
            None => match event {
                RawEvent::KeyPressed { paste } => if paste {
                    let mut actions = action::one(Action::SuppressPaste);
                    action::push(&mut actions, Action::ReadClipboard);
                    assert(action::all_actions(actions@) =~= seq![
                        ActionModel::SuppressPaste,
                        ActionModel::ReadClipboard,
                    ]);
                    actions
                } else {
                    action::none()
                },
                _ => action::none(),
            },
        }
    }

    pub(crate) fn change_ime(&mut self, value: &str)
        ensures
            final(self)@ == ime_changed(old(self)@, value@),
    {
        self.session.ime_sink = text::tail_of(value, 8);
    }
}

/// A toolbar that is pinned or held stays however long it is not used; another
/// one goes away after four seconds.
pub proof fn law_pinned_toolbar_stays(toolbar: ToolbarModel, now: nat)
    requires
        toolbar.visible,
    ensures
        toolbar.pinned || toolbar.dragging ==> toolbar_aged(toolbar, now) == toolbar,
        !toolbar.pinned && !toolbar.dragging ==> (toolbar_aged(toolbar, now).visible
            <==> take::since(toolbar.last_interaction, now) < 4_000_000_000),
{
}

/// Zooming goes through nine sizes, from 0.6 to 1.4, and comes back to where it
/// started.
pub proof fn law_zoom_is_a_cycle(zoom: u32)
    requires
        6 <= zoom <= 14,
    ensures
        6 <= next_zoom(zoom) <= 14,
        next_zoom(
            next_zoom(
                next_zoom(
                    next_zoom(
                        next_zoom(next_zoom(next_zoom(next_zoom(next_zoom(zoom))))),
                    ),
                ),
            ),
        ) == zoom,
{
}

/// Nothing reaches a session from another window, nor one that does not run.
pub proof fn law_input_needs_a_running_session(
    state: ViewerModel,
    id: u64,
    event: RawEvent,
    ignored: bool,
)
    requires
        !state.session.running || viewer::first_window(state.windows.open, WindowKind::Session)
            != Some(id),
    ensures
        event_came(state, id, event, ignored) == viewer::quiet(state),
{
}

} // verus!
