//! What the viewer asks of the system around it.

use crate::clock::Duration;
use crate::config::{AppConfig, ConfigModel};
use crate::keymap;
use crate::keymap::{KeyMapping, MappingModel};
use crate::state::{ArdVideoQuality, WindowKind};
use vstd::prelude::*;

verus! {

/// What a session is started with.
#[derive(Debug)]
pub struct SessionConfig {
    pub address: String,
    pub username: String,
    pub password: String,
    pub quality: ArdVideoQuality,
    pub frame_interval: Duration,
}

/// What a `SessionConfig` holds.
pub struct SessionModel {
    pub address: Seq<char>,
    pub username: Seq<char>,
    pub password: Seq<char>,
    pub quality: ArdVideoQuality,
    pub frame_interval: nat,
}

impl View for SessionConfig {
    type V = SessionModel;

    open spec fn view(&self) -> SessionModel {
        SessionModel {
            address: self.address@,
            username: self.username@,
            password: self.password@,
            quality: self.quality,
            frame_interval: self.frame_interval@,
        }
    }
}

/// The inputs that reach a session.
#[derive(Debug, Clone, Copy, PartialEq, Eq)]
pub enum InputKind {
    /// The pointer moved, to a place of the remote desktop or off it.
    CursorMoved(Option<(u16, u16)>),
    ButtonPressed,
    ButtonReleased,
    Wheel,
    ModifiersChanged,
    KeyPressed,
    KeyReleased,
    ImeOpened,
    ImePreedit,
    ImeCommit,
    ImeClosed,
    FocusLost,
}

/// What the viewer asks for.
#[derive(Debug)]
pub enum Action {
    /// Leave the application.
    Exit,
    QuerySystemTheme,
    SetDark(bool),
    OpenWindow(WindowKind),
    /// Open the settings a little below and right of a window.
    OpenSettingsNear(u64),
    CloseWindow(u64),
    RevealAndFocus(u64),
    FocusWindow(u64),
    DragWindow(u64),
    MinimizeWindow(u64),
    MaximizeWindow(u64, bool),
    QueryMaximized(u64),
    SetFullscreen(u64, bool),
    /// Keep the title bar of a window from moving it.
    DisableTitlebarDrag(u64),
    /// Fit what depends on the size of the session window.
    FitSession(u64),
    /// Keep the settings; `report` asks to hear of a failure.
    SaveConfig { config: AppConfig, report: bool },
    /// Find out whether a password is stored.
    CheckPassword { endpoint: String, username: String },
    /// Load the password to connect with.
    LoadPassword { endpoint: String, username: String },
    /// Store a password, or forget it; `report` asks to show a failure.
    StorePassword { address: String, username: String, password: Option<String>, report: bool },
    /// Forget a password.
    RemovePassword { address: String, username: String },
    StartSession(SessionConfig),
    StopSession,
    /// Take what the session has to tell.
    DrainSession,
    ClearInput,
    /// Use the input of the session that just connected.
    AttachInput,
    ForwardInput { input: InputKind, capture_shortcuts: bool },
    /// Keep the paste key from the session.
    SuppressPaste,
    ReadClipboard,
    /// Send the local clipboard if it is new.
    OfferClipboard(Option<String>),
    /// Take over the remote clipboard.
    ApplyRemoteClipboard(String),
    FocusIme,
    ExportShortcuts(Vec<KeyMapping>),
    RestartDeviceTransition,
    RestartSettingsTransition,
    RestartCloseModal,
    StartToolbarDrag,
    DragToolbar,
}

/// What an `Action` holds.
pub enum ActionModel {
    Exit,
    QuerySystemTheme,
    SetDark(bool),
    OpenWindow(WindowKind),
    OpenSettingsNear(u64),
    CloseWindow(u64),
    RevealAndFocus(u64),
    FocusWindow(u64),
    DragWindow(u64),
    MinimizeWindow(u64),
    MaximizeWindow(u64, bool),
    QueryMaximized(u64),
    SetFullscreen(u64, bool),
    DisableTitlebarDrag(u64),
    FitSession(u64),
    SaveConfig { config: ConfigModel, report: bool },
    CheckPassword { endpoint: Seq<char>, username: Seq<char> },
    LoadPassword { endpoint: Seq<char>, username: Seq<char> },
    StorePassword {
        address: Seq<char>,
        username: Seq<char>,
        password: Option<Seq<char>>,
        report: bool,
    },
    RemovePassword { address: Seq<char>, username: Seq<char> },
    StartSession(SessionModel),
    StopSession,
    DrainSession,
    ClearInput,
    AttachInput,
    ForwardInput { input: InputKind, capture_shortcuts: bool },
    SuppressPaste,
    ReadClipboard,
    OfferClipboard(Option<Seq<char>>),
    ApplyRemoteClipboard(Seq<char>),
    FocusIme,
    ExportShortcuts(Seq<MappingModel>),
    RestartDeviceTransition,
    RestartSettingsTransition,
    RestartCloseModal,
    StartToolbarDrag,
    DragToolbar,
}

/// What an optional text holds.
pub open spec fn text_of(text: Option<String>) -> Option<Seq<char>> {
    match text {
        Some(text) => Some(text@),
        None => None,
    }
}

impl View for Action {
    type V = ActionModel;

    open spec fn view(&self) -> ActionModel {
        match *self {
            Action::Exit => ActionModel::Exit,
            Action::QuerySystemTheme => ActionModel::QuerySystemTheme,
            Action::SetDark(dark) => ActionModel::SetDark(dark),
            Action::OpenWindow(kind) => ActionModel::OpenWindow(kind),
            Action::OpenSettingsNear(id) => ActionModel::OpenSettingsNear(id),
            Action::CloseWindow(id) => ActionModel::CloseWindow(id),
            Action::RevealAndFocus(id) => ActionModel::RevealAndFocus(id),
            Action::FocusWindow(id) => ActionModel::FocusWindow(id),
            Action::DragWindow(id) => ActionModel::DragWindow(id),
            Action::MinimizeWindow(id) => ActionModel::MinimizeWindow(id),
            Action::MaximizeWindow(id, maximized) => ActionModel::MaximizeWindow(id, maximized),
            Action::QueryMaximized(id) => ActionModel::QueryMaximized(id),
            Action::SetFullscreen(id, fullscreen) => ActionModel::SetFullscreen(id, fullscreen),
            Action::DisableTitlebarDrag(id) => ActionModel::DisableTitlebarDrag(id),
            Action::FitSession(id) => ActionModel::FitSession(id),
            Action::SaveConfig { config, report } => ActionModel::SaveConfig {
                config: config@,
                report,
            },
            Action::CheckPassword { endpoint, username } => ActionModel::CheckPassword {
                endpoint: endpoint@,
                username: username@,
            },
            Action::LoadPassword { endpoint, username } => ActionModel::LoadPassword {
                endpoint: endpoint@,
                username: username@,
            },
            Action::StorePassword { address, username, password, report } =>
                ActionModel::StorePassword {
                address: address@,
                username: username@,
                password: text_of(password),
                report,
            },
            Action::RemovePassword { address, username } => ActionModel::RemovePassword {
                address: address@,
                username: username@,
            },
            Action::StartSession(config) => ActionModel::StartSession(config@),
            Action::StopSession => ActionModel::StopSession,
            Action::DrainSession => ActionModel::DrainSession,
            Action::ClearInput => ActionModel::ClearInput,
            Action::AttachInput => ActionModel::AttachInput,
            Action::ForwardInput { input, capture_shortcuts } => ActionModel::ForwardInput {
                input,
                capture_shortcuts,
            },
            Action::SuppressPaste => ActionModel::SuppressPaste,
            Action::ReadClipboard => ActionModel::ReadClipboard,
            Action::OfferClipboard(contents) => ActionModel::OfferClipboard(text_of(contents)),
            Action::ApplyRemoteClipboard(text) => ActionModel::ApplyRemoteClipboard(text@),
            Action::FocusIme => ActionModel::FocusIme,
            Action::ExportShortcuts(mappings) => ActionModel::ExportShortcuts(
                keymap::all_mappings(mappings@),
            ),
            Action::RestartDeviceTransition => ActionModel::RestartDeviceTransition,
            Action::RestartSettingsTransition => ActionModel::RestartSettingsTransition,
            Action::RestartCloseModal => ActionModel::RestartCloseModal,
            Action::StartToolbarDrag => ActionModel::StartToolbarDrag,
            Action::DragToolbar => ActionModel::DragToolbar,
        }
    }
}

/// What actions hold.
pub open spec fn all_actions(actions: Seq<Action>) -> Seq<ActionModel> {
    actions.map_values(|a: Action| a@)
}

/// No action.
pub fn none() -> (actions: Vec<Action>)
    ensures
        all_actions(actions@) == Seq::<ActionModel>::empty(),
{
    let actions: Vec<Action> = Vec::new();
    assert(all_actions(actions@) =~= Seq::<ActionModel>::empty());
    actions
}

/// One action.
pub fn one(action: Action) -> (actions: Vec<Action>)
    ensures
        all_actions(actions@) == seq![action@],
{
    let mut actions: Vec<Action> = Vec::new();
    actions.push(action);
    assert(all_actions(actions@) =~= seq![action@]);
    actions
}

/// Appends an action.
pub fn push(actions: &mut Vec<Action>, action: Action)
    ensures
        all_actions(final(actions)@) == all_actions(old(actions)@).push(action@),
{
    let ghost before = actions@;
    actions.push(action);
    assert(all_actions(actions@) =~= all_actions(before).push(action@));
}

/// Appends actions.
pub fn extend(actions: &mut Vec<Action>, more: Vec<Action>)
    ensures
        all_actions(final(actions)@) == all_actions(old(actions)@) + all_actions(more@),
{
    let ghost before = actions@;
    let ghost tail = more@;
    let mut more = more;
    actions.append(&mut more);
    assert(all_actions(actions@) =~= all_actions(before) + all_actions(tail));
}

} // verus!
