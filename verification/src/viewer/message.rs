//! What happens to the viewer.

use crate::state::{ArdVideoQuality, ConnectionState, SettingsSection, ThemePreference, WindowKind};
use vstd::prelude::*;

verus! {

/// The buttons of a session's toolbar.
#[derive(Debug, Clone, Copy, PartialEq, Eq, Structural)]
pub enum SessionAction {
    Fit,
    Zoom,
    Undo,
    Input,
    Clipboard,
    SystemShortcut,
}

/// What a session tells.
#[derive(Debug, Clone)]
pub enum SessionEvent {
    /// The connection changed; the label is what is shown for it.
    State { state: ConnectionState, label: String },
    Connected { server_name: String },
    Clipboard(String),
    RenderFailed(String),
    /// Frames are drawn again after a failure.
    RenderRecovered,
}

/// What a window tells of its inputs. The place of the pointer is already that of
/// the remote desktop.
#[derive(Debug, Clone, Copy, PartialEq, Eq)]
pub enum RawEvent {
    CursorMoved(Option<(u16, u16)>),
    CursorLeft,
    ButtonPressed,
    ButtonReleased,
    WheelScrolled,
    ModifiersChanged,
    /// A key was pressed; `paste` if it is the paste shortcut.
    KeyPressed { paste: bool },
    KeyReleased,
    ImeOpened,
    ImePreedit,
    ImeCommit,
    ImeClosed,
    Unfocused,
    Other,
}

/// What became of an action.
#[derive(Debug, Clone)]
pub enum Reply {
    /// Whether a password is stored.
    PasswordChecked(bool),
    /// The password to connect with to an endpoint.
    PasswordLoaded { endpoint: String, password: Option<String> },
    /// A password was stored, or forgotten if `saved` is false.
    PasswordStored { saved: bool },
    PasswordNotStored { error: String, report: bool },
    PasswordNotRemoved(String),
    ConfigNotSaved(String),
    InputFailed(String),
    ClipboardFailed(String),
    NoExportDirectory,
    Exported(String),
    ExportFailed(String),
    RecordingFailed(String),
}

/// What happens to the viewer.
#[derive(Debug, Clone)]
pub enum Message {
    WindowOpened(WindowKind, u64),
    WindowClosed(u64),
    WindowResized(u64),
    WindowMaximizedChanged(u64, bool),
    InitialSystemTheme { dark: bool },
    CloseRequested(u64),
    CancelClose,
    ConfirmClose,
    CloseWindow(u64),
    DragWindow(u64),
    MinimizeWindow(u64),
    ToggleMaximizeWindow(u64),
    OpenSettings,
    SearchChanged(String),
    DeviceSelected(usize),
    AddressChanged(String),
    PortChanged(String),
    UsernameChanged(String),
    PasswordChanged(String),
    TogglePasswordVisibility,
    RememberPasswordChanged(bool),
    RememberDeviceChanged(bool),
    SaveDevice,
    Connect,
    ManageDevices,
    ExportShortcuts,
    SettingsSectionSelected(SettingsSection),
    QualityChanged(ArdVideoQuality),
    FrameRateChanged(String),
    KeyProfileChanged(String),
    AutoAdaptChanged(bool),
    CaptureShortcutsChanged(bool),
    PerformanceHudChanged(bool),
    ThemePreferenceChanged(ThemePreference),
    SystemThemeChanged { dark: bool },
    CopyPreset,
    ResetMappings,
    AddMapping,
    EditMapping(usize),
    SessionAction(SessionAction),
    ToggleFullscreen,
    SessionToolbarTick,
    /// The animations went on; `close_modal_hidden` if the question whether to
    /// close is not visible any more.
    AnimationTick { close_modal_hidden: bool },
    ShowSessionToolbar,
    HideSessionToolbar,
    SessionToolbarInteraction,
    SessionToolbarPointerMoved,
    SessionToolbarDragStarted,
    SessionToolbarDragEnded,
    ToggleSessionToolbarPin,
    SessionPoll,
    SessionClipboardPoll,
    /// An input in a window; `ignored` if no widget took it.
    SessionRawEvent { id: u64, event: RawEvent, ignored: bool },
    Session(SessionEvent),
    ClipboardRead(Option<String>),
    ImeSinkChanged(String),
    Reply(Reply),
}

} // verus!
