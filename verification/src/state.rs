//! The plain values that the windows show and change.

use vstd::prelude::*;

verus! {

/// Where a device in the history comes from.
#[derive(Debug, Clone, Copy, PartialEq, Eq, Structural)]
pub enum DeviceState {
    Saved,
    RecentlyUsed,
}

/// A device in the history.
#[derive(Debug)]
pub struct SavedDevice {
    pub name: String,
    pub address: String,
    pub username: String,
    pub state: DeviceState,
}

/// What a `SavedDevice` holds.
pub struct DeviceModel {
    pub name: Seq<char>,
    pub address: Seq<char>,
    pub username: Seq<char>,
    pub state: DeviceState,
}

impl View for SavedDevice {
    type V = DeviceModel;

    open spec fn view(&self) -> DeviceModel {
        DeviceModel {
            name: self.name@,
            address: self.address@,
            username: self.username@,
            state: self.state,
        }
    }
}

/// What devices hold.
pub open spec fn all_devices(devices: Seq<SavedDevice>) -> Seq<DeviceModel> {
    devices.map_values(|d: SavedDevice| d@)
}

/// The appearance that the user prefers.
#[derive(Debug, Clone, Copy, PartialEq, Eq, Structural)]
pub enum ThemePreference {
    System,
    Light,
    Dark,
}

/// The pages of the settings.
#[derive(Debug, Clone, Copy, PartialEq, Eq, Structural)]
pub enum SettingsSection {
    General,
    Display,
    KeyMapping,
    Security,
    About,
}

/// The windows of the application.
#[derive(Debug, Clone, Copy, PartialEq, Eq, Structural)]
pub enum WindowKind {
    Connection,
    Settings,
    Session,
}

/// The video qualities of a session.
#[derive(Debug, Clone, Copy, PartialEq, Eq, Structural)]
pub enum ArdVideoQuality {
    Low,
    Medium,
    High,
    Adaptive,
    Full,
}

/// The connection of a session.
#[derive(Debug, Clone)]
pub enum ConnectionState {
    Idle,
    Connecting,
    Connected,
    Reconnecting { attempt: u32 },
    Disconnected(String),
    Failed(String),
}

/// What a `ConnectionState` holds.
pub enum ConnectionModel {
    Idle,
    Connecting,
    Connected,
    Reconnecting { attempt: u32 },
    Disconnected(Seq<char>),
    Failed(Seq<char>),
}

impl View for ConnectionState {
    type V = ConnectionModel;

    open spec fn view(&self) -> ConnectionModel {
        match *self {
            ConnectionState::Idle => ConnectionModel::Idle,
            ConnectionState::Connecting => ConnectionModel::Connecting,
            ConnectionState::Connected => ConnectionModel::Connected,
            ConnectionState::Reconnecting { attempt } => ConnectionModel::Reconnecting { attempt },
            ConnectionState::Disconnected(reason) => ConnectionModel::Disconnected(reason@),
            ConnectionState::Failed(reason) => ConnectionModel::Failed(reason@),
        }
    }
}

} // verus!
