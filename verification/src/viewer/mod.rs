//! The state of the windows and what changes it. Each message leads to a new
//! state and to actions that the system around the viewer performs; what became
//! of an action comes back as a message.

pub mod action;
pub mod connection;
pub mod laws;
pub mod message;
pub mod session;
pub mod settings;
pub mod update;
pub mod windows;

use crate::clock::Instant;
use crate::config;
use crate::config::AppConfig;
use crate::config::ConfigModel;
use crate::endpoint;
use crate::frame_rate;
use crate::i18n;
use crate::i18n::Language;
use crate::keymap;
use crate::keymap::{KeyMapping, MappingModel};
use crate::state;
use crate::state::{
    ArdVideoQuality, ConnectionModel, ConnectionState, DeviceModel, SavedDevice, SettingsSection,
    ThemePreference, WindowKind,
};
use crate::text;
use crate::viewer::action::{Action, ActionModel};
use std::collections::{BTreeMap, BTreeSet};
use vstd::prelude::*;

verus! {

broadcast use {
    vstd::std_specs::btree::group_btree_axioms,
    vstd::laws_cmp::group_laws_cmp,
};

/// The windows that are open.
#[derive(Debug)]
pub struct WindowState {
    pub open: BTreeMap<u64, WindowKind>,
    pub maximized: BTreeSet<u64>,
    /// The window of which is asked whether to close it.
    pub pending_close: Option<u64>,
    pub close_modal_target_visible: bool,
    /// Nothing is to be seen of the question whether to close.
    pub close_modal_hidden: bool,
}

/// What a `WindowState` holds.
pub struct WindowsModel {
    pub open: Map<u64, WindowKind>,
    pub maximized: Set<u64>,
    pub pending_close: Option<u64>,
    pub close_modal_target_visible: bool,
    pub close_modal_hidden: bool,
}

impl View for WindowState {
    type V = WindowsModel;

    open spec fn view(&self) -> WindowsModel {
        WindowsModel {
            open: self.open@,
            maximized: self.maximized@,
            pending_close: self.pending_close,
            close_modal_target_visible: self.close_modal_target_visible,
            close_modal_hidden: self.close_modal_hidden,
        }
    }
}

/// The history and the fields of the connection window.
#[derive(Debug)]
pub struct ConnectionForm {
    pub devices: Vec<SavedDevice>,
    pub selected_device: usize,
    pub previous_selected_device: usize,
    pub search: String,
    pub address: String,
    pub port: String,
    pub username: String,
    pub password: String,
    pub password_visible: bool,
    pub has_saved_password: bool,
    pub remember_password: bool,
    pub remember_device: bool,
}

/// What a `ConnectionForm` holds.
pub struct FormModel {
    pub devices: Seq<DeviceModel>,
    pub selected_device: nat,
    pub previous_selected_device: nat,
    pub search: Seq<char>,
    pub address: Seq<char>,
    pub port: Seq<char>,
    pub username: Seq<char>,
    pub password: Seq<char>,
    pub password_visible: bool,
    pub has_saved_password: bool,
    pub remember_password: bool,
    pub remember_device: bool,
}

impl View for ConnectionForm {
    type V = FormModel;

    open spec fn view(&self) -> FormModel {
        FormModel {
            devices: state::all_devices(self.devices@),
            selected_device: self.selected_device as nat,
            previous_selected_device: self.previous_selected_device as nat,
            search: self.search@,
            address: self.address@,
            port: self.port@,
            username: self.username@,
            password: self.password@,
            password_visible: self.password_visible,
            has_saved_password: self.has_saved_password,
            remember_password: self.remember_password,
            remember_device: self.remember_device,
        }
    }
}

/// What the settings window changes.
#[derive(Debug)]
pub struct Preferences {
    pub quality: ArdVideoQuality,
    pub frame_rate: String,
    pub settings_section: SettingsSection,
    pub key_profile: String,
    pub auto_adapt_keyboard: bool,
    pub capture_system_shortcuts: bool,
    pub reverse_scroll: bool,
    pub show_performance_hud: bool,
    pub theme_preference: ThemePreference,
    pub language: Language,
    pub system_dark: bool,
    pub mappings: Vec<KeyMapping>,
}

/// What `Preferences` hold.
pub struct PreferencesModel {
    pub quality: ArdVideoQuality,
    pub frame_rate: Seq<char>,
    pub settings_section: SettingsSection,
    pub key_profile: Seq<char>,
    pub auto_adapt_keyboard: bool,
    pub capture_system_shortcuts: bool,
    pub reverse_scroll: bool,
    pub show_performance_hud: bool,
    pub theme_preference: ThemePreference,
    pub language: Language,
    pub system_dark: bool,
    pub mappings: Seq<MappingModel>,
}

impl View for Preferences {
    type V = PreferencesModel;

    open spec fn view(&self) -> PreferencesModel {
        PreferencesModel {
            quality: self.quality,
            frame_rate: self.frame_rate@,
            settings_section: self.settings_section,
            key_profile: self.key_profile@,
            auto_adapt_keyboard: self.auto_adapt_keyboard,
            capture_system_shortcuts: self.capture_system_shortcuts,
            reverse_scroll: self.reverse_scroll,
            show_performance_hud: self.show_performance_hud,
            theme_preference: self.theme_preference,
            language: self.language,
            system_dark: self.system_dark,
            mappings: keymap::all_mappings(self.mappings@),
        }
    }
}

/// The toolbar of the session window.
#[derive(Debug, Clone, Copy, PartialEq, Eq, Structural)]
pub struct Toolbar {
    pub visible: bool,
    pub pinned: bool,
    pub dragging: bool,
    pub last_interaction: Instant,
}

/// What a `Toolbar` holds.
pub struct ToolbarModel {
    pub visible: bool,
    pub pinned: bool,
    pub dragging: bool,
    pub last_interaction: nat,
}

impl View for Toolbar {
    type V = ToolbarModel;

    open spec fn view(&self) -> ToolbarModel {
        ToolbarModel {
            visible: self.visible,
            pinned: self.pinned,
            dragging: self.dragging,
            last_interaction: self.last_interaction@,
        }
    }
}

/// The session window.
#[derive(Debug)]
pub struct SessionView {
    /// The zoom in tenths of the original size.
    pub zoom: u32,
    pub running: bool,
    pub connection: ConnectionState,
    pub server_name: String,
    pub error: Option<String>,
    /// Where the pointer is on the remote desktop.
    pub pointer: Option<(u16, u16)>,
    pub ime_sink: String,
    pub fullscreen: bool,
    pub toolbar: Toolbar,
}

/// What a `SessionView` holds.
pub struct SessionViewModel {
    pub zoom: u32,
    pub running: bool,
    pub connection: ConnectionModel,
    pub server_name: Seq<char>,
    pub error: Option<Seq<char>>,
    pub pointer: Option<(u16, u16)>,
    pub ime_sink: Seq<char>,
    pub fullscreen: bool,
    pub toolbar: ToolbarModel,
}

impl View for SessionView {
    type V = SessionViewModel;

    open spec fn view(&self) -> SessionViewModel {
        SessionViewModel {
            zoom: self.zoom,
            running: self.running,
            connection: self.connection@,
            server_name: self.server_name@,
            error: action::text_of(self.error),
            pointer: self.pointer,
            ime_sink: self.ime_sink@,
            fullscreen: self.fullscreen,
            toolbar: self.toolbar@,
        }
    }
}

/// The state of the viewer.
#[derive(Debug)]
pub struct ArdViewer {
    pub windows: WindowState,
    pub form: ConnectionForm,
    pub preferences: Preferences,
    pub session: SessionView,
    /// The text of the status line.
    pub status: String,
}

/// What an `ArdViewer` holds.
pub struct ViewerModel {
    pub windows: WindowsModel,
    pub form: FormModel,
    pub preferences: PreferencesModel,
    pub session: SessionViewModel,
    pub status: Seq<char>,
}

impl View for ArdViewer {
    type V = ViewerModel;

    open spec fn view(&self) -> ViewerModel {
        ViewerModel {
            windows: self.windows@,
            form: self.form@,
            preferences: self.preferences@,
            session: self.session@,
            status: self.status@,
        }
    }
}

/// What a message leads to.
pub struct Step {
    pub state: ViewerModel,
    pub actions: Seq<ActionModel>,
}

/// A new state and nothing to do.
pub open spec fn quiet(state: ViewerModel) -> Step {
    Step { state, actions: Seq::empty() }
}

/// A new state and one thing to do.
pub open spec fn asking(state: ViewerModel, action: ActionModel) -> Step {
    Step { state, actions: seq![action] }
}

/// Whether `id` is the first window of a kind.
pub open spec fn is_first_window(windows: Map<u64, WindowKind>, kind: WindowKind, id: u64) -> bool {
    &&& windows.contains_key(id)
    &&& windows[id] == kind
    &&& forall|other: u64| #[trigger]
        windows.contains_key(other) && windows[other] == kind ==> id <= other
}

/// The first window of a kind.
pub open spec fn first_window(windows: Map<u64, WindowKind>, kind: WindowKind) -> Option<u64> {
    if exists|id: u64| is_first_window(windows, kind, id) {
        Some(choose|id: u64| is_first_window(windows, kind, id))
    } else {
        None
    }
}

/// Whether the windows are dark.
pub open spec fn is_dark(preferences: PreferencesModel) -> bool {
    match preferences.theme_preference {
        ThemePreference::System => preferences.system_dark,
        ThemePreference::Light => false,
        ThemePreference::Dark => true,
    }
}

/// The endpoint that the fields name, if it is valid.
pub open spec fn endpoint_of(form: FormModel) -> Option<Seq<char>> {
    endpoint::field_endpoint(form.address, form.port)
}

/// The endpoint that the fields name, or the address as it is.
pub open spec fn endpoint_or_address(form: FormModel) -> Seq<char> {
    match endpoint_of(form) {
        Some(endpoint) => endpoint,
        None => text::trimmed(form.address),
    }
}

/// The settings that are kept of a state.
pub open spec fn config_of(state: ViewerModel) -> ConfigModel {
    let form = state.form;
    let preferences = state.preferences;
    ConfigModel {
        devices: form.devices.map_values(|d: DeviceModel| config::cached_of(d)),
        last_address: endpoint_or_address(form),
        last_username: text::trimmed(form.username),
        remember_password: form.remember_password,
        remember_device: form.remember_device,
        quality: config::quality_value(preferences.quality),
        frame_rate: preferences.frame_rate,
        frame_interval_ms: text::decimal(
            frame_rate::interval_of(frame_rate::rate_of(preferences.frame_rate, u64::MAX as nat)),
        ),
        key_profile: preferences.key_profile,
        auto_adapt_keyboard: preferences.auto_adapt_keyboard,
        capture_system_shortcuts: preferences.capture_system_shortcuts,
        reverse_scroll: preferences.reverse_scroll,
        show_performance_hud: preferences.show_performance_hud,
        theme: config::theme_value(preferences.theme_preference),
        language: i18n::code_of(preferences.language),
    }
}

/// The request to keep the settings of a state.
pub open spec fn saving(state: ViewerModel, report: bool) -> ActionModel {
    ActionModel::SaveConfig { config: config_of(state), report }
}

/// A new state whose settings are kept.
pub open spec fn kept(state: ViewerModel) -> Step {
    asking(state, saving(state, true))
}

/// The state with another text in the status line.
pub open spec fn saying(state: ViewerModel, status: Seq<char>) -> ViewerModel {
    ViewerModel { status, ..state }
}

/// The toolbar after it was used.
pub open spec fn touched(toolbar: ToolbarModel, now: nat) -> ToolbarModel {
    ToolbarModel { visible: true, last_interaction: now, ..toolbar }
}

/// The state after the toolbar was used.
pub open spec fn toolbar_touched(state: ViewerModel, now: nat) -> ViewerModel {
    ViewerModel {
        session: SessionViewModel {
            toolbar: touched(state.session.toolbar, now),
            ..state.session
        },
        ..state
    }
}

impl WindowState {
    /// The first window of a kind.
    pub fn first_of(&self, kind: WindowKind) -> (id: Option<u64>)
        ensures
            id == first_window(self@.open, kind),
    {
        let mut first: Option<u64> = None;
        for id in it: self.open.keys()
            invariant
                match first {
                    Some(f) => {
                        &&& self@.open.contains_key(f)
                        &&& self@.open[f] == kind
                        &&& forall|i: int|
                            0 <= i < it.index() && self@.open[*#[trigger] it.seq()[i]] == kind
                                ==> f <= *it.seq()[i]
                    },
                    None => forall|i: int|
                        0 <= i < it.index() ==> self@.open[*#[trigger] it.seq()[i]] != kind,
                },
                it.seq().unref().to_set() == self@.open.dom(),
        {
            assert(it.seq().unref()[it.index() as int] == *id);
            assert(it.seq().unref().to_set().contains(*id));
            assert(self@.open.contains_key(*id));
            let matches = match self.open.get(id) {
                Some(current) => *current == kind,
                None => false,
            };
            let smaller = match first {
                Some(f) => *id < f,
                None => true,
            };
            if matches && smaller {
                first = Some(*id);
            }
        }
        proof {
            let keys = vstd::std_specs::iter::IteratorSpec::remaining(&self.open.keys());
            let windows = self@.open;
            assert(keys.unref().to_set() == windows.dom());
            assert forall|other: u64| #[trigger]
                windows.contains_key(other) && windows[other] == kind implies match first {
                Some(f) => f <= other,
                None => false,
            } by {
                assert(keys.unref().to_set().contains(other));
                let i = choose|i: int| 0 <= i < keys.unref().len() && keys.unref()[i] == other;
                assert(*keys[i] == other);
            }
            lemma_first_window(windows, kind, first);
        }
        first
    }

    fn has_kind(&self, id: u64, kind: WindowKind) -> (yes: bool)
        ensures
            yes == (self@.open.contains_key(id) && self@.open[id] == kind),
    {
        match self.open.get(&id) {
            Some(current) => *current == kind,
            None => false,
        }
    }

}

impl ArdViewer {
    /// The first window of a kind.
    pub fn window_id(&self, kind: WindowKind) -> (id: Option<u64>)
        ensures
            id == first_window(self@.windows.open, kind),
    {
        self.windows.first_of(kind)
    }

    /// Whether a window is maximized.
    pub fn is_window_maximized(&self, id: u64) -> (yes: bool)
        ensures
            yes == self@.windows.maximized.contains(id),
    {
        self.windows.maximized.contains(&id)
    }

    /// Whether the windows are dark.
    pub fn effective_dark(&self) -> (dark: bool)
        ensures
            dark == is_dark(self@.preferences),
    {
        match self.preferences.theme_preference {
            ThemePreference::System => self.preferences.system_dark,
            ThemePreference::Light => false,
            ThemePreference::Dark => true,
        }
    }

    /// The endpoint that the fields name, if it is valid.
    pub fn remote_endpoint(&self) -> (endpoint: Result<String, ()>)
        ensures
            match endpoint {
                Ok(text) => endpoint_of(self@.form) == Some(text@),
                Err(_) => endpoint_of(self@.form) is None,
            },
    {
        match endpoint::endpoint_from_fields(
            self.form.address.as_str(),
            self.form.port.as_str(),
        ) {
            Some(endpoint) => Ok(endpoint),
            None => Err(()),
        }
    }

    fn remote_address(&self) -> (address: String)
        ensures
            address@ == endpoint_or_address(self@.form),
    {
        match self.remote_endpoint() {
            Ok(endpoint) => endpoint,
            Err(_) => text::trim(self.form.address.as_str()),
        }
    }

    /// The settings that are kept.
    pub fn current_config(&self) -> (config: AppConfig)
        ensures
            config@ == config_of(self@),
    {
        let interval: u64 = frame_rate::frame_interval_from_rate(self.preferences.frame_rate.as_str());
        AppConfig {
            devices: config::devices_to_cache(&self.form.devices),
            last_address: self.remote_address(),
            last_username: text::trim(self.form.username.as_str()),
            remember_password: self.form.remember_password,
            remember_device: self.form.remember_device,
            quality: config::quality_to_cache(self.preferences.quality).to_owned(),
            frame_rate: self.preferences.frame_rate.clone(),
            frame_interval_ms: text::decimal_of(interval),
            key_profile: self.preferences.key_profile.clone(),
            auto_adapt_keyboard: self.preferences.auto_adapt_keyboard,
            capture_system_shortcuts: self.preferences.capture_system_shortcuts,
            reverse_scroll: self.preferences.reverse_scroll,
            show_performance_hud: self.preferences.show_performance_hud,
            theme: config::theme_to_cache(self.preferences.theme_preference).to_owned(),
            language: self.preferences.language.code().to_owned(),
        }
    }

    fn persist_config(&self, report: bool) -> (action: Action)
        ensures
            action@ == saving(self@, report),
    {
        Action::SaveConfig { config: self.current_config(), report }
    }

    fn keep(&self) -> (actions: Vec<Action>)
        ensures
            action::all_actions(actions@) == seq![saving(self@, true)],
    {
        action::one(self.persist_config(true))
    }

    fn say(&mut self, status: &str)
        ensures
            final(self)@ == saying(old(self)@, status@),
    {
        self.status = status.to_owned();
    }

    fn touch_session_toolbar(&mut self, now: Instant)
        ensures
            final(self)@ == toolbar_touched(old(self)@, now@),
    {
        self.session.toolbar.visible = true;
        self.session.toolbar.last_interaction = now;
    }
}

proof fn lemma_first_window(windows: Map<u64, WindowKind>, kind: WindowKind, first: Option<u64>)
    requires
        match first {
            Some(f) => is_first_window(windows, kind, f),
            None => forall|other: u64| #[trigger]
                windows.contains_key(other) ==> windows[other] != kind,
        },
    ensures
        first == first_window(windows, kind),
{
    if let Some(f) = first {
        let chosen = choose|id: u64| is_first_window(windows, kind, id);
        assert(is_first_window(windows, kind, chosen));
        assert(windows.contains_key(f) && windows.contains_key(chosen));
    }
}

proof fn lemma_some_window_is_first(windows: Map<u64, WindowKind>, kind: WindowKind, id: u64)
    requires
        windows.contains_key(id),
        windows[id] == kind,
    ensures
        exists|first: u64| is_first_window(windows, kind, first),
    decreases id,
{
    if exists|other: u64| #[trigger]
        windows.contains_key(other) && windows[other] == kind && other < id {
        let other = choose|other: u64| #[trigger]
            windows.contains_key(other) && windows[other] == kind && other < id;
        lemma_some_window_is_first(windows, kind, other);
    } else {
        assert(is_first_window(windows, kind, id));
    }
}

/// The first window of a kind is an open one of that kind, the one with the smallest
/// number; there is none only if no such window is open.
pub proof fn law_first_window(windows: Map<u64, WindowKind>, kind: WindowKind)
    ensures
        match first_window(windows, kind) {
            Some(id) => windows.contains_key(id) && windows[id] == kind && forall|other: u64|
                #[trigger]
                windows.contains_key(other) && windows[other] == kind ==> id <= other,
            None => forall|other: u64| #[trigger]
                windows.contains_key(other) ==> windows[other] != kind,
        },
{
    if first_window(windows, kind) is Some {
        let id = choose|id: u64| is_first_window(windows, kind, id);
        assert(is_first_window(windows, kind, id));
    } else {
        assert forall|other: u64| #[trigger] windows.contains_key(other) implies windows[other]
            != kind by {
            if windows[other] == kind {
                lemma_some_window_is_first(windows, kind, other);
            }
        }
    }
}

/// The windows are dark if the user wants that, or leaves it to a dark system.
pub proof fn law_dark_as_wanted(preferences: PreferencesModel)
    ensures
        preferences.theme_preference == ThemePreference::Dark ==> is_dark(preferences),
        preferences.theme_preference == ThemePreference::Light ==> !is_dark(preferences),
        preferences.theme_preference == ThemePreference::System ==> is_dark(preferences)
            == preferences.system_dark,
{
}

/// What is kept of the state: the last endpoint or address and the last user without
/// the white space around it, and each preference as it is, with the interval in
/// milliseconds beside the frame rate.
pub proof fn law_settings_are_kept_as_they_are(state: ViewerModel, i: int)
    ensures
        ({
            let config = config_of(state);
            &&& match endpoint_of(state.form) {
                Some(endpoint) => config.last_address == endpoint,
                None => config.last_address == text::trimmed(state.form.address),
            }
            &&& config.last_username == text::trimmed(state.form.username)
            &&& config.remember_password == state.form.remember_password
            &&& config.remember_device == state.form.remember_device
            &&& config.frame_rate == state.preferences.frame_rate
            &&& config.key_profile == state.preferences.key_profile
            &&& config.auto_adapt_keyboard == state.preferences.auto_adapt_keyboard
            &&& config.capture_system_shortcuts == state.preferences.capture_system_shortcuts
            &&& config.reverse_scroll == state.preferences.reverse_scroll
            &&& config.show_performance_hud == state.preferences.show_performance_hud
            &&& config::quality_of(config.quality) == state.preferences.quality
            &&& config::theme_of(config.theme) == state.preferences.theme_preference
            &&& i18n::language_of(config.language) == state.preferences.language
            &&& config.devices.len() == state.form.devices.len()
            &&& 0 <= i < config.devices.len() ==> config.devices[i].name
                == state.form.devices[i].name && config.devices[i].address
                == state.form.devices[i].address && config.devices[i].username
                == state.form.devices[i].username
        }),
        forall|rate: nat|
            1 <= rate <= 240 && state.preferences.frame_rate == #[trigger] text::decimal(rate)
                ==> text::parsed_unsigned(config_of(state).frame_interval_ms, 1000) == Some(
                frame_rate::interval_of(rate),
            ),
{
    config::law_quality_round_trip(state.preferences.quality);
    config::law_theme_round_trip(state.preferences.theme_preference);
    i18n::law_language_round_trip(state.preferences.language);
    assert forall|rate: nat|
        1 <= rate <= 240 && state.preferences.frame_rate == #[trigger] text::decimal(
            rate,
        ) implies text::parsed_unsigned(config_of(state).frame_interval_ms, 1000) == Some(
        frame_rate::interval_of(rate),
    ) by {
        frame_rate::law_kept_rate_is_stable(rate);
        frame_rate::law_intervals_are_bounded(rate);
        text::lemma_decimal_parses(frame_rate::interval_of(rate), 1000);
    }
}

} // verus!
