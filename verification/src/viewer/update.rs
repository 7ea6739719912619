//! How the viewer starts, and what each message leads to.

use crate::clock::Instant;
use crate::config;
use crate::config::{AppConfig, CachedDeviceModel, ConfigModel};
use crate::endpoint;
use crate::frame_rate;
use crate::i18n;
use crate::keymap;
use crate::state::{ConnectionModel, ConnectionState, SavedDevice, SettingsSection, WindowKind};
use crate::text;
use crate::viewer;
use crate::viewer::action;
use crate::viewer::action::{Action, ActionModel};
use crate::viewer::message::{Message, Reply};
use crate::viewer::{connection, session, settings, windows};
use crate::viewer::{
    ArdViewer, ConnectionForm, FormModel, Preferences, PreferencesModel, SessionView,
    SessionViewModel, Step, Toolbar, ToolbarModel, ViewerModel, WindowState, WindowsModel,
};
use std::collections::{BTreeMap, BTreeSet};
use vstd::prelude::*;

verus! {

/// The form that the kept settings fill: the last address and user, or those of
/// the first device.
pub open spec fn initial_form(config: ConfigModel) -> FormModel {
    let devices = config.devices.map_values(|d: CachedDeviceModel| config::device_of(d));
    let address = if config.last_address.len() > 0 {
        config.last_address
    } else if devices.len() > 0 {
        devices[0].address
    } else {
        Seq::empty()
    };
    let username = if config.last_username.len() > 0 {
        config.last_username
    } else if devices.len() > 0 {
        devices[0].username
    } else {
        Seq::empty()
    };
    FormModel {
        devices,
        selected_device: 0,
        previous_selected_device: 0,
        search: Seq::empty(),
        address: endpoint::endpoint_parts(address).0,
        port: endpoint::endpoint_parts(address).1,
        username,
        password: Seq::empty(),
        password_visible: false,
        has_saved_password: false,
        remember_password: config.remember_password,
        remember_device: config.remember_device,
    }
}

/// The preferences that were kept.
pub open spec fn initial_preferences(config: ConfigModel) -> PreferencesModel {
    PreferencesModel {
        quality: config::quality_of(config.quality),
        frame_rate: if config.frame_rate.len() > 0 {
            config.frame_rate
        } else {
            frame_rate::rate_text(
                match text::parsed_unsigned(
                    text::trimmed(config.frame_interval_ms),
                    u64::MAX as nat,
                ) {
                    Some(interval) => interval,
                    None => 0,
                },
            )
        },
        settings_section: SettingsSection::KeyMapping,
        key_profile: config.key_profile,
        auto_adapt_keyboard: config.auto_adapt_keyboard,
        capture_system_shortcuts: config.capture_system_shortcuts,
        reverse_scroll: config.reverse_scroll,
        show_performance_hud: config.show_performance_hud,
        theme_preference: config::theme_of(config.theme),
        language: i18n::language_of(config.language),
        system_dark: false,
        mappings: keymap::mappings_of(config.key_profile),
    }
}

/// The viewer before its first window: no session, and a visible toolbar.
pub open spec fn initial(config: ConfigModel, now: nat) -> Step {
    let form = initial_form(config);
    let preferences = initial_preferences(config);
    Step {
        state: ViewerModel {
            windows: WindowsModel {
                open: Map::empty(),
                maximized: Set::empty(),
                pending_close: None,
                close_modal_target_visible: false,
                close_modal_hidden: true,
            },
            form,
            preferences,
            session: SessionViewModel {
                zoom: 10,
                running: false,
                connection: ConnectionModel::Idle,
                server_name: Seq::empty(),
                error: None,
                pointer: None,
                ime_sink: Seq::empty(),
                fullscreen: false,
                toolbar: ToolbarModel {
                    visible: true,
                    pinned: false,
                    dragging: false,
                    last_interaction: now,
                },
            },
            status: Seq::empty(),
        },
        actions: (if form.remember_password {
            seq![
                ActionModel::CheckPassword {
                    endpoint: endpoint::endpoint_text(form.address, form.port),
                    username: form.username,
                },
            ]
        } else {
            Seq::empty()
        }).push(ActionModel::SetDark(viewer::is_dark(preferences))).push(
            ActionModel::QuerySystemTheme,
        ),
    }
}

/// What the answer to an action leads to.
pub open spec fn replied(state: ViewerModel, reply: Reply) -> Step {
    match reply {
        Reply::PasswordChecked(stored) => viewer::quiet(
            connection::with_form(
                state,
                FormModel { has_saved_password: stored, ..state.form },
            ),
        ),
        Reply::PasswordLoaded { endpoint, password } => connection::password_loaded(
            state,
            endpoint@,
            action::text_of(password),
        ),
        Reply::PasswordStored { saved } => viewer::quiet(
            connection::with_form(state, FormModel { has_saved_password: saved, ..state.form }),
        ),
        Reply::PasswordNotStored { error, report } => viewer::quiet(
            if report {
                viewer::saying(state, "系统密钥库不可用："@ + error@)
            } else {
                state
            },
        ),
        Reply::PasswordNotRemoved(error) => viewer::quiet(
            viewer::saying(state, "移除系统密钥库密码失败："@ + error@),
        ),
        Reply::ConfigNotSaved(error) => viewer::quiet(
            viewer::saying(state, "保存配置失败："@ + error@),
        ),
        Reply::InputFailed(error) => viewer::quiet(
            session::failed(state, "远程输入失败："@, error@),
        ),
        Reply::ClipboardFailed(error) => viewer::quiet(
            session::failed(state, "发送剪贴板失败："@, error@),
        ),
        Reply::NoExportDirectory => viewer::quiet(
            viewer::saying(state, "无法确定导出目录"@),
        ),
        Reply::Exported(path) => viewer::quiet(
            viewer::saying(state, "快捷方式已导出到 "@ + path@),
        ),
        Reply::ExportFailed(error) => viewer::quiet(
            viewer::saying(state, "导出失败："@ + error@),
        ),
        Reply::RecordingFailed(error) => viewer::quiet(viewer::saying(state, error@)),
    }
}

/// What a message about the windows leads to.
#[verifier::opaque]
pub open spec fn window_step(state: ViewerModel, message: Message) -> Option<Step> {
    match message {
        Message::WindowOpened(kind, id) => Some(
            windows::opened(state, kind, id),
        ),
        Message::WindowClosed(id) => Some(
            windows::closed(state, id),
        ),
        Message::WindowResized(id) => Some(
            windows::resized(state, id),
        ),
        Message::WindowMaximizedChanged(id, maximized) => Some(
            viewer::quiet(
                windows::with_windows(state, windows::maximized(state.windows, id, maximized)),
            ),
        ),
        Message::CloseRequested(id) => Some(
            windows::close_requested(state, id),
        ),
        Message::CancelClose => Some(
            viewer::quiet(
                windows::with_windows(state, windows::close_cancelled(state.windows)),
            ),
        ),
        Message::ConfirmClose => Some(
            windows::close_confirmed(state),
        ),
        Message::CloseWindow(id) => Some(
            windows::close_pressed(state, id),
        ),
        Message::DragWindow(id) => Some(
            viewer::asking(state, ActionModel::DragWindow(id)),
        ),
        Message::MinimizeWindow(id) => Some(
            viewer::asking(state, ActionModel::MinimizeWindow(id)),
        ),
        Message::ToggleMaximizeWindow(id) => Some(
            windows::maximize_toggled(state, id),
        ),
        Message::OpenSettings => Some(
            windows::settings_opened(state),
        ),
        Message::AnimationTick { close_modal_hidden } => Some(
            viewer::quiet(
                windows::with_windows(state, windows::animated(state.windows, close_modal_hidden)),
            ),
        ),
        _ => None,
    }
}

/// What a message of the connection window leads to.
#[verifier::opaque]
pub open spec fn form_step(state: ViewerModel, message: Message) -> Option<Step> {
    match message {
        Message::SearchChanged(value) => Some(
            viewer::quiet(
                connection::with_form(state, FormModel { search: value@, ..state.form }),
            ),
        ),
        Message::DeviceSelected(index) => Some(
            connection::device_selected(state, index as nat),
        ),
        Message::AddressChanged(value) => Some(
            viewer::quiet(
                connection::with_form(state, connection::address_changed(state.form, value@)),
            ),
        ),
        Message::PortChanged(value) => Some(
            viewer::quiet(
                connection::with_form(state, connection::port_changed(state.form, value@)),
            ),
        ),
        Message::UsernameChanged(value) => Some(
            viewer::quiet(
                connection::with_form(state, connection::username_changed(state.form, value@)),
            ),
        ),
        Message::PasswordChanged(value) => Some(
            viewer::quiet(
                connection::with_form(state, connection::password_changed(state.form, value@)),
            ),
        ),
        Message::TogglePasswordVisibility => Some(
            viewer::quiet(
                connection::with_form(
                    state,
                    FormModel { password_visible: !state.form.password_visible, ..state.form },
                ),
            ),
        ),
        Message::RememberPasswordChanged(value) => Some(
            connection::remember_password_changed(
                state,
                value,
            ),
        ),
        Message::RememberDeviceChanged(value) => Some(
            connection::remember_device_changed(state, value),
        ),
        Message::SaveDevice => Some(
            connection::device_saved(state),
        ),
        Message::Connect => Some(
            connection::connect_pressed(state),
        ),
        Message::ManageDevices => Some(
            connection::device_removed(state),
        ),
        _ => None,
    }
}

/// What a message of the settings window leads to.
#[verifier::opaque]
pub open spec fn settings_step(state: ViewerModel, message: Message) -> Option<Step> {
    match message {
        Message::InitialSystemTheme { dark } => Some(
            settings::system_theme_known(state, dark),
        ),
        Message::ExportShortcuts => Some(
            viewer::asking(
                state,
                ActionModel::ExportShortcuts(state.preferences.mappings),
            ),
        ),
        Message::SettingsSectionSelected(section) => Some(
            settings::section_selected(state, section),
        ),
        Message::QualityChanged(quality) => Some(
            settings::preferences_kept(
                state,
                PreferencesModel { quality, ..state.preferences },
            ),
        ),
        Message::FrameRateChanged(value) => Some(
            settings::preferences_kept(
                state,
                PreferencesModel {
                    frame_rate: frame_rate::typed_rate(value@),
                    ..state.preferences
                },
            ),
        ),
        Message::KeyProfileChanged(value) => Some(
            settings::preferences_kept(
                state,
                settings::profile_chosen(state.preferences, value@),
            ),
        ),
        Message::AutoAdaptChanged(value) => Some(
            settings::preferences_kept(
                state,
                PreferencesModel { auto_adapt_keyboard: value, ..state.preferences },
            ),
        ),
        Message::CaptureShortcutsChanged(value) => Some(
            settings::preferences_kept(
                state,
                PreferencesModel { capture_system_shortcuts: value, ..state.preferences },
            ),
        ),
        Message::PerformanceHudChanged(value) => Some(
            settings::preferences_kept(
                state,
                PreferencesModel { show_performance_hud: value, ..state.preferences },
            ),
        ),
        Message::ThemePreferenceChanged(theme) => Some(
            settings::theme_changed(state, theme),
        ),
        Message::SystemThemeChanged { dark } => Some(
            settings::system_theme_changed(state, dark),
        ),
        Message::CopyPreset => Some(
            settings::preset_copied(state),
        ),
        Message::ResetMappings => Some(
            viewer::quiet(settings::mappings_reset(state)),
        ),
        Message::AddMapping => Some(
            viewer::quiet(settings::mapping_added(state)),
        ),
        Message::EditMapping(index) => Some(
            viewer::quiet(
                settings::mapping_removed(state, index as nat),
            ),
        ),
        _ => None,
    }
}

/// What a message of the session's toolbar leads to.
#[verifier::opaque]
pub open spec fn toolbar_step(state: ViewerModel, message: Message, now: nat) -> Option<Step> {
    match message {
        Message::SessionAction(button) => Some(
            session::button_pressed(state, button, now),
        ),
        Message::ToggleFullscreen => Some(
            session::fullscreen_toggled(state, now),
        ),
        Message::SessionToolbarTick => Some(
            viewer::quiet(
                session::with_toolbar(state, session::toolbar_aged(state.session.toolbar, now)),
            ),
        ),
        Message::ShowSessionToolbar => Some(
            viewer::quiet(viewer::toolbar_touched(state, now)),
        ),
        Message::SessionToolbarInteraction => Some(
            viewer::quiet(viewer::toolbar_touched(state, now)),
        ),
        Message::HideSessionToolbar => Some(
            viewer::quiet(
                session::with_toolbar(state, session::toolbar_hidden(state.session.toolbar)),
            ),
        ),
        Message::SessionToolbarPointerMoved => Some(
            session::toolbar_pointed(state, now),
        ),
        Message::SessionToolbarDragStarted => Some(
            session::toolbar_grabbed(state, now),
        ),
        Message::SessionToolbarDragEnded => Some(
            viewer::quiet(
                session::with_toolbar(state, session::toolbar_released(state.session.toolbar, now)),
            ),
        ),
        Message::ToggleSessionToolbarPin => Some(
            viewer::quiet(
                session::with_toolbar(state, session::toolbar_pin_toggled(state.session.toolbar, now)),
            ),
        ),
        _ => None,
    }
}

/// What a message of the session, or an answer to an action, leads to.
#[verifier::opaque]
pub open spec fn session_step(state: ViewerModel, message: Message) -> Option<Step> {
    match message {
        Message::SessionPoll => Some(
            Step {
                state,
                actions: if state.session.running {
                    seq![ActionModel::DrainSession]
                } else {
                    Seq::empty()
                },
            },
        ),
        Message::SessionClipboardPoll => Some(
            viewer::asking(state, ActionModel::ReadClipboard),
        ),
        Message::SessionRawEvent { id, event, ignored } => Some(
            session::event_came(
                state,
                id,
                event,
                ignored,
            ),
        ),
        Message::Session(event) => Some(
            session::session_told(state, event),
        ),
        Message::ClipboardRead(contents) => Some(
            viewer::asking(
                state,
                ActionModel::OfferClipboard(action::text_of(contents)),
            ),
        ),
        Message::ImeSinkChanged(value) => Some(
            viewer::quiet(session::ime_changed(state, value@)),
        ),
        Message::Reply(reply) => Some(
            replied(state, reply),
        ),
        _ => None,
    }
}

/// What a message at a point in time leads to.
#[verifier::opaque]
pub open spec fn step(state: ViewerModel, message: Message, now: nat) -> Step {
    match window_step(state, message) {
        Some(step) => step,
        None => match form_step(state, message) {
            Some(step) => step,
            None => match settings_step(state, message) {
                Some(step) => step,
                None => match toolbar_step(state, message, now) {
                    Some(step) => step,
                    None => match session_step(state, message) {
                        Some(step) => step,
                        None => viewer::quiet(state),
                    },
                },
            },
        },
    }
}

/// The first of two texts that is not empty.
fn text_or(text: &String, devices: &Vec<SavedDevice>, address: bool) -> (chosen: String)
    ensures
        chosen@ == if text@.len() > 0 {
            text@
        } else if devices@.len() > 0 {
            if address {
                devices@[0].address@
            } else {
                devices@[0].username@
            }
        } else {
            Seq::empty()
        },
{
    if !text.as_str().is_empty() {
        text.clone()
    } else if devices.len() > 0 {
        if address {
            devices[0].address.clone()
        } else {
            devices[0].username.clone()
        }
    } else {
        String::new()
    }
}

impl ConnectionForm {
    /// The form that the kept settings fill.
    pub fn new(config: &AppConfig) -> (form: Self)
        ensures
            form@ == initial_form(config@),
    {
        let devices = config::devices_from_cache(config);
        let address = text_or(&config.last_address, &devices, true);
        let username = text_or(&config.last_username, &devices, false);
        let (address, port) = endpoint::split_endpoint(address.as_str());
        let form = ConnectionForm {
            devices,
            selected_device: 0,
            previous_selected_device: 0,
            search: String::new(),
            address,
            port,
            username,
            password: String::new(),
            password_visible: false,
            has_saved_password: false,
            remember_password: config.remember_password,
            remember_device: config.remember_device,
        };
        assert(form@.search =~= Seq::<char>::empty());
        assert(form@.password =~= Seq::<char>::empty());
        assert(devices@.len() == form@.devices.len());
        assert(devices@.len() > 0 ==> form@.devices[0] == devices@[0]@);
        form
    }
}

impl Preferences {
    /// The preferences that were kept.
    pub fn new(config: &AppConfig) -> (preferences: Self)
        ensures
            preferences@ == initial_preferences(config@),
    {
        let rate = if config.frame_rate.as_str().is_empty() {
            frame_rate::frame_rate_from_interval(config.frame_interval_ms.as_str())
        } else {
            config.frame_rate.clone()
        };
        Preferences {
            quality: config::quality_from_cache(config.quality.as_str()),
            frame_rate: rate,
            settings_section: SettingsSection::KeyMapping,
            key_profile: config.key_profile.clone(),
            auto_adapt_keyboard: config.auto_adapt_keyboard,
            capture_system_shortcuts: config.capture_system_shortcuts,
            reverse_scroll: config.reverse_scroll,
            show_performance_hud: config.show_performance_hud,
            theme_preference: config::theme_from_cache(config.theme.as_str()),
            language: config::language_from_cache(config.language.as_str()),
            system_dark: false,
            mappings: keymap::profile_mappings(config.key_profile.as_str()),
        }
    }
}

/// What the viewer listens to besides its windows.
#[derive(Debug, Clone, Copy, PartialEq, Eq, Structural)]
pub struct SubscriptionPlan {
    /// The session's window ticks: its toolbar ages and the clipboard is read.
    pub session_ticks: bool,
    /// The session's frames come.
    pub session_frames: bool,
    /// Something moves.
    pub animation: bool,
}

/// How often the session's window ticks, in milliseconds.
pub const SESSION_TICK_MILLIS: u64 = 250;

/// How often something that moves is drawn, in milliseconds.
pub const ANIMATION_TICK_MILLIS: u64 = 16;

/// The kinds of events of a window.
#[derive(Debug, Clone, Copy, PartialEq, Eq, Structural)]
pub enum EventKind {
    Keyboard,
    Mouse,
    InputMethod,
    WindowUnfocused,
    Other,
}

/// Whether events of a kind are looked at for the session.
pub fn session_event_subscription(kind: EventKind) -> (wanted: bool)
    ensures
        wanted == !(kind is Other),
{
    kind != EventKind::Other
}

impl ArdViewer {
    /// The viewer with the settings that were kept.
    pub fn new(config: &AppConfig, now: Instant) -> (started: (Self, Vec<Action>))
        ensures
            (Step { state: started.0@, actions: action::all_actions(started.1@) }) == initial(
                config@,
                now@,
            ),
    {
        let form = ConnectionForm::new(config);
        let preferences = Preferences::new(config);
        let viewer = ArdViewer {
            windows: WindowState {
                open: BTreeMap::new(),
                maximized: BTreeSet::new(),
                pending_close: None,
                close_modal_target_visible: false,
                close_modal_hidden: true,
            },
            form,
            preferences,
            session: SessionView {
                zoom: 10,
                running: false,
                connection: ConnectionState::Idle,
                server_name: String::new(),
                error: None,
                pointer: None,
                ime_sink: String::new(),
                fullscreen: false,
                toolbar: Toolbar {
                    visible: true,
                    pinned: false,
                    dragging: false,
                    last_interaction: now,
                },
            },
            status: String::new(),
        };
        assert(viewer.status@ =~= Seq::<char>::empty());
        assert(viewer.session.server_name@ =~= Seq::<char>::empty());
        assert(viewer.session.ime_sink@ =~= Seq::<char>::empty());
        let mut actions = action::none();
        if viewer.form.remember_password {
            let endpoint = endpoint::format_endpoint(
                viewer.form.address.as_str(),
                viewer.form.port.as_str(),
            );
            action::push(
                &mut actions,
                Action::CheckPassword { endpoint, username: viewer.form.username.clone() },
            );
        }
        action::push(&mut actions, Action::SetDark(viewer.effective_dark()));
        action::push(&mut actions, Action::QuerySystemTheme);
        assert(action::all_actions(actions@) =~= initial(config@, now@).actions);
        (viewer, actions)
    }

    fn say_joined(&mut self, what: &str, detail: &str)
        ensures
            final(self)@ == viewer::saying(old(self)@, what@ + detail@),
    {
        self.status = text::joined(what, detail);
    }

    fn take_reply(&mut self, reply: Reply) -> (actions: Vec<Action>)
        ensures
            (Step { state: final(self)@, actions: action::all_actions(actions@) }) == replied(
                old(self)@,
                reply,
            ),
    {
        match reply {
            Reply::PasswordChecked(stored) => {
                self.form.has_saved_password = stored;
            },
            Reply::PasswordLoaded { endpoint, password } => {
                return self.take_password(endpoint, password);
            },
            Reply::PasswordStored { saved } => {
                self.form.has_saved_password = saved;
            },
            Reply::PasswordNotStored { error, report } => {
                if report {
                    self.say_joined("系统密钥库不可用：", error.as_str());
                }
            },
            Reply::PasswordNotRemoved(error) => {
                self.say_joined("移除系统密钥库密码失败：", error.as_str());
            },
            Reply::ConfigNotSaved(error) => {
                self.say_joined("保存配置失败：", error.as_str());
            },
            Reply::InputFailed(error) => {
                self.session.fail("远程输入失败：", error.as_str());
            },
            Reply::ClipboardFailed(error) => {
                self.session.fail("发送剪贴板失败：", error.as_str());
            },
            Reply::NoExportDirectory => {
                self.say("无法确定导出目录");
            },
            Reply::Exported(path) => {
                self.say_joined("快捷方式已导出到 ", path.as_str());
            },
            Reply::ExportFailed(error) => {
                self.say_joined("导出失败：", error.as_str());
            },
            Reply::RecordingFailed(error) => {
                self.status = error;
            },
        }
        action::none()
    }

    fn update_window(&mut self, message: Message) -> (result: Result<Vec<Action>, Message>)
        ensures
            match window_step(old(self)@, message) {
                Some(step) => {
                    &&& result matches Ok(actions)
                    &&& (Step { state: final(self)@, actions: action::all_actions(actions@) }) == step
                },
                None => result matches Err(m) && m == message && final(self)@ == old(self)@,
            },
    {
        proof {
            reveal(window_step);
        }
        match message {
            Message::WindowOpened(kind, id) => Ok(self.window_opened(kind, id)),
            Message::WindowClosed(id) => Ok(self.window_closed(id)),
            Message::WindowResized(id) => Ok(self.window_resized(id)),
            Message::WindowMaximizedChanged(id, maximized) => Ok({
                self.windows.set_maximized(id, maximized);
                action::none()
            }),
            Message::CloseRequested(id) => Ok(self.close_request(id)),
            Message::CancelClose => Ok({
                self.windows.cancel_close();
                action::none()
            }),
            Message::ConfirmClose => Ok(self.close_confirm()),
            Message::CloseWindow(id) => Ok(self.close_press(id)),
            Message::DragWindow(id) => Ok(action::one(Action::DragWindow(id))),
            Message::MinimizeWindow(id) => Ok(action::one(Action::MinimizeWindow(id))),
            Message::ToggleMaximizeWindow(id) => Ok(self.toggle_maximize(id)),
            Message::OpenSettings => Ok(self.open_settings()),
            Message::AnimationTick { close_modal_hidden } => Ok({
                self.windows.animate(close_modal_hidden);
                action::none()
            }),
            _ => Err(message),
        }
    }

    fn update_form(&mut self, message: Message) -> (result: Result<Vec<Action>, Message>)
        ensures
            match form_step(old(self)@, message) {
                Some(step) => {
                    &&& result matches Ok(actions)
                    &&& (Step { state: final(self)@, actions: action::all_actions(actions@) }) == step
                },
                None => result matches Err(m) && m == message && final(self)@ == old(self)@,
            },
    {
        proof {
            reveal(form_step);
        }
        match message {
            Message::SearchChanged(value) => Ok({
                self.form.search = value;
                action::none()
            }),
            Message::DeviceSelected(index) => Ok(self.select_device(index)),
            Message::AddressChanged(value) => Ok({
                self.form.change_address(value.as_str());
                action::none()
            }),
            Message::PortChanged(value) => Ok({
                self.form.change_port(value.as_str());
                action::none()
            }),
            Message::UsernameChanged(value) => Ok({
                self.form.change_username(value);
                action::none()
            }),
            Message::PasswordChanged(value) => Ok({
                self.form.change_password(value);
                action::none()
            }),
            Message::TogglePasswordVisibility => Ok({
                self.form.password_visible = !self.form.password_visible;
                action::none()
            }),
            Message::RememberPasswordChanged(value) => Ok(self.change_remember_password(value)),
            Message::RememberDeviceChanged(value) => Ok(self.change_remember_device(value)),
            Message::SaveDevice => Ok(self.save_device()),
            Message::Connect => Ok(self.connect()),
            Message::ManageDevices => Ok(self.remove_device()),
            _ => Err(message),
        }
    }

    fn update_settings(&mut self, message: Message) -> (result: Result<Vec<Action>, Message>)
        ensures
            match settings_step(old(self)@, message) {
                Some(step) => {
                    &&& result matches Ok(actions)
                    &&& (Step { state: final(self)@, actions: action::all_actions(actions@) }) == step
                },
                None => result matches Err(m) && m == message && final(self)@ == old(self)@,
            },
    {
        proof {
            reveal(settings_step);
        }
        match message {
            Message::InitialSystemTheme { dark } => Ok(self.start_with_theme(dark)),
            Message::ExportShortcuts => Ok(self.export_shortcuts()),
            Message::SettingsSectionSelected(section) => Ok(self.select_section(section)),
            Message::QualityChanged(quality) => Ok(self.change_quality(quality)),
            Message::FrameRateChanged(value) => Ok(self.change_frame_rate(value.as_str())),
            Message::KeyProfileChanged(value) => Ok(self.change_profile(value)),
            Message::AutoAdaptChanged(value) => Ok(self.change_auto_adapt(value)),
            Message::CaptureShortcutsChanged(value) => Ok(self.change_capture(value)),
            Message::PerformanceHudChanged(value) => Ok(self.change_hud(value)),
            Message::ThemePreferenceChanged(theme) => Ok(self.change_theme(theme)),
            Message::SystemThemeChanged { dark } => Ok(self.follow_system_theme(dark)),
            Message::CopyPreset => Ok(self.copy_preset()),
            Message::ResetMappings => Ok({
                self.reset_mappings();
                action::none()
            }),
            Message::AddMapping => Ok({
                self.add_mapping();
                action::none()
            }),
            Message::EditMapping(index) => Ok({
                self.edit_mapping(index);
                action::none()
            }),
            _ => Err(message),
        }
    }

    fn update_toolbar(&mut self, message: Message, now: Instant) -> (result: Result<
        Vec<Action>,
        Message,
    >)
        ensures
            match toolbar_step(old(self)@, message, now@) {
                Some(step) => {
                    &&& result matches Ok(actions)
                    &&& (Step { state: final(self)@, actions: action::all_actions(actions@) }) == step
                },
                None => result matches Err(m) && m == message && final(self)@ == old(self)@,
            },
    {
        proof {
            reveal(toolbar_step);
        }
        match message {
            Message::SessionAction(button) => Ok(self.press_button(button, now)),
            Message::ToggleFullscreen => Ok(self.toggle_fullscreen(now)),
            Message::SessionToolbarTick => Ok({
                self.session.toolbar.age(now);
                action::none()
            }),
            Message::ShowSessionToolbar => Ok({
                self.touch_session_toolbar(now);
                action::none()
            }),
            Message::SessionToolbarInteraction => Ok({
                self.touch_session_toolbar(now);
                action::none()
            }),
            Message::HideSessionToolbar => Ok({
                self.session.toolbar.collapse();
                action::none()
            }),
            Message::SessionToolbarPointerMoved => Ok(self.point_toolbar(now)),
            Message::SessionToolbarDragStarted => Ok(self.grab_toolbar(now)),
            Message::SessionToolbarDragEnded => Ok({
                self.session.toolbar.release(now);
                action::none()
            }),
            Message::ToggleSessionToolbarPin => Ok({
                self.session.toolbar.toggle_pin(now);
                action::none()
            }),
            _ => Err(message),
        }
    }

    fn update_session(&mut self, message: Message) -> (result: Result<Vec<Action>, Message>)
        ensures
            match session_step(old(self)@, message) {
                Some(step) => {
                    &&& result matches Ok(actions)
                    &&& (Step { state: final(self)@, actions: action::all_actions(actions@) }) == step
                },
                None => result matches Err(m) && m == message && final(self)@ == old(self)@,
            },
    {
        proof {
            reveal(session_step);
        }
        match message {
            Message::SessionPoll => Ok(self.poll_session()),
            Message::SessionClipboardPoll => Ok(action::one(Action::ReadClipboard)),
            Message::SessionRawEvent { id, event, ignored } => Ok(self.handle_session_raw_event(
                id,
                event,
                ignored,
            )),
            Message::Session(event) => Ok(self.handle_session_event(event)),
            Message::ClipboardRead(contents) => Ok(action::one(Action::OfferClipboard(contents))),
            Message::ImeSinkChanged(value) => Ok({
                self.change_ime(value.as_str());
                action::none()
            }),
            Message::Reply(reply) => Ok(self.take_reply(reply)),
            _ => Err(message),
        }
    }

    /// Takes a message at a point in time.
    pub fn update(&mut self, message: Message, now: Instant) -> (actions: Vec<Action>)
        ensures
            (Step { state: final(self)@, actions: action::all_actions(actions@) }) == step(
                old(self)@,
                message,
                now@,
            ),
    {
        proof {
            reveal(step);
        }
        let message = match self.update_window(message) {
            Ok(actions) => {
                return actions;
            },
            Err(message) => message,
        };
        let message = match self.update_form(message) {
            Ok(actions) => {
                return actions;
            },
            Err(message) => message,
        };
        let message = match self.update_settings(message) {
            Ok(actions) => {
                return actions;
            },
            Err(message) => message,
        };
        let message = match self.update_toolbar(message, now) {
            Ok(actions) => {
                return actions;
            },
            Err(message) => message,
        };
        match self.update_session(message) {
            Ok(actions) => actions,
            Err(_) => action::none(),
        }
    }

    /// What the viewer listens to; `in_transition` if an animation is not over.
    pub fn subscription(&self, in_transition: bool) -> (plan: SubscriptionPlan)
        ensures
            ({
                let open = viewer::first_window(self@.windows.open, WindowKind::Session) is Some;
                plan == SubscriptionPlan {
                    session_ticks: open,
                    session_frames: open && self@.session.running,
                    animation: in_transition || self@.session.connection is Connecting
                        || self@.session.connection is Reconnecting,
                }
            }),
    {
        let open = self.window_id(WindowKind::Session).is_some();
        let waiting = match &self.session.connection {
            ConnectionState::Connecting => true,
            ConnectionState::Reconnecting { .. } => true,
            _ => false,
        };
        SubscriptionPlan {
            session_ticks: open,
            session_frames: open && self.session.running,
            animation: in_transition || waiting,
        }
    }
}

/// Every message belongs to one part of the viewer, so that none is passed over.
pub proof fn law_every_message_is_handled(state: ViewerModel, message: Message, now: nat)
    ensures
        window_step(state, message) is Some || form_step(state, message) is Some || settings_step(
            state,
            message,
        ) is Some || toolbar_step(state, message, now) is Some || session_step(state, message) is Some,
{
    reveal(window_step);
    reveal(form_step);
    reveal(settings_step);
    reveal(toolbar_step);
    reveal(session_step);
}

/// Settings that were kept come back: the viewer that starts with what is kept of
/// a state has its preferences and its history.
pub proof fn law_kept_settings_come_back(state: ViewerModel, now: nat)
    ensures
        ({
            let started = initial(viewer::config_of(state), now).state;
            &&& started.preferences.quality == state.preferences.quality
            &&& started.preferences.key_profile == state.preferences.key_profile
            &&& started.preferences.auto_adapt_keyboard == state.preferences.auto_adapt_keyboard
            &&& started.preferences.capture_system_shortcuts
                == state.preferences.capture_system_shortcuts
            &&& started.preferences.reverse_scroll == state.preferences.reverse_scroll
            &&& started.preferences.show_performance_hud == state.preferences.show_performance_hud
            &&& started.preferences.theme_preference == state.preferences.theme_preference
            &&& started.preferences.language == state.preferences.language
            &&& started.preferences.frame_rate == state.preferences.frame_rate
            &&& started.form.remember_password == state.form.remember_password
            &&& started.form.remember_device == state.form.remember_device
            &&& started.form.devices.len() == state.form.devices.len()
            &&& forall|i: int|
                0 <= i < state.form.devices.len() ==> {
                    let device = #[trigger] started.form.devices[i];
                    &&& device.name == state.form.devices[i].name
                    &&& device.address == state.form.devices[i].address
                    &&& device.username == state.form.devices[i].username
                }
        }),
{
    config::law_quality_round_trip(state.preferences.quality);
    config::law_theme_round_trip(state.preferences.theme_preference);
    i18n::law_language_round_trip(state.preferences.language);
    if state.preferences.frame_rate.len() == 0 {
        frame_rate::lemma_no_rate_is_kept();
        assert(state.preferences.frame_rate =~= Seq::<char>::empty());
    }
}

/// The password is in no message that keeps the settings: only a request to store
/// it, or to start a session, holds it.
pub proof fn law_settings_hold_no_password(state: ViewerModel, password: Seq<char>)
    ensures
        viewer::config_of(state) == viewer::config_of(
            connection::with_form(state, FormModel { password, ..state.form }),
        ),
{
}

/// The part of the viewer that a message belongs to: the windows themselves, the
/// connection window, the settings, the toolbar, or the session.
pub open spec fn part_of(message: Message) -> nat {
    match message {
        Message::WindowOpened(..) => 0,
        Message::WindowClosed(..) => 0,
        Message::WindowResized(..) => 0,
        Message::WindowMaximizedChanged(..) => 0,
        Message::CloseRequested(..) => 0,
        Message::CancelClose => 0,
        Message::ConfirmClose => 0,
        Message::CloseWindow(..) => 0,
        Message::DragWindow(..) => 0,
        Message::MinimizeWindow(..) => 0,
        Message::ToggleMaximizeWindow(..) => 0,
        Message::OpenSettings => 0,
        Message::AnimationTick { .. } => 0,
        Message::SearchChanged(..) => 1,
        Message::DeviceSelected(..) => 1,
        Message::AddressChanged(..) => 1,
        Message::PortChanged(..) => 1,
        Message::UsernameChanged(..) => 1,
        Message::PasswordChanged(..) => 1,
        Message::TogglePasswordVisibility => 1,
        Message::RememberPasswordChanged(..) => 1,
        Message::RememberDeviceChanged(..) => 1,
        Message::SaveDevice => 1,
        Message::Connect => 1,
        Message::ManageDevices => 1,
        Message::InitialSystemTheme { .. } => 2,
        Message::ExportShortcuts => 2,
        Message::SettingsSectionSelected(..) => 2,
        Message::QualityChanged(..) => 2,
        Message::FrameRateChanged(..) => 2,
        Message::KeyProfileChanged(..) => 2,
        Message::AutoAdaptChanged(..) => 2,
        Message::CaptureShortcutsChanged(..) => 2,
        Message::PerformanceHudChanged(..) => 2,
        Message::ThemePreferenceChanged(..) => 2,
        Message::SystemThemeChanged { .. } => 2,
        Message::CopyPreset => 2,
        Message::ResetMappings => 2,
        Message::AddMapping => 2,
        Message::EditMapping(..) => 2,
        Message::SessionAction(..) => 3,
        Message::ToggleFullscreen => 3,
        Message::SessionToolbarTick => 3,
        Message::ShowSessionToolbar => 3,
        Message::SessionToolbarInteraction => 3,
        Message::HideSessionToolbar => 3,
        Message::SessionToolbarPointerMoved => 3,
        Message::SessionToolbarDragStarted => 3,
        Message::SessionToolbarDragEnded => 3,
        Message::ToggleSessionToolbarPin => 3,
        Message::SessionPoll => 4,
        Message::SessionClipboardPoll => 4,
        Message::SessionRawEvent { .. } => 4,
        Message::Session(..) => 4,
        Message::ClipboardRead(..) => 4,
        Message::ImeSinkChanged(..) => 4,
        Message::Reply(..) => 4,
    }
}

proof fn lemma_windows_part(state: ViewerModel, message: Message)
    ensures
        window_step(state, message) is Some <==> part_of(message) == 0,
{
    reveal(window_step);
}

proof fn lemma_form_part(state: ViewerModel, message: Message)
    ensures
        form_step(state, message) is Some <==> part_of(message) == 1,
{
    reveal(form_step);
}

proof fn lemma_settings_part(state: ViewerModel, message: Message)
    ensures
        settings_step(state, message) is Some <==> part_of(message) == 2,
{
    reveal(settings_step);
}

proof fn lemma_toolbar_part(state: ViewerModel, message: Message, now: nat)
    ensures
        toolbar_step(state, message, now) is Some <==> part_of(message) == 3,
{
    reveal(toolbar_step);
}

proof fn lemma_session_part(state: ViewerModel, message: Message)
    ensures
        session_step(state, message) is Some <==> part_of(message) == 4,
{
    reveal(session_step);
}

/// Each message leads to what is said of it in its own part of the viewer.
pub proof fn law_messages_reach_their_part(state: ViewerModel, message: Message, now: nat)
    ensures
        part_of(message) <= 4,
        part_of(message) == 0 ==> window_step(state, message) == Some(step(state, message, now)),
        part_of(message) == 1 ==> form_step(state, message) == Some(step(state, message, now)),
        part_of(message) == 2 ==> settings_step(state, message) == Some(step(state, message, now)),
        part_of(message) == 3 ==> toolbar_step(state, message, now) == Some(
            step(state, message, now),
        ),
        part_of(message) == 4 ==> session_step(state, message) == Some(step(state, message, now)),
{
    reveal(step);
    lemma_windows_part(state, message);
    lemma_form_part(state, message);
    lemma_settings_part(state, message);
    lemma_toolbar_part(state, message, now);
    lemma_session_part(state, message);
}

} // verus!
