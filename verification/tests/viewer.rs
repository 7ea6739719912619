use ard_viewer::clock::{Duration, Instant};
use ard_viewer::config::{AppConfig, CachedDevice};
use ard_viewer::state::{
    ArdVideoQuality, ConnectionState, DeviceState, SavedDevice, SettingsSection, ThemePreference,
    WindowKind,
};
use ard_viewer::viewer::action::{Action, InputKind};
use ard_viewer::viewer::message::{Message, RawEvent, Reply, SessionAction, SessionEvent};
use ard_viewer::viewer::update::{session_event_subscription, EventKind, SubscriptionPlan};
use ard_viewer::viewer::ArdViewer;

fn at(millis: u64) -> Instant {
    Instant::at(Duration::from_millis(millis))
}

fn started() -> ArdViewer {
    ArdViewer::new(&AppConfig::default(), at(0)).0
}

fn update(app: &mut ArdViewer, message: Message) -> Vec<Action> {
    app.update(message, at(0))
}

#[test]
fn app_starts_in_connection_window_state() {
    let (app, _task) = ArdViewer::new(&AppConfig::default(), at(0));
    assert_eq!(
        app.preferences.settings_section,
        SettingsSection::KeyMapping
    );
    assert_eq!(app.preferences.quality, ArdVideoQuality::Adaptive);
    assert_eq!(app.preferences.theme_preference, ThemePreference::System);
    assert!(app.session.toolbar.visible);
    assert!(!app.session.toolbar.pinned);
    assert_eq!(app.windows.pending_close, None);
    assert_eq!(app.form.port, "5900");
}

#[test]
fn endpoint_uses_the_separate_port_and_supports_pasted_addresses() {
    let mut app = started();
    app.form.address = "host.local".into();
    app.form.port = "5999".into();
    assert_eq!(app.remote_endpoint(), Ok("host.local:5999".into()));

    let _task = update(
        &mut app,
        Message::AddressChanged("other.local:5901".into()),
    );
    assert_eq!(app.form.address, "other.local");
    assert_eq!(app.form.port, "5901");
    assert_eq!(app.remote_endpoint(), Ok("other.local:5901".into()));

    app.form.address = "other.local:not-a-port".into();
    assert_eq!(app.remote_endpoint(), Err(()));
}

#[test]
fn empty_port_uses_ard_default() {
    let mut app = started();
    app.form.address = "host.local".into();
    app.form.port.clear();

    assert_eq!(app.remote_endpoint(), Ok("host.local:5900".into()));
}

#[test]
fn save_device_adds_the_current_address_and_selects_it() {
    let mut app = started();
    app.form.address = "new-host.local:5900".into();
    let previous_len = app.form.devices.len();

    let _task = update(&mut app, Message::SaveDevice);

    assert_eq!(app.form.devices.len(), previous_len + 1);
    assert_eq!(app.form.selected_device, previous_len);
    assert_eq!(app.form.devices[previous_len].name, "new-host.local");
    assert_eq!(app.form.devices[previous_len].state, DeviceState::Saved);
}

fn device(name: &str, address: &str, username: &str) -> SavedDevice {
    SavedDevice {
        name: name.into(),
        address: address.into(),
        username: username.into(),
        state: DeviceState::RecentlyUsed,
    }
}

#[test]
fn history_is_retained_when_auto_add_is_disabled() {
    let mut app = started();
    app.form
        .devices
        .push(device("history-host", "history-host:5900", "tester"));

    let _task = update(&mut app, Message::RememberDeviceChanged(false));

    assert_eq!(app.form.devices.len(), 1);
    assert_eq!(app.form.devices[0].address, "history-host:5900");
}

#[test]
fn close_request_requires_confirmation() {
    let mut app = started();
    let id = 7;
    app.windows.open.insert(id, WindowKind::Session);

    let _task = update(&mut app, Message::CloseRequested(id));
    assert_eq!(app.windows.pending_close, Some(id));

    let _task = update(&mut app, Message::CancelClose);
    assert_eq!(app.windows.pending_close, None);
    assert!(app.windows.open.contains_key(&id));
}

#[test]
fn settings_close_request_skips_confirmation() {
    let mut app = started();
    let id = 7;
    app.windows.open.insert(id, WindowKind::Settings);

    let _task = update(&mut app, Message::CloseRequested(id));

    assert_eq!(app.windows.pending_close, None);
    assert!(!app.windows.close_modal_target_visible);
}

#[test]
fn session_toolbar_auto_collapses_unless_pinned() {
    let mut app = started();
    let now = at(60_000);
    app.session.toolbar.last_interaction = at(55_000);

    let _task = app.update(Message::SessionToolbarTick, now);
    assert!(!app.session.toolbar.visible);

    let _task = app.update(Message::ToggleSessionToolbarPin, now);
    assert!(app.session.toolbar.visible);
    assert!(app.session.toolbar.pinned);

    app.session.toolbar.last_interaction = at(55_000);
    let _task = app.update(Message::SessionToolbarTick, now);
    assert!(app.session.toolbar.visible);
}

#[test]
fn maximized_window_state_is_tracked_for_square_outer_corners() {
    let mut app = started();
    let id = 7;

    let _task = update(&mut app, Message::WindowMaximizedChanged(id, true));
    assert!(app.is_window_maximized(id));

    let _task = update(&mut app, Message::WindowMaximizedChanged(id, false));
    assert!(!app.is_window_maximized(id));
}

#[test]
fn theme_preference_can_follow_or_override_the_system() {
    let mut app = started();

    let _task = update(&mut app, Message::SystemThemeChanged { dark: true });
    assert!(app.effective_dark());

    let _task = update(
        &mut app,
        Message::ThemePreferenceChanged(ThemePreference::Light),
    );
    assert!(!app.effective_dark());

    let _task = update(&mut app, Message::SystemThemeChanged { dark: false });
    let _task = update(
        &mut app,
        Message::ThemePreferenceChanged(ThemePreference::Dark),
    );
    assert!(app.effective_dark());
}

fn connection_event(state: ConnectionState, label: &str) -> SessionEvent {
    SessionEvent::State {
        state,
        label: label.into(),
    }
}

#[test]
fn session_connection_transitions_cover_disconnect_and_reconnect() {
    let mut app = started();
    let _ = app.handle_session_event(connection_event(ConnectionState::Connecting, "正在连接"));
    assert!(matches!(
        app.session.connection,
        ConnectionState::Connecting
    ));

    let _ = app.handle_session_event(connection_event(
        ConnectionState::Disconnected("transport lost".into()),
        "连接已断开：transport lost",
    ));
    assert!(app.status.contains("transport lost"));

    let _ = app.handle_session_event(connection_event(
        ConnectionState::Reconnecting { attempt: 1 },
        "正在重连（第 1 次）",
    ));
    assert!(app.status.contains("正在重连"));

    let _ = app.handle_session_event(connection_event(ConnectionState::Connected, "已连接"));
    assert!(matches!(app.session.connection, ConnectionState::Connected));
}

#[test]
fn session_buttons_change_zoom_shortcut_and_toolbar_state() {
    let mut app = started();
    let _ = update(&mut app, Message::SessionAction(SessionAction::Zoom));
    assert!(app.session.zoom > 10);

    let _ = update(&mut app, Message::SessionAction(SessionAction::Fit));
    assert_eq!(app.session.zoom, 10);

    let shortcuts = app.preferences.capture_system_shortcuts;
    let _ = update(
        &mut app,
        Message::SessionAction(SessionAction::SystemShortcut),
    );
    assert_ne!(app.preferences.capture_system_shortcuts, shortcuts);
    let _ = update(
        &mut app,
        Message::SessionAction(SessionAction::SystemShortcut),
    );
    assert_eq!(app.preferences.capture_system_shortcuts, shortcuts);

    let _ = update(&mut app, Message::ToggleSessionToolbarPin);
    assert!(app.session.toolbar.pinned);
}

#[test]
fn zoom_goes_round_in_tenths() {
    let mut app = started();
    let mut seen = Vec::new();
    for _ in 0..9 {
        update(&mut app, Message::SessionAction(SessionAction::Zoom));
        seen.push(app.session.zoom);
    }
    assert_eq!(seen, vec![11, 12, 13, 14, 6, 7, 8, 9, 10]);
    update(&mut app, Message::SessionAction(SessionAction::Zoom));
    update(&mut app, Message::SessionAction(SessionAction::Undo));
    assert_eq!(app.session.zoom, 10);
}

fn saved_config() -> AppConfig {
    AppConfig {
        devices: vec![CachedDevice {
            name: "A".into(),
            address: "a.local:5901".into(),
            username: "ann".into(),
        }],
        remember_password: true,
        language: "en".into(),
        ..AppConfig::default()
    }
}

#[test]
fn kept_settings_fill_the_form() {
    let (app, actions) = ArdViewer::new(&saved_config(), at(0));
    assert_eq!(app.form.address, "a.local");
    assert_eq!(app.form.port, "5901");
    assert_eq!(app.form.username, "ann");
    assert!(matches!(
        &actions[..],
        [
            Action::CheckPassword { endpoint, username },
            Action::SetDark(false),
            Action::QuerySystemTheme,
        ] if endpoint == "a.local:5901" && username == "ann"
    ));
    let config = app.current_config();
    assert_eq!(config.last_address, "a.local:5901");
    assert_eq!(config.last_username, "ann");
    assert_eq!(config.language, "en");
    assert_eq!(config.devices.len(), 1);
    let (again, _) = ArdViewer::new(&config, at(1));
    assert_eq!(again.form.port, "5901");
    assert_eq!(again.preferences.frame_rate, app.preferences.frame_rate);
}

#[test]
fn an_empty_frame_rate_comes_back_empty() {
    let (mut app, _) = ArdViewer::new(&saved_config(), at(0));
    update(&mut app, Message::FrameRateChanged(String::new()));
    assert_eq!(app.preferences.frame_rate, "");
    let (again, _) = ArdViewer::new(&app.current_config(), at(1));
    assert_eq!(again.preferences.frame_rate, "");
}

#[test]
fn the_first_window_opens_when_the_theme_is_known() {
    let mut app = started();
    let actions = update(&mut app, Message::InitialSystemTheme { dark: true });
    assert!(matches!(
        &actions[..],
        [
            Action::SetDark(true),
            Action::OpenWindow(WindowKind::Connection)
        ]
    ));
}

fn form(app: &mut ArdViewer) {
    app.form.address = "host.local".into();
    app.form.username = " ann ".into();
    app.form.password = "secret".into();
    app.form.remember_password = true;
    app.form.remember_device = true;
}

#[test]
fn incomplete_connections_are_refused() {
    let mut app = started();
    assert!(update(&mut app, Message::Connect).is_empty());
    assert_eq!(app.status, "请输入设备地址和用户名");
    form(&mut app);
    app.form.port = "0".into();
    assert!(update(&mut app, Message::Connect).is_empty());
    assert_eq!(app.status, "请输入有效端口（1–65535）");
    app.form.port = "5900".into();
    app.form.password.clear();
    assert!(update(&mut app, Message::Connect).is_empty());
    assert_eq!(app.status, "请输入密码");
    app.form.address = "host:x".into();
    assert!(update(&mut app, Message::SaveDevice).is_empty());
    assert_eq!(app.status, "请输入有效的设备地址和端口");
    assert!(!app.session.running);
}

#[test]
fn a_connection_starts_a_session_in_its_window() {
    let mut app = started();
    form(&mut app);
    app.preferences.frame_rate = "60".into();
    let actions = update(&mut app, Message::Connect);
    match &actions[..] {
        [Action::StorePassword {
            address,
            username,
            password,
            report,
        }, Action::SaveConfig { config, .. }, Action::ClearInput,
        Action::StartSession(session), Action::OpenWindow(WindowKind::Session)] =>
        {
            assert_eq!(address, "host.local:5900");
            assert_eq!(username, " ann ");
            assert_eq!(password.as_deref(), Some("secret"));
            assert!(!report);
            assert_eq!(config.devices.len(), 1);
            assert_eq!(session.address, "host.local:5900");
            assert_eq!(session.username, "ann");
            assert_eq!(session.password, "secret");
            assert_eq!(session.frame_interval, Duration::from_nanos(16_666_667));
        }
        actions => panic!("{actions:?}"),
    }
    assert!(app.session.running);
    assert_eq!(app.form.devices[0].state, DeviceState::RecentlyUsed);
    assert_eq!(app.status, "正在当前 Session 窗口中连接…");

    // Connecting again leaves the running session first.
    app.windows.open.insert(3, WindowKind::Session);
    let actions = update(&mut app, Message::Connect);
    assert!(matches!(actions[2], Action::StopSession));
    assert!(matches!(actions.last(), Some(Action::FocusWindow(3))));
    assert_eq!(app.form.devices.len(), 1);
}

#[test]
fn stored_passwords_are_loaded_before_connecting() {
    let mut app = started();
    form(&mut app);
    app.form.password.clear();
    update(&mut app, Message::Reply(Reply::PasswordChecked(true)));
    let actions = update(&mut app, Message::Connect);
    assert!(matches!(
        &actions[..],
        [Action::LoadPassword { endpoint, .. }] if endpoint == "host.local:5900"
    ));
    let loaded = |password: Option<&str>| {
        Message::Reply(Reply::PasswordLoaded {
            endpoint: "host.local:5900".into(),
            password: password.map(str::to_owned),
        })
    };
    for unusable in [None, Some("")] {
        app.form.has_saved_password = true;
        assert!(update(&mut app, loaded(unusable)).is_empty());
        assert_eq!(app.status, "保存的密码不可用，请重新输入");
        assert!(!app.form.has_saved_password && !app.session.running);
    }
    let actions = update(&mut app, loaded(Some("secret")));
    assert!(actions
        .iter()
        .any(|action| matches!(action, Action::StartSession(s) if s.password == "secret")));
    // A loaded password is not stored once more.
    assert!(!actions
        .iter()
        .any(|action| matches!(action, Action::StorePassword { .. })));
}

#[test]
fn forgotten_passwords_are_removed() {
    let mut app = started();
    form(&mut app);
    app.form.has_saved_password = true;
    let actions = update(&mut app, Message::RememberPasswordChanged(false));
    assert!(matches!(
        &actions[..],
        [Action::RemovePassword { address, .. }, Action::SaveConfig { .. }]
            if address == "host.local:5900"
    ));
    assert!(!app.form.has_saved_password);
    let actions = update(&mut app, Message::SaveDevice);
    assert!(matches!(
        &actions[1],
        Action::StorePassword { password: None, report: true, .. }
    ));
    assert_eq!(app.status, "已加入历史连接");
    update(&mut app, Message::SaveDevice);
    assert_eq!(app.status, "历史连接已更新");
    assert_eq!(app.form.devices.len(), 1);
}

#[test]
fn devices_can_be_selected_and_removed() {
    let mut app = started();
    app.form.remember_password = true;
    app.form.devices = vec![
        device("A", "a.local:5900", "ann"),
        device("B", "b.local:5901", "bob"),
    ];
    let actions = update(&mut app, Message::DeviceSelected(1));
    assert!(matches!(
        &actions[..],
        [Action::RestartDeviceTransition, Action::CheckPassword { endpoint, .. }]
            if endpoint == "b.local:5901"
    ));
    assert_eq!(app.form.address, "b.local");
    assert_eq!(app.form.port, "5901");
    assert_eq!(app.form.previous_selected_device, 0);
    assert!(update(&mut app, Message::DeviceSelected(9)).is_empty());
    let actions = update(&mut app, Message::ManageDevices);
    assert!(matches!(
        &actions[0],
        Action::RemovePassword { address, username }
            if address == "b.local:5901" && username == "bob"
    ));
    assert_eq!(app.form.devices.len(), 1);
    assert_eq!(app.form.selected_device, 0);
    assert_eq!(app.status, "已移除所选历史连接");
    update(&mut app, Message::ManageDevices);
    assert!(update(&mut app, Message::ManageDevices).is_empty());
}

#[test]
fn typed_fields_are_cleaned() {
    let mut app = started();
    update(&mut app, Message::PortChanged("5x9 00123".into()));
    assert_eq!(app.form.port, "59001");
    update(&mut app, Message::PasswordChanged("secret".into()));
    update(&mut app, Message::UsernameChanged("bob".into()));
    assert_eq!((app.form.username.as_str(), app.form.password.as_str()), ("bob", ""));
    update(&mut app, Message::SearchChanged("mac".into()));
    assert_eq!(app.form.search, "mac");
    update(&mut app, Message::TogglePasswordVisibility);
    assert!(app.form.password_visible);
    update(&mut app, Message::ImeSinkChanged("一二三四五六七八九".into()));
    assert_eq!(app.session.ime_sink, "二三四五六七八九");
}

#[test]
fn windows_end_what_they_show() {
    let mut app = started();
    update(&mut app, Message::WindowOpened(WindowKind::Connection, 1));
    let actions = update(&mut app, Message::WindowOpened(WindowKind::Session, 2));
    assert!(matches!(actions[..], [Action::DisableTitlebarDrag(2)]));
    app.session.running = true;
    app.session.server_name = "mac".into();
    assert_eq!(app.title(2), "mac — ARD Viewer");
    assert_eq!(app.title(1), "ARD Viewer — Connect");
    assert_eq!(app.title(9), "ARD Viewer");
    let actions = update(&mut app, Message::WindowResized(2));
    assert!(matches!(
        actions[..],
        [Action::FitSession(2), Action::QueryMaximized(2)]
    ));
    let actions = update(&mut app, Message::WindowClosed(2));
    assert!(matches!(
        actions[..],
        [Action::StopSession, Action::ClearInput]
    ));
    assert!(!app.session.running);
    let actions = update(&mut app, Message::WindowClosed(1));
    assert!(matches!(actions.last(), Some(Action::Exit)));
    assert_eq!(app.window_id(WindowKind::Connection), None);
}

#[test]
fn closing_is_confirmed_once() {
    let mut app = started();
    update(&mut app, Message::WindowOpened(WindowKind::Connection, 1));
    let actions = update(&mut app, Message::CloseWindow(1));
    assert!(matches!(
        actions[..],
        [Action::RestartCloseModal, Action::RevealAndFocus(1)]
    ));
    assert_eq!(app.shown_in(1), Some((WindowKind::Connection, true)));
    update(
        &mut app,
        Message::AnimationTick {
            close_modal_hidden: false,
        },
    );
    update(&mut app, Message::CancelClose);
    // The question stays until nothing of it is to be seen.
    assert_eq!(app.windows.pending_close, Some(1));
    update(
        &mut app,
        Message::AnimationTick {
            close_modal_hidden: true,
        },
    );
    assert_eq!(app.windows.pending_close, None);
    assert!(update(&mut app, Message::ConfirmClose).is_empty());
    update(&mut app, Message::CloseWindow(1));
    let actions = update(&mut app, Message::ConfirmClose);
    assert!(matches!(
        actions[..],
        [Action::RestartCloseModal, Action::CloseWindow(1)]
    ));
    assert_eq!(app.windows.pending_close, None);
}

#[test]
fn title_bars_ask_the_system() {
    let mut app = started();
    update(&mut app, Message::WindowOpened(WindowKind::Connection, 1));
    assert!(matches!(
        update(&mut app, Message::DragWindow(1))[..],
        [Action::DragWindow(1)]
    ));
    assert!(matches!(
        update(&mut app, Message::MinimizeWindow(1))[..],
        [Action::MinimizeWindow(1)]
    ));
    assert!(matches!(
        update(&mut app, Message::ToggleMaximizeWindow(1))[..],
        [Action::MaximizeWindow(1, true)]
    ));
    assert!(matches!(
        update(&mut app, Message::ToggleMaximizeWindow(1))[..],
        [Action::MaximizeWindow(1, false)]
    ));
    assert!(matches!(
        update(&mut app, Message::OpenSettings)[..],
        [Action::OpenSettingsNear(1)]
    ));
    update(&mut app, Message::WindowOpened(WindowKind::Settings, 5));
    assert!(matches!(
        update(&mut app, Message::OpenSettings)[..],
        [Action::FocusWindow(5)]
    ));
    assert!(matches!(
        update(&mut app, Message::CloseWindow(5))[..],
        [Action::CloseWindow(5)]
    ));
}

#[test]
fn settings_are_kept_when_they_change() {
    let mut app = started();
    for message in [
        Message::QualityChanged(ArdVideoQuality::Low),
        Message::FrameRateChanged("030".into()),
        Message::AutoAdaptChanged(false),
        Message::CaptureShortcutsChanged(false),
        Message::PerformanceHudChanged(true),
        Message::KeyProfileChanged("游戏".into()),
        Message::CopyPreset,
    ] {
        let actions = update(&mut app, message);
        assert!(matches!(
            &actions[..],
            [Action::SaveConfig { report: true, .. }]
        ));
    }
    assert_eq!(app.preferences.quality, ArdVideoQuality::Low);
    assert_eq!(app.preferences.key_profile, "游戏 副本");
    assert_eq!(app.status, "已复制按键预设");
    update(&mut app, Message::CopyPreset);
    assert_eq!(app.preferences.key_profile, "游戏 副本");

    update(&mut app, Message::ResetMappings);
    let count = app.preferences.mappings.len();
    assert_eq!(app.status, "按键映射已恢复默认");
    update(&mut app, Message::AddMapping);
    assert_eq!(app.preferences.mappings.len(), count + 1);
    update(&mut app, Message::EditMapping(count));
    assert_eq!(app.preferences.mappings.len(), count);
    assert_eq!(app.status, "已移除按键映射");
    update(&mut app, Message::EditMapping(count));
    assert_eq!(app.preferences.mappings.len(), count);
    assert!(matches!(
        &update(&mut app, Message::ExportShortcuts)[..],
        [Action::ExportShortcuts(mappings)] if mappings.len() == count
    ));
    assert!(matches!(
        update(
            &mut app,
            Message::SettingsSectionSelected(SettingsSection::Display)
        )[..],
        [Action::RestartSettingsTransition]
    ));
    assert!(update(
        &mut app,
        Message::SettingsSectionSelected(SettingsSection::Display)
    )
    .is_empty());
}

#[test]
fn answers_are_shown_to_the_user() {
    let mut app = started();
    for (reply, status) in [
        (
            Reply::PasswordNotStored {
                error: "e".into(),
                report: true,
            },
            "系统密钥库不可用：e",
        ),
        (
            Reply::PasswordNotRemoved("e".into()),
            "移除系统密钥库密码失败：e",
        ),
        (Reply::ConfigNotSaved("e".into()), "保存配置失败：e"),
        (Reply::NoExportDirectory, "无法确定导出目录"),
        (Reply::Exported("/x".into()), "快捷方式已导出到 /x"),
        (Reply::RecordingFailed("r".into()), "r"),
        (Reply::ExportFailed("e".into()), "导出失败：e"),
        (
            Reply::PasswordNotStored {
                error: "f".into(),
                report: false,
            },
            "导出失败：e",
        ),
    ] {
        update(&mut app, Message::Reply(reply));
        assert_eq!(app.status, status);
    }
    update(&mut app, Message::Reply(Reply::InputFailed("e".into())));
    assert_eq!(app.session.error.as_deref(), Some("远程输入失败：e"));
    update(&mut app, Message::Reply(Reply::ClipboardFailed("e".into())));
    assert_eq!(app.session.error.as_deref(), Some("发送剪贴板失败：e"));
    update(
        &mut app,
        Message::Reply(Reply::PasswordStored { saved: true }),
    );
    assert!(app.form.has_saved_password);
}

#[test]
fn session_events_reach_the_window() {
    let mut app = started();
    let actions = update(
        &mut app,
        Message::Session(SessionEvent::RenderFailed("e".into())),
    );
    assert!(actions.is_empty());
    assert_eq!(app.session.error.as_deref(), Some("渲染失败：e"));
    let actions = update(&mut app, Message::Session(SessionEvent::RenderRecovered));
    assert!(actions.is_empty());
    assert_eq!(app.session.error, None);
    let actions = update(
        &mut app,
        Message::Session(SessionEvent::Connected {
            server_name: "mac".into(),
        }),
    );
    assert!(matches!(actions[..], [Action::AttachInput]));
    assert_eq!(app.session.server_name, "mac");
    assert_eq!(app.session.error, None);
    assert!(matches!(
        &update(
            &mut app,
            Message::Session(SessionEvent::Clipboard("c".into()))
        )[..],
        [Action::ApplyRemoteClipboard(text)] if text == "c"
    ));
    assert!(matches!(
        update(
            &mut app,
            Message::Session(connection_event(
                ConnectionState::Failed("e".into()),
                "失败"
            ))
        )[..],
        [Action::ClearInput]
    ));
    assert!(update(&mut app, Message::SessionPoll).is_empty());
    app.session.running = true;
    assert!(matches!(
        update(&mut app, Message::SessionPoll)[..],
        [Action::DrainSession]
    ));
    assert!(matches!(
        update(&mut app, Message::SessionClipboardPoll)[..],
        [Action::ReadClipboard]
    ));
    assert!(matches!(
        &update(&mut app, Message::ClipboardRead(Some("c".into())))[..],
        [Action::OfferClipboard(Some(text))] if text == "c"
    ));
}

fn raw(app: &mut ArdViewer, id: u64, event: RawEvent, ignored: bool) -> Vec<Action> {
    update(app, Message::SessionRawEvent { id, event, ignored })
}

#[test]
fn input_goes_to_a_running_session_only() {
    let mut app = started();
    app.windows.open.insert(2, WindowKind::Session);
    assert!(raw(&mut app, 2, RawEvent::KeyReleased, false).is_empty());
    app.session.running = true;
    assert!(raw(&mut app, 3, RawEvent::KeyReleased, false).is_empty());
    let actions = raw(&mut app, 2, RawEvent::CursorMoved(Some((4, 5))), true);
    assert!(matches!(
        actions[..],
        [Action::ForwardInput {
            input: InputKind::CursorMoved(Some((4, 5))),
            ..
        }]
    ));
    assert_eq!(app.session.pointer, Some((4, 5)));
    raw(&mut app, 2, RawEvent::CursorLeft, true);
    assert_eq!(app.session.pointer, None);
    // A press that a button of the window took stays here.
    assert!(raw(&mut app, 2, RawEvent::ButtonPressed, false).is_empty());
    assert_eq!(raw(&mut app, 2, RawEvent::ButtonPressed, true).len(), 1);
    assert!(matches!(
        raw(&mut app, 2, RawEvent::KeyPressed { paste: true }, false)[..],
        [Action::SuppressPaste, Action::ReadClipboard]
    ));
    for (event, input) in [
        (RawEvent::ButtonReleased, InputKind::ButtonReleased),
        (RawEvent::WheelScrolled, InputKind::Wheel),
        (RawEvent::ModifiersChanged, InputKind::ModifiersChanged),
        (
            RawEvent::KeyPressed { paste: false },
            InputKind::KeyPressed,
        ),
        (RawEvent::KeyReleased, InputKind::KeyReleased),
        (RawEvent::ImeOpened, InputKind::ImeOpened),
        (RawEvent::ImePreedit, InputKind::ImePreedit),
        (RawEvent::ImeCommit, InputKind::ImeCommit),
        (RawEvent::ImeClosed, InputKind::ImeClosed),
        (RawEvent::Unfocused, InputKind::FocusLost),
    ] {
        match &raw(&mut app, 2, event, true)[..] {
            [Action::ForwardInput { input: sent, .. }] => assert_eq!(*sent, input),
            actions => panic!("{actions:?}"),
        }
    }
    assert!(raw(&mut app, 2, RawEvent::Other, true).is_empty());
}

#[test]
fn the_toolbar_can_be_moved_and_hidden() {
    let mut app = started();
    assert!(update(&mut app, Message::SessionToolbarPointerMoved).is_empty());
    assert!(matches!(
        update(&mut app, Message::SessionToolbarDragStarted)[..],
        [Action::StartToolbarDrag]
    ));
    assert!(matches!(
        update(&mut app, Message::SessionToolbarPointerMoved)[..],
        [Action::DragToolbar]
    ));
    app.update(Message::SessionToolbarTick, at(60_000));
    assert!(app.session.toolbar.visible);
    app.update(Message::SessionToolbarDragEnded, at(60_000));
    assert!(!app.session.toolbar.dragging);
    app.update(Message::HideSessionToolbar, at(60_000));
    assert!(!app.session.toolbar.visible);
    app.update(Message::ShowSessionToolbar, at(61_000));
    assert!(app.session.toolbar.visible);
    app.update(Message::SessionToolbarTick, at(64_999));
    assert!(app.session.toolbar.visible);
    app.update(Message::SessionToolbarTick, at(65_000));
    assert!(!app.session.toolbar.visible);
    app.windows.open.insert(2, WindowKind::Session);
    assert!(matches!(
        update(&mut app, Message::ToggleFullscreen)[..],
        [Action::SetFullscreen(2, true)]
    ));
    assert!(matches!(
        update(&mut app, Message::SessionAction(SessionAction::Input))[..],
        [Action::FocusWindow(2), Action::FocusIme]
    ));
    assert!(matches!(
        update(&mut app, Message::SessionAction(SessionAction::Clipboard))[..],
        [Action::ReadClipboard]
    ));
}

#[test]
fn ticks_are_asked_for_while_they_are_needed() {
    let mut app = started();
    assert_eq!(
        app.subscription(false),
        SubscriptionPlan {
            session_ticks: false,
            session_frames: false,
            animation: false,
        }
    );
    app.windows.open.insert(2, WindowKind::Session);
    app.session.running = true;
    let plan = app.subscription(true);
    assert!(plan.session_ticks && plan.session_frames && plan.animation);
    for (kind, wanted) in [
        (EventKind::Keyboard, true),
        (EventKind::Mouse, true),
        (EventKind::InputMethod, true),
        (EventKind::WindowUnfocused, true),
        (EventKind::Other, false),
    ] {
        assert_eq!(session_event_subscription(kind), wanted);
    }
}
