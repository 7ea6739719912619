//! What the messages do for the user, stated of the viewer as a whole.

use crate::endpoint;
use crate::frame_rate;
use crate::keymap;
use crate::state::{
    ArdVideoQuality, ConnectionModel, DeviceModel, DeviceState, ThemePreference, WindowKind,
};
use crate::text;
use crate::viewer;
use crate::viewer::action;
use crate::viewer::action::{ActionModel, InputKind, SessionModel};
use crate::viewer::message::{Message, RawEvent, Reply, SessionAction, SessionEvent};
use crate::viewer::update;
use crate::viewer::{
    connection, FormModel, PreferencesModel, SessionViewModel, Step, ToolbarModel, ViewerModel,
    WindowsModel,
};
use vstd::prelude::*;

verus! {

/// Whether the fields name an endpoint, a user and a password.
pub open spec fn is_complete(form: FormModel) -> bool {
    &&& text::trimmed(form.address).len() > 0
    &&& text::trimmed(form.username).len() > 0
    &&& viewer::endpoint_of(form) is Some
    &&& form.password.len() > 0
}

proof fn lemma_connecting(state: ViewerModel, endpoint: Seq<char>, password: Seq<char>)
    ensures
        ({
            let actions = connection::connecting(state, endpoint, password).actions;
            let n = actions.len();
            &&& n >= 4
            &&& actions[n - 2] is StartSession
            &&& {
                let session = actions[n - 2]->StartSession_0;
                &&& session.address == endpoint
                &&& session.username == text::trimmed(state.form.username)
                &&& session.password == password
                &&& session.quality == state.preferences.quality
                &&& session.frame_interval == frame_rate::frame_nanos(
                    frame_rate::rate_of(state.preferences.frame_rate, u16::MAX as nat),
                )
            }
            &&& forall|i: int|
                0 <= i < n && #[trigger] actions[i] is StartSession ==> i == n - 2
            &&& actions.last() == match viewer::first_window(
                state.windows.open,
                WindowKind::Session,
            ) {
                Some(id) => ActionModel::FocusWindow(id),
                None => ActionModel::OpenWindow(WindowKind::Session),
            }
            &&& state.session.running ==> exists|i: int|
                0 <= i < n - 2 && #[trigger] actions[i] is StopSession
            &&& exists|i: int| 0 <= i < n - 2 && #[trigger] actions[i] is SaveConfig
            &&& forall|i: int|
                0 <= i < n && #[trigger] actions[i] is StorePassword ==> {
                    &&& actions[i]->StorePassword_password == if state.form.remember_password {
                        Some(state.form.password)
                    } else {
                        None
                    }
                    &&& actions[i]->StorePassword_username == state.form.username
                    &&& actions[i]->StorePassword_address == viewer::endpoint_or_address(state.form)
                    &&& !actions[i]->StorePassword_report
                }
            &&& (exists|i: int| 0 <= i < n && #[trigger] actions[i] is StorePassword) <==> (
            !state.form.remember_password || state.form.password.len() > 0)
        }),
{
    let remembered = if state.form.remember_device {
        connection::with_form(
            state,
            connection::device_put(state.form, endpoint, DeviceState::RecentlyUsed, true),
        )
    } else {
        state
    };
    let front = connection::storing(remembered.form, false).push(
        viewer::saving(remembered, false),
    );
    let back = crate::viewer::windows::disconnecting(remembered);
    let actions = connection::connecting(state, endpoint, password).actions;
    let n = actions.len();
    let s = connection::storing(remembered.form, false).len();
    assert(remembered.form.password == state.form.password);
    assert(remembered.form.username == state.form.username);
    assert(viewer::endpoint_or_address(remembered.form) == viewer::endpoint_or_address(state.form));
    assert(actions[s as int] == viewer::saving(remembered, false));
    assert(actions[n - 2] is StartSession);
    if state.session.running {
        assert(actions[s as int + 1] is StopSession);
    }
    if !state.form.remember_password || state.form.password.len() > 0 {
        assert(actions[0] is StorePassword);
    }
}

/// What a session is started with is what the user entered and chose: the endpoint
/// and the user of the fields, the password, and the quality and the frame rate of
/// the preferences at that time. One session is started, behind the end of one that
/// still runs; its window comes to the front, and the state shows it connecting.
pub proof fn law_sessions_start_as_chosen(state: ViewerModel, now: nat)
    requires
        is_complete(state.form),
    ensures
        ({
            let step = update::step(state, Message::Connect, now);
            let n = step.actions.len();
            &&& step.state.session.running
            &&& step.state.session.connection is Connecting
            &&& step.state.session.error is None
            &&& step.state.session.pointer is None
            &&& step.state.session.server_name.len() == 0
            &&& step.state.session.zoom == 10
            &&& step.state.preferences == state.preferences
            &&& step.state.windows == state.windows
            &&& n >= 2
            &&& step.actions[n - 2] is StartSession
            &&& {
                let session = step.actions[n - 2]->StartSession_0;
                &&& Some(session.address) == viewer::endpoint_of(state.form)
                &&& session.username == text::trimmed(state.form.username)
                &&& session.password == state.form.password
                &&& session.quality == state.preferences.quality
                &&& session.frame_interval == frame_rate::frame_nanos(
                    frame_rate::rate_of(state.preferences.frame_rate, u16::MAX as nat),
                )
            }
            &&& forall|i: int|
                0 <= i < n && #[trigger] step.actions[i] is StartSession ==> i == n - 2
            &&& state.session.running ==> exists|i: int|
                0 <= i < n - 2 && #[trigger] step.actions[i] is StopSession
            &&& step.actions.last() == match viewer::first_window(
                state.windows.open,
                WindowKind::Session,
            ) {
                Some(id) => ActionModel::FocusWindow(id),
                None => ActionModel::OpenWindow(WindowKind::Session),
            }
        }),
{
    reveal(update::form_step);
    update::law_messages_reach_their_part(state, Message::Connect, now);
    lemma_connecting(state, viewer::endpoint_of(state.form)->0, state.form.password);
}

/// A password that was stored is as good as one that was typed: once it is loaded,
/// the session starts with it, with the user of the fields and with the quality and
/// the frame rate of the preferences.
pub proof fn law_stored_passwords_start_sessions(
    state: ViewerModel,
    endpoint: String,
    password: String,
    now: nat,
)
    requires
        password@.len() > 0,
    ensures
        ({
            let reply = Reply::PasswordLoaded { endpoint, password: Some(password) };
            let step = update::step(state, Message::Reply(reply), now);
            let n = step.actions.len();
            &&& step.state.session.running
            &&& step.state.session.connection is Connecting
            &&& n >= 2
            &&& step.actions[n - 2] is StartSession
            &&& {
                let session = step.actions[n - 2]->StartSession_0;
                &&& session.address == endpoint@
                &&& session.username == text::trimmed(state.form.username)
                &&& session.password == password@
                &&& session.quality == state.preferences.quality
                &&& session.frame_interval == frame_rate::frame_nanos(
                    frame_rate::rate_of(state.preferences.frame_rate, u16::MAX as nat),
                )
            }
        }),
{
    reveal(update::session_step);
    update::law_messages_reach_their_part(
        state,
        Message::Reply(Reply::PasswordLoaded { endpoint, password: Some(password) }),
        now,
    );
    lemma_connecting(state, endpoint@, password@);
}

/// A session with a stored password is asked for with the endpoint and the user of
/// the fields, and nothing is started before the password came.
pub proof fn law_stored_passwords_are_asked_for(state: ViewerModel, now: nat)
    requires
        text::trimmed(state.form.address).len() > 0,
        text::trimmed(state.form.username).len() > 0,
        viewer::endpoint_of(state.form) is Some,
        state.form.password.len() == 0,
    ensures
        ({
            let step = update::step(state, Message::Connect, now);
            if state.form.has_saved_password {
                &&& step.state == state
                &&& step.actions.len() == 1
                &&& step.actions[0] is LoadPassword
                &&& Some(step.actions[0]->LoadPassword_endpoint) == viewer::endpoint_of(state.form)
                &&& step.actions[0]->LoadPassword_username == state.form.username
            } else {
                &&& step.actions.len() == 0
                &&& step.state.session == state.session
                &&& step.state.form == state.form
            }
        }),
{
    reveal(update::form_step);
    update::law_messages_reach_their_part(state, Message::Connect, now);
}

/// The quality that was chosen last is the quality of the next session.
pub proof fn law_the_chosen_quality_is_used(
    state: ViewerModel,
    quality: ArdVideoQuality,
    now: nat,
    later: nat,
)
    requires
        is_complete(state.form),
    ensures
        ({
            let chosen = update::step(state, Message::QualityChanged(quality), now).state;
            let step = update::step(chosen, Message::Connect, later);
            let n = step.actions.len();
            &&& n >= 2
            &&& step.actions[n - 2] is StartSession
            &&& step.actions[n - 2]->StartSession_0.quality == quality
        }),
{
    reveal(update::settings_step);
    update::law_messages_reach_their_part(state, Message::QualityChanged(quality), now);
    let chosen = update::step(state, Message::QualityChanged(quality), now).state;
    assert(chosen.form == state.form);
    law_sessions_start_as_chosen(chosen, later);
}

/// The frame rate that was typed last is the frame rate of the next session: for a
/// rate between 1 and 240 its frames are a rate's part of a second apart, to the
/// nearest nanosecond.
pub proof fn law_the_typed_rate_is_used(
    state: ViewerModel,
    value: String,
    rate: nat,
    now: nat,
    later: nat,
)
    requires
        is_complete(state.form),
        1 <= rate <= 240,
        value@ == text::decimal(rate),
    ensures
        ({
            let chosen = update::step(state, Message::FrameRateChanged(value), now).state;
            let step = update::step(chosen, Message::Connect, later);
            let n = step.actions.len();
            &&& n >= 2
            &&& step.actions[n - 2] is StartSession
            &&& {
                let nanos = step.actions[n - 2]->StartSession_0.frame_interval;
                -(rate as int) <= 2 * (nanos * rate - 1_000_000_000) <= rate
            }
        }),
{
    reveal(update::settings_step);
    update::law_messages_reach_their_part(state, Message::FrameRateChanged(value), now);
    let chosen = update::step(state, Message::FrameRateChanged(value), now).state;
    assert(chosen.form == state.form);
    frame_rate::law_kept_rate_is_stable(rate);
    frame_rate::law_rates_name_numbers(rate, u16::MAX as nat);
    law_sessions_start_as_chosen(chosen, later);
    frame_rate::law_frames_share_the_second(rate);
}

/// A session that is started puts its device into the history, if devices are
/// remembered: at its endpoint, with its user, as used recently, and selected. The
/// other devices stay as they are; and without that wish the history does.
pub proof fn law_sessions_are_remembered(state: ViewerModel, now: nat, i: int)
    requires
        is_complete(state.form),
    ensures
        ({
            let before = state.form.devices;
            let form = update::step(state, Message::Connect, now).state.form;
            if state.form.remember_device {
                let selected = form.devices[form.selected_device as int];
                &&& form.selected_device < form.devices.len()
                &&& text::lowered(selected.address) == text::lowered(
                    viewer::endpoint_of(state.form)->0,
                )
                &&& selected.username == text::trimmed(state.form.username)
                &&& selected.state is RecentlyUsed
                &&& before.len() <= form.devices.len() <= before.len() + 1
                &&& 0 <= i < before.len() && i != form.selected_device ==> form.devices[i]
                    == before[i]
            } else {
                form == state.form
            }
        }),
        ({
            let form = update::step(state, Message::Connect, now).state.form;
            &&& form.address == state.form.address
            &&& form.port == state.form.port
            &&& form.username == state.form.username
            &&& form.password == state.form.password
            &&& form.remember_password == state.form.remember_password
            &&& form.remember_device == state.form.remember_device
        }),
{
    reveal(update::form_step);
    update::law_messages_reach_their_part(state, Message::Connect, now);
    connection::lemma_device_put(
        state.form,
        viewer::endpoint_of(state.form)->0,
        DeviceState::RecentlyUsed,
        true,
        i,
    );
}

/// A password is handed over to be stored exactly if passwords are remembered and
/// one was typed, for the endpoint and the user of the fields; without that wish an
/// older one is forgotten. The settings are kept in any case.
pub proof fn law_typed_passwords_are_kept_on_request(state: ViewerModel, now: nat)
    requires
        is_complete(state.form),
    ensures
        ({
            let actions = update::step(state, Message::Connect, now).actions;
            &&& exists|i: int| 0 <= i < actions.len() && #[trigger] actions[i] is SaveConfig
            &&& exists|i: int| 0 <= i < actions.len() && #[trigger] actions[i] is StorePassword
            &&& forall|i: int|
                0 <= i < actions.len() && #[trigger] actions[i] is StorePassword ==> {
                    &&& Some(actions[i]->StorePassword_address) == viewer::endpoint_of(state.form)
                    &&& actions[i]->StorePassword_username == state.form.username
                    &&& actions[i]->StorePassword_password == if state.form.remember_password {
                        Some(state.form.password)
                    } else {
                        None
                    }
                }
        }),
{
    reveal(update::form_step);
    update::law_messages_reach_their_part(state, Message::Connect, now);
    lemma_connecting(state, viewer::endpoint_of(state.form)->0, state.form.password);
}

/// What is missing for a connection is said, and nothing else happens: an address or
/// a user first, then a valid port, then a password.
pub proof fn law_what_is_missing_is_said(state: ViewerModel, now: nat)
    ensures
        ({
            let step = update::step(state, Message::Connect, now);
            let form = state.form;
            let nameless = text::trimmed(form.address).len() == 0 || text::trimmed(
                form.username,
            ).len() == 0;
            &&& nameless ==> step.state.status == "请输入设备地址和用户名"@
                && step.actions.len() == 0 && step.state.session == state.session
            &&& !nameless && viewer::endpoint_of(form) is None ==> step.state.status
                == "请输入有效端口（1–65535）"@ && step.actions.len() == 0
                && step.state.session == state.session
            &&& !nameless && viewer::endpoint_of(form) is Some && form.password.len() == 0
                && !form.has_saved_password ==> step.state.status == "请输入密码"@
                && step.actions.len() == 0 && step.state.session == state.session
        }),
{
    reveal(update::form_step);
    update::law_messages_reach_their_part(state, Message::Connect, now);
}

/// Typing into the search field changes that field and nothing else.
pub proof fn law_searching_changes_nothing_else(state: ViewerModel, value: String, now: nat)
    ensures
        ({
            let step = update::step(state, Message::SearchChanged(value), now);
            &&& step.actions.len() == 0
            &&& step.state == ViewerModel {
                form: FormModel { search: value@, ..state.form },
                ..state
            }
        }),
{
    reveal(update::form_step);
    update::law_messages_reach_their_part(state, Message::SearchChanged(value), now);
}

/// Another user has another password: what was typed or stored for the one before is
/// not used for them. Nothing else changes.
pub proof fn law_another_user_has_another_password(state: ViewerModel, value: String, now: nat)
    ensures
        ({
            let step = update::step(state, Message::UsernameChanged(value), now);
            &&& step.actions.len() == 0
            &&& step.state == ViewerModel {
                form: FormModel {
                    username: value@,
                    password: Seq::empty(),
                    has_saved_password: false,
                    ..state.form
                },
                ..state
            }
        }),
{
    reveal(update::form_step);
    update::law_messages_reach_their_part(state, Message::UsernameChanged(value), now);
}

/// A typed password takes the place of the stored one. Nothing else changes.
pub proof fn law_typed_passwords_are_not_the_stored_one(
    state: ViewerModel,
    value: String,
    now: nat,
)
    ensures
        ({
            let step = update::step(state, Message::PasswordChanged(value), now);
            &&& step.actions.len() == 0
            &&& step.state == ViewerModel {
                form: FormModel { password: value@, has_saved_password: false, ..state.form },
                ..state
            }
        }),
{
    reveal(update::form_step);
    update::law_messages_reach_their_part(state, Message::PasswordChanged(value), now);
}

/// Showing the password only shows it.
pub proof fn law_showing_the_password_only_shows_it(state: ViewerModel, now: nat)
    ensures
        ({
            let step = update::step(state, Message::TogglePasswordVisibility, now);
            &&& step.actions.len() == 0
            &&& step.state.form.password_visible != state.form.password_visible
            &&& step.state == ViewerModel {
                form: FormModel {
                    password_visible: step.state.form.password_visible,
                    ..state.form
                },
                ..state
            }
        }),
{
    reveal(update::form_step);
    update::law_messages_reach_their_part(state, Message::TogglePasswordVisibility, now);
}

/// Of a typed port the first five digits stay. Nothing else changes.
pub proof fn law_typed_ports_are_digits(state: ViewerModel, value: String, now: nat)
    ensures
        ({
            let step = update::step(state, Message::PortChanged(value), now);
            let digits = value@.filter(|c: char| '0' <= c <= '9');
            &&& step.actions.len() == 0
            &&& step.state == ViewerModel {
                form: FormModel { port: step.state.form.port, ..state.form },
                ..state
            }
            &&& step.state.form.port.len() == if digits.len() > 5 {
                5
            } else {
                digits.len()
            }
            &&& step.state.form.port.is_prefix_of(digits)
        }),
{
    reveal(update::form_step);
    update::law_messages_reach_their_part(state, Message::PortChanged(value), now);
    text::law_digits_are_filtered(value@);
    text::law_beginnings_and_ends(text::only_digits(value@), 5);
}

/// An address with a valid port of its own fills both fields; another one fills the
/// address and leaves the port.
pub proof fn law_pasted_ports_go_to_their_field(
    state: ViewerModel,
    value: String,
    host: Seq<char>,
    port: Seq<char>,
    now: nat,
)
    requires
        text::trimmed(host) == host,
        !endpoint::is_bracketed(host),
        endpoint::is_port(port),
        value@ == endpoint::endpoint_text(host, port),
    ensures
        ({
            let step = update::step(state, Message::AddressChanged(value), now);
            &&& step.actions.len() == 0
            &&& step.state.form.address == host
            &&& step.state.form.port == port
            &&& step.state == ViewerModel {
                form: FormModel { address: host, port, ..state.form },
                ..state
            }
        }),
{
    reveal(update::form_step);
    update::law_messages_reach_their_part(state, Message::AddressChanged(value), now);
    endpoint::law_split_undoes_format(host, port);
    endpoint::lemma_text_is_longer(host, port);
}

/// An address without a colon fills the address field, without the white space
/// around it, and leaves the port.
pub proof fn law_plain_addresses_leave_the_port(state: ViewerModel, value: String, now: nat)
    requires
        !value@.contains(':'),
    ensures
        ({
            let step = update::step(state, Message::AddressChanged(value), now);
            &&& step.actions.len() == 0
            &&& step.state == ViewerModel {
                form: FormModel { address: text::trimmed(value@), ..state.form },
                ..state
            }
        }),
{
    reveal(update::form_step);
    update::law_messages_reach_their_part(state, Message::AddressChanged(value), now);
    endpoint::lemma_plain_host(value@);
    text::lemma_trimmed_twice(value@);
}

/// A device of the history fills the fields: its host, its port and its user; the
/// password of another one does not stay. Whether its own is stored is asked exactly
/// if passwords are remembered.
pub proof fn law_selected_devices_fill_the_fields(
    state: ViewerModel,
    index: usize,
    host: Seq<char>,
    port: Seq<char>,
    now: nat,
)
    requires
        index < state.form.devices.len(),
        text::trimmed(host) == host,
        !endpoint::is_bracketed(host),
        endpoint::is_port(port),
        state.form.devices[index as int].address == endpoint::endpoint_text(host, port),
    ensures
        ({
            let step = update::step(state, Message::DeviceSelected(index), now);
            let form = step.state.form;
            &&& form.selected_device == index
            &&& form.address == host
            &&& form.port == port
            &&& form.username == state.form.devices[index as int].username
            &&& form.password.len() == 0
            &&& !form.has_saved_password
            &&& form.devices == state.form.devices
            &&& form.remember_password == state.form.remember_password
            &&& step.state.session == state.session
            &&& step.state.preferences == state.preferences
            &&& (exists|i: int| 0 <= i < step.actions.len() && #[trigger] step.actions[i] is CheckPassword)
                <==> state.form.remember_password
            &&& forall|i: int|
                0 <= i < step.actions.len() && #[trigger] step.actions[i] is CheckPassword ==> {
                    &&& step.actions[i]->CheckPassword_endpoint == endpoint::endpoint_text(host, port)
                    &&& step.actions[i]->CheckPassword_username
                        == state.form.devices[index as int].username
                }
            &&& (exists|i: int|
                0 <= i < step.actions.len() && #[trigger] step.actions[i]
                    is RestartDeviceTransition) <==> index != state.form.selected_device
        }),
        ({
            let form = update::step(state, Message::DeviceSelected(index), now).state.form;
            form.previous_selected_device == if index != state.form.selected_device {
                state.form.selected_device
            } else {
                state.form.previous_selected_device
            }
        }),
{
    reveal(update::form_step);
    update::law_messages_reach_their_part(state, Message::DeviceSelected(index), now);
    endpoint::law_split_undoes_format(host, port);
    let step = update::step(state, Message::DeviceSelected(index), now);
    if state.form.remember_password {
        assert(step.actions[step.actions.len() - 1] is CheckPassword);
    }
    if index != state.form.selected_device {
        assert(step.actions[0] is RestartDeviceTransition);
    }
}

/// There is no device to select outside of the history.
pub proof fn law_only_devices_of_the_history_are_selected(
    state: ViewerModel,
    index: usize,
    now: nat,
)
    requires
        index >= state.form.devices.len(),
    ensures
        update::step(state, Message::DeviceSelected(index), now).state == state,
        update::step(state, Message::DeviceSelected(index), now).actions.len() == 0,
{
    reveal(update::form_step);
    update::law_messages_reach_their_part(state, Message::DeviceSelected(index), now);
}

/// Removing a device takes the selected one out of the history and no other, and its
/// password with it; a device stays selected as long as there is one.
pub proof fn law_removing_takes_the_selected_device(state: ViewerModel, i: int, now: nat)
    requires
        state.form.devices.len() > 0,
        state.form.selected_device < state.form.devices.len(),
    ensures
        ({
            let selected = state.form.selected_device;
            let step = update::step(state, Message::ManageDevices, now);
            let after = step.state.form;
            &&& after.devices.len() == state.form.devices.len() - 1
            &&& 0 <= i < selected ==> after.devices[i] == state.form.devices[i]
            &&& selected <= i < after.devices.len() ==> after.devices[i] == state.form.devices[i
                + 1]
            &&& after.devices.len() > 0 ==> after.selected_device < after.devices.len()
            &&& step.actions.len() == 2
            &&& step.actions[0] == ActionModel::RemovePassword {
                address: state.form.devices[selected as int].address,
                username: state.form.devices[selected as int].username,
            }
            &&& step.actions[1] is SaveConfig
            &&& after.address == state.form.address
            &&& after.username == state.form.username
            &&& step.state.session == state.session
        }),
{
    reveal(update::form_step);
    update::law_messages_reach_their_part(state, Message::ManageDevices, now);
}

/// Saving a device puts the endpoint of the fields into the history, with the user of
/// the fields; a device that is there keeps its name, its place and where it came
/// from. Fields that name no endpoint change nothing but the status.
pub proof fn law_saved_devices_are_in_the_history(state: ViewerModel, i: int, now: nat)
    ensures
        ({
            let step = update::step(state, Message::SaveDevice, now);
            let before = state.form.devices;
            let form = step.state.form;
            match viewer::endpoint_of(state.form) {
                Some(address) => {
                    let selected = form.devices[form.selected_device as int];
                    &&& form.selected_device < form.devices.len()
                    &&& text::lowered(selected.address) == text::lowered(address)
                    &&& selected.username == text::trimmed(state.form.username)
                    &&& before.len() <= form.devices.len() <= before.len() + 1
                    &&& form.devices.len() > before.len() ==> selected.address == address
                        && selected.state is Saved && form.selected_device == before.len()
                    &&& form.devices.len() == before.len() ==> selected.state
                        == before[form.selected_device as int].state && selected.name
                        == before[form.selected_device as int].name && selected.address
                        == before[form.selected_device as int].address
                    &&& 0 <= i < before.len() && i != form.selected_device ==> form.devices[i]
                        == before[i]
                    &&& step.actions.len() > 0
                    &&& step.actions.last() is SaveConfig
                },
                None => step.actions.len() == 0 && form == state.form,
            }
        }),
        update::step(state, Message::SaveDevice, now).state.session == state.session,
        update::step(state, Message::SaveDevice, now).state.preferences == state.preferences,
{
    reveal(update::form_step);
    update::law_messages_reach_their_part(state, Message::SaveDevice, now);
    if let Some(address) = viewer::endpoint_of(state.form) {
        connection::lemma_device_put(state.form, address, DeviceState::Saved, false, i);
    }
}

/// Passwords that are not remembered any more are forgotten at once, for the endpoint
/// and the user of the fields; and the wish is kept.
pub proof fn law_unwanted_passwords_are_forgotten(state: ViewerModel, value: bool, now: nat)
    ensures
        ({
            let step = update::step(state, Message::RememberPasswordChanged(value), now);
            &&& step.state.form.remember_password == value
            &&& step.state.form.has_saved_password == (value && state.form.has_saved_password)
            &&& step.state.form.devices == state.form.devices
            &&& step.state.form.password == state.form.password
            &&& step.actions.len() > 0
            &&& step.actions.last() is SaveConfig
            &&& step.actions.last()->SaveConfig_config.remember_password == value
            &&& !value ==> step.actions.len() == 2 && step.actions[0] is RemovePassword
                && step.actions[0]->RemovePassword_address == viewer::endpoint_or_address(
                state.form,
            ) && step.actions[0]->RemovePassword_username == state.form.username
            &&& value ==> step.actions.len() == 1
        }),
{
    reveal(update::form_step);
    update::law_messages_reach_their_part(state, Message::RememberPasswordChanged(value), now);
}

/// Whether devices are remembered is kept, and changes nothing of the history.
pub proof fn law_the_wish_for_a_history_is_kept(state: ViewerModel, value: bool, now: nat)
    ensures
        ({
            let step = update::step(state, Message::RememberDeviceChanged(value), now);
            &&& step.state == ViewerModel {
                form: FormModel { remember_device: value, ..state.form },
                ..state
            }
            &&& step.actions.len() == 1
            &&& step.actions[0] is SaveConfig
            &&& step.actions[0]->SaveConfig_config.remember_device == value
        }),
{
    reveal(update::form_step);
    update::law_messages_reach_their_part(state, Message::RememberDeviceChanged(value), now);
}

/// A choice in the settings changes that setting and no other, and is kept at once:
/// the settings that are handed over to be kept are those of the new state.
pub proof fn law_choices_change_one_setting(
    state: ViewerModel,
    quality: ArdVideoQuality,
    value: bool,
    now: nat,
)
    ensures
        ({
            let step = update::step(state, Message::QualityChanged(quality), now);
            &&& step.state == ViewerModel {
                preferences: PreferencesModel { quality, ..state.preferences },
                ..state
            }
            &&& step.actions == seq![
                ActionModel::SaveConfig { config: viewer::config_of(step.state), report: true },
            ]
        }),
        ({
            let step = update::step(state, Message::AutoAdaptChanged(value), now);
            &&& step.state == ViewerModel {
                preferences: PreferencesModel { auto_adapt_keyboard: value, ..state.preferences },
                ..state
            }
            &&& step.actions == seq![
                ActionModel::SaveConfig { config: viewer::config_of(step.state), report: true },
            ]
        }),
        ({
            let step = update::step(state, Message::CaptureShortcutsChanged(value), now);
            &&& step.state == ViewerModel {
                preferences: PreferencesModel {
                    capture_system_shortcuts: value,
                    ..state.preferences
                },
                ..state
            }
            &&& step.actions == seq![
                ActionModel::SaveConfig { config: viewer::config_of(step.state), report: true },
            ]
        }),
        ({
            let step = update::step(state, Message::PerformanceHudChanged(value), now);
            &&& step.state == ViewerModel {
                preferences: PreferencesModel { show_performance_hud: value, ..state.preferences },
                ..state
            }
            &&& step.actions == seq![
                ActionModel::SaveConfig { config: viewer::config_of(step.state), report: true },
            ]
        }),
{
    reveal(update::settings_step);
    update::law_messages_reach_their_part(state, Message::QualityChanged(quality), now);
    update::law_messages_reach_their_part(state, Message::AutoAdaptChanged(value), now);
    update::law_messages_reach_their_part(state, Message::CaptureShortcutsChanged(value), now);
    update::law_messages_reach_their_part(state, Message::PerformanceHudChanged(value), now);
}

/// A typed frame rate changes the frame rate and nothing else, and is kept at once.
pub proof fn law_typed_rates_are_kept(state: ViewerModel, value: String, now: nat)
    ensures
        ({
            let step = update::step(state, Message::FrameRateChanged(value), now);
            &&& step.state == ViewerModel {
                preferences: PreferencesModel {
                    frame_rate: step.state.preferences.frame_rate,
                    ..state.preferences
                },
                ..state
            }
            &&& step.state.preferences.frame_rate == frame_rate::typed_rate(value@)
            &&& step.actions == seq![
                ActionModel::SaveConfig { config: viewer::config_of(step.state), report: true },
            ]
        }),
{
    reveal(update::settings_step);
    update::law_messages_reach_their_part(state, Message::FrameRateChanged(value), now);
}

/// A chosen profile brings its mappings with it; copying one marks it as a copy and
/// leaves the mappings. Both are kept at once.
pub proof fn law_profiles_bring_their_mappings(state: ViewerModel, value: String, now: nat)
    ensures
        ({
            let step = update::step(state, Message::KeyProfileChanged(value), now);
            &&& step.state == ViewerModel {
                preferences: PreferencesModel {
                    key_profile: value@,
                    mappings: keymap::mappings_of(value@),
                    ..state.preferences
                },
                ..state
            }
            &&& step.actions == seq![
                ActionModel::SaveConfig { config: viewer::config_of(step.state), report: true },
            ]
        }),
        ({
            let step = update::step(state, Message::CopyPreset, now);
            &&& step.state.preferences == PreferencesModel {
                key_profile: keymap::copied_profile(state.preferences.key_profile),
                ..state.preferences
            }
            &&& step.state.form == state.form
            &&& step.state.session == state.session
            &&& step.actions == seq![
                ActionModel::SaveConfig { config: viewer::config_of(step.state), report: true },
            ]
        }),
{
    reveal(update::settings_step);
    update::law_messages_reach_their_part(state, Message::KeyProfileChanged(value), now);
    update::law_messages_reach_their_part(state, Message::CopyPreset, now);
}

/// A mapping is added at the end, and the others stay as they are.
pub proof fn law_mappings_are_added_at_the_end(state: ViewerModel, now: nat)
    ensures
        ({
            let step = update::step(state, Message::AddMapping, now);
            &&& step.state.preferences == PreferencesModel {
                mappings: state.preferences.mappings.push(keymap::common_mapping()),
                ..state.preferences
            }
            &&& step.state.form == state.form
            &&& step.state.session == state.session
            &&& step.actions.len() == 0
        }),
{
    reveal(update::settings_step);
    update::law_messages_reach_their_part(state, Message::AddMapping, now);
}

/// A mapping is removed at its place, and the others stay in their order; there is
/// nothing to remove behind the last one.
pub proof fn law_mappings_are_removed_at_their_place(state: ViewerModel, index: usize, now: nat)
    ensures
        ({
            let before = state.preferences.mappings;
            let step = update::step(state, Message::EditMapping(index), now);
            &&& index < before.len() ==> step.state.preferences == PreferencesModel {
                mappings: before.take(index as int) + before.skip(index as int + 1),
                ..state.preferences
            }
            &&& index >= before.len() ==> step.state == state
            &&& step.actions.len() == 0
        }),
{
    reveal(update::settings_step);
    update::law_messages_reach_their_part(state, Message::EditMapping(index), now);
    let before = state.preferences.mappings;
    if index < before.len() {
        assert(before.remove(index as int) =~= before.take(index as int) + before.skip(
            index as int + 1,
        ));
    }
}

/// Resetting the mappings brings back those of the first profile; exporting them hands
/// over what is there.
pub proof fn law_mappings_are_reset_and_exported(state: ViewerModel, now: nat)
    ensures
        ({
            let step = update::step(state, Message::ResetMappings, now);
            &&& step.state.preferences == PreferencesModel {
                mappings: keymap::mappings_of("macOS 默认"@),
                ..state.preferences
            }
            &&& step.actions.len() == 0
        }),
        ({
            let step = update::step(state, Message::ExportShortcuts, now);
            &&& step.state == state
            &&& step.actions == seq![ActionModel::ExportShortcuts(state.preferences.mappings)]
        }),
{
    reveal(update::settings_step);
    update::law_messages_reach_their_part(state, Message::ResetMappings, now);
    update::law_messages_reach_their_part(state, Message::ExportShortcuts, now);
}

/// The windows get dark and light as the user and the system want them: a chosen
/// theme counts at once and is kept, and without a choice the system's does.
pub proof fn law_themes_count_at_once(
    state: ViewerModel,
    theme: ThemePreference,
    dark: bool,
    now: nat,
)
    ensures
        ({
            let step = update::step(state, Message::ThemePreferenceChanged(theme), now);
            &&& step.state == ViewerModel {
                preferences: PreferencesModel { theme_preference: theme, ..state.preferences },
                ..state
            }
            &&& step.actions.len() == 2
            &&& step.actions[0] == ActionModel::SetDark(
                match theme {
                    ThemePreference::Dark => true,
                    ThemePreference::Light => false,
                    ThemePreference::System => state.preferences.system_dark,
                },
            )
            &&& step.actions[1] == ActionModel::SaveConfig {
                config: viewer::config_of(step.state),
                report: true,
            }
        }),
        ({
            let step = update::step(state, Message::SystemThemeChanged { dark }, now);
            &&& step.state == ViewerModel {
                preferences: PreferencesModel { system_dark: dark, ..state.preferences },
                ..state
            }
            &&& step.actions == if state.preferences.theme_preference is System {
                seq![ActionModel::SetDark(dark)]
            } else {
                Seq::empty()
            }
        }),
        ({
            let step = update::step(state, Message::InitialSystemTheme { dark }, now);
            &&& step.state == ViewerModel {
                preferences: PreferencesModel { system_dark: dark, ..state.preferences },
                ..state
            }
            &&& step.actions.len() == 2
            &&& step.actions[0] == ActionModel::SetDark(
                match state.preferences.theme_preference {
                    ThemePreference::Dark => true,
                    ThemePreference::Light => false,
                    ThemePreference::System => dark,
                },
            )
            &&& step.actions[1] == ActionModel::OpenWindow(WindowKind::Connection)
        }),
{
    reveal(update::settings_step);
    update::law_messages_reach_their_part(state, Message::ThemePreferenceChanged(theme), now);
    update::law_messages_reach_their_part(state, Message::SystemThemeChanged { dark }, now);
    update::law_messages_reach_their_part(state, Message::InitialSystemTheme { dark }, now);
}

/// Windows that open and close are known as long as they are open, and only they
/// are: nothing of a window that is gone is left, and the others stay.
pub proof fn law_open_windows_are_known(state: ViewerModel, kind: WindowKind, id: u64, now: nat)
    ensures
        ({
            let step = update::step(state, Message::WindowOpened(kind, id), now);
            &&& step.state.windows == WindowsModel {
                open: state.windows.open.insert(id, kind),
                ..state.windows
            }
            &&& step.state.form == state.form
            &&& step.state.session == state.session
            &&& step.actions == if kind == WindowKind::Session {
                seq![ActionModel::DisableTitlebarDrag(id)]
            } else {
                Seq::empty()
            }
        }),
        ({
            let windows = update::step(state, Message::WindowClosed(id), now).state.windows;
            &&& !windows.open.contains_key(id)
            &&& !windows.maximized.contains(id)
            &&& windows.pending_close != Some(id)
            &&& forall|other: u64|
                other != id ==> (#[trigger] windows.open.contains_key(other)
                    <==> state.windows.open.contains_key(other)) && (windows.open.contains_key(
                    other,
                ) ==> windows.open[other] == state.windows.open[other]) && (windows.maximized.contains(
                    other,
                ) <==> state.windows.maximized.contains(other))
            &&& state.windows.pending_close != Some(id) ==> windows.pending_close
                == state.windows.pending_close
        }),
{
    reveal(update::window_step);
    update::law_messages_reach_their_part(state, Message::WindowOpened(kind, id), now);
    update::law_messages_reach_their_part(state, Message::WindowClosed(id), now);
}

/// A window that closes beside others ends nothing but itself; the session ends with
/// its own window, and the application with the connection window or the last one.
pub proof fn law_closing_ends_what_depends_on_it(
    state: ViewerModel,
    id: u64,
    other: u64,
    now: nat,
)
    requires
        state.windows.open.contains_key(id),
        state.windows.open.contains_key(other),
        other != id,
    ensures
        ({
            let step = update::step(state, Message::WindowClosed(id), now);
            &&& state.windows.open[id] == WindowKind::Settings ==> step.actions.len() == 0
                && step.state.session == state.session
            &&& state.windows.open[id] == WindowKind::Session ==> !step.state.session.running
                && step.state.session.connection is Idle && step.state.session.pointer is None
                && step.actions.len() > 0 && step.actions.last() is ClearInput && (
            state.session.running <==> step.actions[0] is StopSession) && step.actions.len() == if state.session.running {
                2int
            } else {
                1int
            }
            &&& state.windows.open[id] == WindowKind::Connection ==> !step.state.session.running
                && step.actions.len() > 0 && step.actions.last() is Exit && (state.session.running
                <==> step.actions[0] is StopSession)
        }),
{
    reveal(update::window_step);
    update::law_messages_reach_their_part(state, Message::WindowClosed(id), now);
    let rest = state.windows.open.remove(id);
    assert(rest.dom().contains(other));
    assert(!(rest.dom() =~= Set::<u64>::empty()));
}

/// The last window takes the application with it.
pub proof fn law_the_last_window_ends_the_application(state: ViewerModel, id: u64, now: nat)
    requires
        state.windows.open.contains_key(id),
        forall|other: u64| #[trigger] state.windows.open.contains_key(other) ==> other == id,
    ensures
        ({
            let step = update::step(state, Message::WindowClosed(id), now);
            &&& step.actions.len() > 0
            &&& step.actions.last() is Exit
            &&& !step.state.session.running
        }),
{
    reveal(update::window_step);
    update::law_messages_reach_their_part(state, Message::WindowClosed(id), now);
    assert(state.windows.open.remove(id).dom() =~= Set::<u64>::empty());
}

/// What the title bar and the system tell of a window: dragging, minimizing and
/// maximizing are asked for the window itself, and whether it is maximized is known.
pub proof fn law_title_bars_move_their_window(
    state: ViewerModel,
    id: u64,
    maximized: bool,
    now: nat,
)
    ensures
        update::step(state, Message::DragWindow(id), now) == (Step {
            state,
            actions: seq![ActionModel::DragWindow(id)],
        }),
        update::step(state, Message::MinimizeWindow(id), now) == (Step {
            state,
            actions: seq![ActionModel::MinimizeWindow(id)],
        }),
        ({
            let step = update::step(state, Message::ToggleMaximizeWindow(id), now);
            let was = state.windows.maximized.contains(id);
            &&& step.actions == seq![ActionModel::MaximizeWindow(id, !was)]
            &&& step.state.windows.maximized.contains(id) == !was
            &&& step.state.windows.open == state.windows.open
            &&& forall|other: u64|
                other != id ==> (#[trigger] step.state.windows.maximized.contains(other)
                    <==> state.windows.maximized.contains(other))
        }),
        ({
            let step = update::step(state, Message::WindowMaximizedChanged(id, maximized), now);
            &&& step.actions.len() == 0
            &&& step.state.windows.maximized.contains(id) == maximized
            &&& step.state.windows.open == state.windows.open
            &&& forall|other: u64|
                other != id ==> (#[trigger] step.state.windows.maximized.contains(other)
                    <==> state.windows.maximized.contains(other))
        }),
        ({
            let step = update::step(state, Message::WindowResized(id), now);
            &&& step.state == state
            &&& step.actions.last() == ActionModel::QueryMaximized(id)
            &&& step.actions.len() == if state.windows.open.contains_key(id)
                && state.windows.open[id] == WindowKind::Session {
                2int
            } else {
                1int
            }
            &&& step.actions.len() == 2 ==> step.actions[0] == ActionModel::FitSession(id)
        }),
{
    reveal(update::window_step);
    update::law_messages_reach_their_part(state, Message::DragWindow(id), now);
    update::law_messages_reach_their_part(state, Message::MinimizeWindow(id), now);
    update::law_messages_reach_their_part(state, Message::ToggleMaximizeWindow(id), now);
    update::law_messages_reach_their_part(
        state,
        Message::WindowMaximizedChanged(id, maximized),
        now,
    );
    update::law_messages_reach_their_part(state, Message::WindowResized(id), now);
}

/// The way of closing a window: asking for it leads to the question, in that window;
/// a no takes the question away once it is not to be seen any more, a yes closes that
/// window, and the settings close without a question.
pub proof fn law_the_question_before_closing(state: ViewerModel, id: u64, now: nat)
    requires
        state.windows.open.contains_key(id),
    ensures
        ({
            let step = update::step(state, Message::CloseRequested(id), now);
            let press = update::step(state, Message::CloseWindow(id), now);
            &&& press == step
            &&& step.state.windows.open == state.windows.open
            &&& step.state.session == state.session
            &&& if state.windows.open[id] == WindowKind::Settings {
                &&& step.state == state
                &&& step.actions == seq![ActionModel::CloseWindow(id)]
            } else {
                &&& step.state.windows.pending_close == Some(id)
                &&& step.state.windows.close_modal_target_visible
                &&& step.actions == seq![
                    ActionModel::RestartCloseModal,
                    ActionModel::RevealAndFocus(id),
                ]
            }
        }),
        ({
            let step = update::step(state, Message::CancelClose, now);
            &&& step.actions.len() == 0
            &&& step.state.windows.open == state.windows.open
            &&& !step.state.windows.close_modal_target_visible
            &&& state.windows.close_modal_hidden ==> step.state.windows.pending_close is None
            &&& !state.windows.close_modal_hidden ==> step.state.windows.pending_close
                == state.windows.pending_close
        }),
        ({
            let step = update::step(state, Message::ConfirmClose, now);
            &&& step.state.windows.open == state.windows.open
            &&& step.state.windows.pending_close is None
            &&& match state.windows.pending_close {
                Some(pending) => step.actions == seq![
                    ActionModel::RestartCloseModal,
                    ActionModel::CloseWindow(pending),
                ] && !step.state.windows.close_modal_target_visible,
                None => step.actions.len() == 0 && step.state == state,
            }
        }),
{
    reveal(update::window_step);
    update::law_messages_reach_their_part(state, Message::CloseRequested(id), now);
    update::law_messages_reach_their_part(state, Message::CloseWindow(id), now);
    update::law_messages_reach_their_part(state, Message::CancelClose, now);
    update::law_messages_reach_their_part(state, Message::ConfirmClose, now);
}

/// The question goes away when it was answered and nothing of it is to be seen; until
/// then it stays.
pub proof fn law_the_question_fades(state: ViewerModel, hidden: bool, now: nat)
    ensures
        ({
            let message = Message::AnimationTick { close_modal_hidden: hidden };
            let step = update::step(state, message, now);
            &&& step.actions.len() == 0
            &&& step.state.windows.close_modal_hidden == hidden
            &&& step.state.windows.open == state.windows.open
            &&& step.state.windows.close_modal_target_visible
                == state.windows.close_modal_target_visible
            &&& step.state.windows.pending_close == if hidden
                && !state.windows.close_modal_target_visible {
                None
            } else {
                state.windows.pending_close
            }
        }),
{
    reveal(update::window_step);
    update::law_messages_reach_their_part(
        state,
        Message::AnimationTick { close_modal_hidden: hidden },
        now,
    );
}

/// There is one window of the settings: asking for them again brings it to the front,
/// and it opens beside the connection window.
pub proof fn law_settings_have_one_window(state: ViewerModel, id: u64, now: nat)
    requires
        state.windows.open.contains_key(id),
    ensures
        ({
            let step = update::step(state, Message::OpenSettings, now);
            &&& step.state == state
            &&& step.actions.len() == 1
            &&& state.windows.open[id] == WindowKind::Settings ==> step.actions[0] is FocusWindow
            &&& step.actions[0] is FocusWindow ==> {
                let focused = step.actions[0]->FocusWindow_0;
                state.windows.open.contains_key(focused) && state.windows.open[focused]
                    == WindowKind::Settings
            }
            &&& step.actions[0] is OpenSettingsNear ==> {
                let near = step.actions[0]->OpenSettingsNear_0;
                state.windows.open.contains_key(near) && state.windows.open[near]
                    == WindowKind::Connection
            }
            &&& step.actions[0] is FocusWindow || step.actions[0] is OpenSettingsNear
                || step.actions[0] == ActionModel::OpenWindow(WindowKind::Settings)
            &&& state.windows.open[id] == WindowKind::Connection ==> !(step.actions[0]
                is OpenWindow)
        }),
{
    reveal(update::window_step);
    update::law_messages_reach_their_part(state, Message::OpenSettings, now);
    viewer::law_first_window(state.windows.open, WindowKind::Settings);
    viewer::law_first_window(state.windows.open, WindowKind::Connection);
}

/// The state whose toolbar was just used.
pub open spec fn with_used_toolbar(state: ViewerModel, now: nat) -> ViewerModel {
    ViewerModel {
        session: SessionViewModel {
            toolbar: ToolbarModel {
                visible: true,
                last_interaction: now,
                ..state.session.toolbar
            },
            ..state.session
        },
        ..state
    }
}

/// The sizes of the picture: fitting and undoing bring back the original one, and
/// zooming goes on by a tenth up to 1.4 and then back to 0.6. Using a button keeps the
/// toolbar there.
pub proof fn law_buttons_change_the_size(state: ViewerModel, now: nat)
    ensures
        ({
            let fit = update::step(state, Message::SessionAction(SessionAction::Fit), now);
            let undo = update::step(state, Message::SessionAction(SessionAction::Undo), now);
            let zoom = update::step(state, Message::SessionAction(SessionAction::Zoom), now);
            let used = with_used_toolbar(state, now);
            &&& fit.actions.len() == 0 && undo.actions.len() == 0 && zoom.actions.len() == 0
            &&& fit.state.session == SessionViewModel { zoom: 10, ..used.session }
            &&& undo == fit
            &&& zoom.state.session == SessionViewModel {
                zoom: zoom.state.session.zoom,
                ..used.session
            }
            &&& zoom.state.session.zoom == if state.session.zoom < 14 {
                state.session.zoom + 1
            } else {
                6int
            }
        }),
{
    reveal(update::toolbar_step);
    update::law_messages_reach_their_part(
        state,
        Message::SessionAction(SessionAction::Fit),
        now,
    );
    update::law_messages_reach_their_part(
        state,
        Message::SessionAction(SessionAction::Undo),
        now,
    );
    update::law_messages_reach_their_part(
        state,
        Message::SessionAction(SessionAction::Zoom),
        now,
    );
}

/// The other buttons: the input goes to the session's window, the clipboard is read,
/// and the system's shortcuts change sides, which is kept.
pub proof fn law_buttons_of_the_session(state: ViewerModel, now: nat)
    ensures
        ({
            let step = update::step(state, Message::SessionAction(SessionAction::Input), now);
            &&& step.state.session == with_used_toolbar(state, now).session
            &&& match viewer::first_window(state.windows.open, WindowKind::Session) {
                Some(id) => step.actions == seq![
                    ActionModel::FocusWindow(id),
                    ActionModel::FocusIme,
                ],
                None => step.actions.len() == 0,
            }
        }),
        update::step(state, Message::SessionAction(SessionAction::Clipboard), now) == (Step {
            state: with_used_toolbar(state, now),
            actions: seq![ActionModel::ReadClipboard],
        }),
        ({
            let message = Message::SessionAction(SessionAction::SystemShortcut);
            let step = update::step(state, message, now);
            &&& step.state.session == with_used_toolbar(state, now).session
            &&& step.state.preferences == PreferencesModel {
                capture_system_shortcuts: !state.preferences.capture_system_shortcuts,
                ..state.preferences
            }
            &&& step.actions.len() == 1
            &&& step.actions[0] is SaveConfig
            &&& step.actions[0]->SaveConfig_config.capture_system_shortcuts
                == !state.preferences.capture_system_shortcuts
            &&& !step.actions[0]->SaveConfig_report
        }),
{
    reveal(update::toolbar_step);
    update::law_messages_reach_their_part(
        state,
        Message::SessionAction(SessionAction::Input),
        now,
    );
    update::law_messages_reach_their_part(
        state,
        Message::SessionAction(SessionAction::Clipboard),
        now,
    );
    update::law_messages_reach_their_part(
        state,
        Message::SessionAction(SessionAction::SystemShortcut),
        now,
    );
}

/// The session's window fills the screen and stops doing so, turn by turn.
pub proof fn law_full_screen_is_a_switch(state: ViewerModel, now: nat)
    ensures
        ({
            let step = update::step(state, Message::ToggleFullscreen, now);
            &&& step.state.session == SessionViewModel {
                fullscreen: !state.session.fullscreen,
                ..with_used_toolbar(state, now).session
            }
            &&& match viewer::first_window(state.windows.open, WindowKind::Session) {
                Some(id) => step.actions == seq![
                    ActionModel::SetFullscreen(id, !state.session.fullscreen),
                ],
                None => step.actions.len() == 0,
            }
        }),
{
    reveal(update::toolbar_step);
    update::law_messages_reach_their_part(state, Message::ToggleFullscreen, now);
}

/// The toolbar: it shows when it is used, hides on request or when it was not used
/// for four seconds, unless it is pinned or held, and moves only while it is held.
pub proof fn law_the_toolbar_comes_and_goes(state: ViewerModel, now: nat)
    ensures
        update::step(state, Message::ShowSessionToolbar, now) == (Step {
            state: with_used_toolbar(state, now),
            actions: Seq::empty(),
        }),
        update::step(state, Message::SessionToolbarInteraction, now) == (Step {
            state: with_used_toolbar(state, now),
            actions: Seq::empty(),
        }),
        ({
            let step = update::step(state, Message::HideSessionToolbar, now);
            let bar = step.state.session.toolbar;
            &&& step.actions.len() == 0
            &&& !bar.visible && !bar.dragging
            &&& bar.pinned == state.session.toolbar.pinned
            &&& bar.last_interaction == state.session.toolbar.last_interaction
        }),
        ({
            let step = update::step(state, Message::SessionToolbarTick, now);
            let bar = state.session.toolbar;
            let unused = now - bar.last_interaction;
            &&& step.actions.len() == 0
            &&& step.state.session.toolbar == ToolbarModel {
                visible: step.state.session.toolbar.visible,
                ..bar
            }
            &&& step.state.session.toolbar.visible <==> bar.visible && (bar.pinned || bar.dragging
                || unused < 4_000_000_000)
        }),
{
    reveal(update::toolbar_step);
    update::law_messages_reach_their_part(state, Message::ShowSessionToolbar, now);
    update::law_messages_reach_their_part(state, Message::SessionToolbarInteraction, now);
    update::law_messages_reach_their_part(state, Message::HideSessionToolbar, now);
    update::law_messages_reach_their_part(state, Message::SessionToolbarTick, now);
}

/// Moving the toolbar: it is held from the start of a drag to its end, follows the
/// pointer only in between, and stays there when it is pinned.
pub proof fn law_the_toolbar_is_moved_while_held(state: ViewerModel, now: nat)
    ensures
        ({
            let step = update::step(state, Message::SessionToolbarDragStarted, now);
            &&& step.actions == seq![ActionModel::StartToolbarDrag]
            &&& step.state.session.toolbar == ToolbarModel {
                dragging: true,
                ..with_used_toolbar(state, now).session.toolbar
            }
        }),
        ({
            let step = update::step(state, Message::SessionToolbarPointerMoved, now);
            if state.session.toolbar.dragging {
                step == (Step {
                    state: with_used_toolbar(state, now),
                    actions: seq![ActionModel::DragToolbar],
                })
            } else {
                step.state == state && step.actions.len() == 0
            }
        }),
        ({
            let step = update::step(state, Message::SessionToolbarDragEnded, now);
            &&& step.actions.len() == 0
            &&& !step.state.session.toolbar.dragging
            &&& state.session.toolbar.dragging ==> step.state.session.toolbar == ToolbarModel {
                dragging: false,
                ..with_used_toolbar(state, now).session.toolbar
            }
            &&& !state.session.toolbar.dragging ==> step.state.session.toolbar
                == state.session.toolbar
        }),
        ({
            let step = update::step(state, Message::ToggleSessionToolbarPin, now);
            &&& step.actions.len() == 0
            &&& step.state.session.toolbar == ToolbarModel {
                pinned: !state.session.toolbar.pinned,
                ..with_used_toolbar(state, now).session.toolbar
            }
        }),
{
    reveal(update::toolbar_step);
    update::law_messages_reach_their_part(state, Message::SessionToolbarDragStarted, now);
    update::law_messages_reach_their_part(state, Message::SessionToolbarPointerMoved, now);
    update::law_messages_reach_their_part(state, Message::SessionToolbarDragEnded, now);
    update::law_messages_reach_their_part(state, Message::ToggleSessionToolbarPin, now);
}

/// What a session tells is shown: its state with the label for it, its name once it is
/// connected, and what went wrong until it is drawn again. A connection that is lost
/// takes its input along, one that is made gets it.
pub proof fn law_sessions_tell_how_they_are(state: ViewerModel, event: SessionEvent, now: nat)
    ensures
        ({
            let step = update::step(state, Message::Session(event), now);
            let after = step.state.session;
            match event {
                SessionEvent::State { state: connection, label } => {
                    &&& step.state.status == label@
                    &&& after == SessionViewModel { connection: connection@, ..state.session }
                    &&& step.actions == if connection@ is Disconnected || connection@ is Failed
                        || connection@ is Reconnecting {
                        seq![ActionModel::ClearInput]
                    } else {
                        Seq::empty()
                    }
                },
                SessionEvent::Connected { server_name } => {
                    &&& after == SessionViewModel {
                        server_name: server_name@,
                        error: None,
                        ..state.session
                    }
                    &&& step.actions == seq![ActionModel::AttachInput]
                },
                SessionEvent::Clipboard(text) => {
                    &&& step.state == state
                    &&& step.actions == seq![ActionModel::ApplyRemoteClipboard(text@)]
                },
                SessionEvent::RenderFailed(error) => {
                    &&& step.actions.len() == 0
                    &&& after.error == Some("渲染失败："@ + error@)
                    &&& after == SessionViewModel { error: after.error, ..state.session }
                },
                SessionEvent::RenderRecovered => {
                    &&& step.actions.len() == 0
                    &&& after == SessionViewModel { error: None, ..state.session }
                },
            }
        }),
        update::step(state, Message::Session(event), now).state.form == state.form,
        update::step(state, Message::Session(event), now).state.preferences == state.preferences,
        update::step(state, Message::Session(event), now).state.windows == state.windows,
{
    reveal(update::session_step);
    update::law_messages_reach_their_part(state, Message::Session(event), now);
}

/// Input in the window of a running session goes to the session, with the wish for
/// the system's shortcuts; buttons and the wheel only where no part of the window
/// took them. The paste shortcut reads the clipboard in place of being sent. Where
/// the pointer is stays known.
pub proof fn law_input_goes_to_the_session(
    state: ViewerModel,
    id: u64,
    event: RawEvent,
    ignored: bool,
    now: nat,
)
    requires
        state.session.running,
        viewer::first_window(state.windows.open, WindowKind::Session) == Some(id),
    ensures
        ({
            let message = Message::SessionRawEvent { id, event, ignored };
            let step = update::step(state, message, now);
            let capture_shortcuts = state.preferences.capture_system_shortcuts;
            let sends = |input: InputKind| -> bool
                {
                    step.actions == seq![ActionModel::ForwardInput { input, capture_shortcuts }]
                };
            &&& match event {
                RawEvent::CursorMoved(place) => sends(InputKind::CursorMoved(place)),
                RawEvent::CursorLeft => sends(InputKind::CursorMoved(None)),
                RawEvent::ButtonPressed => if ignored {
                    sends(InputKind::ButtonPressed)
                } else {
                    step.actions.len() == 0
                },
                RawEvent::ButtonReleased => if ignored {
                    sends(InputKind::ButtonReleased)
                } else {
                    step.actions.len() == 0
                },
                RawEvent::WheelScrolled => if ignored {
                    sends(InputKind::Wheel)
                } else {
                    step.actions.len() == 0
                },
                RawEvent::ModifiersChanged => sends(InputKind::ModifiersChanged),
                RawEvent::KeyPressed { paste } => if paste {
                    step.actions == seq![ActionModel::SuppressPaste, ActionModel::ReadClipboard]
                } else {
                    sends(InputKind::KeyPressed)
                },
                RawEvent::KeyReleased => sends(InputKind::KeyReleased),
                RawEvent::ImeOpened => sends(InputKind::ImeOpened),
                RawEvent::ImePreedit => sends(InputKind::ImePreedit),
                RawEvent::ImeCommit => sends(InputKind::ImeCommit),
                RawEvent::ImeClosed => sends(InputKind::ImeClosed),
                RawEvent::Unfocused => sends(InputKind::FocusLost),
                RawEvent::Other => step.actions.len() == 0,
            }
            &&& step.state == ViewerModel {
                session: SessionViewModel { pointer: step.state.session.pointer, ..state.session },
                ..state
            }
            &&& step.state.session.pointer == match event {
                RawEvent::CursorMoved(place) => place,
                RawEvent::CursorLeft => None,
                _ => state.session.pointer,
            }
        }),
{
    reveal(update::session_step);
    update::law_messages_reach_their_part(
        state,
        Message::SessionRawEvent { id, event, ignored },
        now,
    );
}

/// The clipboards: the local one is read on the way to the session and offered to it
/// as it was read; a session that runs is asked what it has to tell, and no other is.
pub proof fn law_clipboards_are_offered(state: ViewerModel, contents: Option<String>, now: nat)
    ensures
        update::step(state, Message::ClipboardRead(contents), now) == (Step {
            state,
            actions: seq![
                ActionModel::OfferClipboard(
                    match contents {
                        Some(text) => Some(text@),
                        None => None,
                    },
                ),
            ],
        }),
        update::step(state, Message::SessionClipboardPoll, now) == (Step {
            state,
            actions: seq![ActionModel::ReadClipboard],
        }),
        update::step(state, Message::SessionPoll, now) == (Step {
            state,
            actions: if state.session.running {
                seq![ActionModel::DrainSession]
            } else {
                Seq::empty()
            },
        }),
{
    reveal(update::session_step);
    update::law_messages_reach_their_part(state, Message::ClipboardRead(contents), now);
    update::law_messages_reach_their_part(state, Message::SessionClipboardPoll, now);
    update::law_messages_reach_their_part(state, Message::SessionPoll, now);
}

/// The field of the input method keeps the end of what is in it, eight characters at
/// most, and nothing else changes.
pub proof fn law_the_input_field_stays_short(state: ViewerModel, value: String, now: nat)
    ensures
        ({
            let step = update::step(state, Message::ImeSinkChanged(value), now);
            let sink = step.state.session.ime_sink;
            &&& step.actions.len() == 0
            &&& step.state == ViewerModel {
                session: SessionViewModel { ime_sink: sink, ..state.session },
                ..state
            }
            &&& sink.is_suffix_of(value@)
            &&& sink.len() == if value@.len() > 8 {
                8
            } else {
                value@.len()
            }
        }),
{
    reveal(update::session_step);
    update::law_messages_reach_their_part(state, Message::ImeSinkChanged(value), now);
    text::law_beginnings_and_ends(value@, 8);
}

/// What became of an action is told: whether a password is stored is known, and a
/// failure is shown where the user looks for it, with its reason. Nothing else
/// follows from it.
pub proof fn law_failures_are_shown(state: ViewerModel, stored: bool, error: String, now: nat)
    ensures
        ({
            let checked = update::step(
                state,
                Message::Reply(Reply::PasswordChecked(stored)),
                now,
            );
            let kept = update::step(
                state,
                Message::Reply(Reply::PasswordStored { saved: stored }),
                now,
            );
            &&& checked.actions.len() == 0
            &&& checked.state == ViewerModel {
                form: FormModel { has_saved_password: stored, ..state.form },
                ..state
            }
            &&& kept == checked
        }),
        ({
            let reply = Reply::PasswordNotStored { error, report: stored };
            let step = update::step(state, Message::Reply(reply), now);
            &&& step.actions.len() == 0
            &&& step.state == ViewerModel { status: step.state.status, ..state }
            &&& step.state.status == if stored {
                "系统密钥库不可用："@ + error@
            } else {
                state.status
            }
        }),
        ({
            let step = update::step(state, Message::Reply(Reply::ConfigNotSaved(error)), now);
            step.actions.len() == 0 && step.state == (ViewerModel {
                status: "保存配置失败："@ + error@,
                ..state
            })
        }),
        ({
            let step = update::step(state, Message::Reply(Reply::InputFailed(error)), now);
            step.actions.len() == 0 && step.state == (ViewerModel {
                session: SessionViewModel {
                    error: Some("远程输入失败："@ + error@),
                    ..state.session
                },
                ..state
            })
        }),
        ({
            let step = update::step(state, Message::Reply(Reply::ClipboardFailed(error)), now);
            step.actions.len() == 0 && step.state == (ViewerModel {
                session: SessionViewModel {
                    error: Some("发送剪贴板失败："@ + error@),
                    ..state.session
                },
                ..state
            })
        }),
{
    reveal(update::session_step);
    update::law_messages_reach_their_part(
        state,
        Message::Reply(Reply::PasswordChecked(stored)),
        now,
    );
    update::law_messages_reach_their_part(
        state,
        Message::Reply(Reply::PasswordStored { saved: stored }),
        now,
    );
    update::law_messages_reach_their_part(
        state,
        Message::Reply(Reply::PasswordNotStored { error, report: stored }),
        now,
    );
    update::law_messages_reach_their_part(state, Message::Reply(Reply::ConfigNotSaved(error)), now);
    update::law_messages_reach_their_part(state, Message::Reply(Reply::InputFailed(error)), now);
    update::law_messages_reach_their_part(
        state,
        Message::Reply(Reply::ClipboardFailed(error)),
        now,
    );
}

/// The viewer starts as it was left: the fields hold the last endpoint and the last
/// user, or those of the first device, and no password; there is no session and no
/// window yet. Whether a password is stored is asked exactly if passwords are
/// remembered, for what stands in the fields.
pub proof fn law_the_viewer_starts_as_it_was_left(
    config: crate::config::ConfigModel,
    host: Seq<char>,
    port: Seq<char>,
    now: nat,
)
    requires
        text::trimmed(host) == host,
        !endpoint::is_bracketed(host),
        endpoint::is_port(port),
        config.last_address == endpoint::endpoint_text(host, port),
    ensures
        ({
            let start = update::initial(config, now);
            let form = start.state.form;
            let n = start.actions.len();
            &&& form.address == host
            &&& form.port == port
            &&& form.password.len() == 0
            &&& !form.has_saved_password
            &&& !form.password_visible
            &&& form.search.len() == 0
            &&& form.remember_password == config.remember_password
            &&& form.remember_device == config.remember_device
            &&& form.selected_device == 0
            &&& config.last_username.len() > 0 ==> form.username == config.last_username
            &&& config.last_username.len() == 0 && config.devices.len() > 0 ==> form.username
                == config.devices[0].username
            &&& form.devices.len() == config.devices.len()
            &&& !start.state.session.running
            &&& start.state.session.connection is Idle
            &&& start.state.session.zoom == 10
            &&& start.state.session.toolbar.visible
            &&& !start.state.session.toolbar.pinned
            &&& start.state.windows.open == Map::<u64, WindowKind>::empty()
            &&& start.state.windows.pending_close is None
            &&& start.state.preferences.mappings == keymap::mappings_of(config.key_profile)
            &&& n == if config.remember_password {
                3int
            } else {
                2int
            }
            &&& start.actions[n - 2] is SetDark
            &&& start.actions[n - 1] is QuerySystemTheme
            &&& config.remember_password ==> start.actions[0] is CheckPassword
                && start.actions[0]->CheckPassword_endpoint == config.last_address
                && start.actions[0]->CheckPassword_username == form.username
        }),
{
    endpoint::law_split_undoes_format(host, port);
    endpoint::lemma_text_is_longer(host, port);
}

/// Without a last endpoint the first device of the history fills the fields.
pub proof fn law_the_first_device_fills_empty_fields(
    config: crate::config::ConfigModel,
    host: Seq<char>,
    port: Seq<char>,
    now: nat,
)
    requires
        text::trimmed(host) == host,
        !endpoint::is_bracketed(host),
        endpoint::is_port(port),
        config.last_address.len() == 0,
        config.devices.len() > 0,
        config.devices[0].address == endpoint::endpoint_text(host, port),
    ensures
        update::initial(config, now).state.form.address == host,
        update::initial(config, now).state.form.port == port,
{
    endpoint::law_split_undoes_format(host, port);
}

/// A session goes to the host and the port of the two fields, and to the usual port
/// where the port's field is empty.
pub proof fn law_sessions_go_where_the_fields_say(
    state: ViewerModel,
    host: Seq<char>,
    number: nat,
    now: nat,
)
    requires
        is_complete(state.form),
        state.form.address == host,
        text::trimmed(host) == host,
        !host.contains(':'),
        1 <= number <= 65535,
    ensures
        ({
            let step = update::step(state, Message::Connect, now);
            let session = step.actions[step.actions.len() - 2]->StartSession_0;
            &&& state.form.port == text::decimal(number) ==> session.address == host + seq![':']
                + text::decimal(number)
            &&& state.form.port.len() == 0 ==> session.address == host + seq![
                ':',
                '5',
                '9',
                '0',
                '0',
            ]
        }),
{
    law_sessions_start_as_chosen(state, now);
    endpoint::law_fields_name_an_endpoint(host, number);
    if state.form.port.len() == 0 {
        assert(state.form.port =~= Seq::<char>::empty());
    }
}

/// Saving a device stores the password that was typed if it is to be remembered, and
/// takes the stored one away if not; an empty password leaves what is stored.
pub proof fn law_saving_keeps_the_password_on_request(state: ViewerModel, now: nat)
    requires
        viewer::endpoint_of(state.form) is Some,
    ensures
        ({
            let actions = update::step(state, Message::SaveDevice, now).actions;
            let n = actions.len();
            let endpoint = viewer::endpoint_of(state.form)->0;
            &&& (exists|i: int| 0 <= i < n && #[trigger] actions[i] is StorePassword)
                <==> !(state.form.remember_password && state.form.password.len() == 0)
            &&& forall|i: int|
                0 <= i < n ==> (#[trigger] actions[i] matches ActionModel::StorePassword {
                    address,
                    username,
                    password,
                    report,
                } ==> address == endpoint && username == state.form.username && report
                    && password == if state.form.remember_password {
                    Some(state.form.password)
                } else {
                    None
                })
        }),
{
    reveal(update::form_step);
    update::law_messages_reach_their_part(state, Message::SaveDevice, now);
    let actions = update::step(state, Message::SaveDevice, now).actions;
    let n = actions.len();
    if !(state.form.remember_password && state.form.password.len() == 0) {
        assert(actions[n - 2] is StorePassword);
    }
}

/// A window is named after what it shows: a session's after its server, once that is
/// known.
pub proof fn law_windows_are_named_after_what_they_show(state: ViewerModel, id: u64)
    ensures
        state.windows.open.contains_key(id) && state.windows.open[id] is Session
            && state.session.server_name.len() > 0 ==> viewer::windows::title_of(state, id).take(
            state.session.server_name.len() as int,
        ) == state.session.server_name,
        state.windows.open.contains_key(id) && !(state.windows.open[id] is Session)
            ==> viewer::windows::title_of(state, id) == viewer::windows::title_of(
            ViewerModel {
                session: SessionViewModel { server_name: Seq::empty(), ..state.session },
                ..state
            },
            id,
        ),
{
    if state.session.server_name.len() > 0 {
        assert((state.session.server_name + " — ARD Viewer"@).take(
            state.session.server_name.len() as int,
        ) =~= state.session.server_name);
    }
}

/// A section of the settings that is chosen is the one shown; choosing the one that is
/// shown does nothing.
pub proof fn law_the_chosen_section_is_shown(
    state: ViewerModel,
    section: crate::state::SettingsSection,
    now: nat,
)
    ensures
        ({
            let step = update::step(state, Message::SettingsSectionSelected(section), now);
            &&& step.state.preferences.settings_section == section
            &&& step.state.form == state.form
            &&& step.state.session == state.session
            &&& step.state.windows == state.windows
            &&& step.state.preferences == PreferencesModel {
                settings_section: section,
                ..state.preferences
            }
            &&& section == state.preferences.settings_section ==> step.actions.len() == 0
        }),
{
    reveal(update::settings_step);
    update::law_messages_reach_their_part(state, Message::SettingsSectionSelected(section), now);
}

} // verus!
