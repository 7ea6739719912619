//! What happens in the connection window.

use crate::endpoint;
use crate::frame_rate;
use crate::state;
use crate::state::{ConnectionModel, ConnectionState, DeviceModel, DeviceState, SavedDevice, WindowKind};
use crate::text;
use crate::viewer;
use crate::viewer::action;
use crate::viewer::action::{Action, ActionModel, SessionConfig, SessionModel};
use crate::viewer::windows;
use crate::viewer::{ArdViewer, ConnectionForm, FormModel, SessionViewModel, Step, ViewerModel};
use vstd::prelude::*;

verus! {

/// The state with another form.
pub open spec fn with_form(state: ViewerModel, form: FormModel) -> ViewerModel {
    ViewerModel { form, ..state }
}

/// The fields filled from a device of the history.
pub open spec fn form_selected(form: FormModel, index: nat) -> FormModel {
    let device = form.devices[index as int];
    let (address, port) = endpoint::endpoint_parts(device.address);
    FormModel {
        selected_device: index,
        previous_selected_device: if index != form.selected_device {
            form.selected_device
        } else {
            form.previous_selected_device
        },
        address,
        port,
        username: device.username,
        password: Seq::empty(),
        has_saved_password: false,
        ..form
    }
}

/// A device of the history is selected; whether its password is stored is asked
/// if passwords are remembered.
pub open spec fn device_selected(state: ViewerModel, index: nat) -> Step {
    if index >= state.form.devices.len() {
        viewer::quiet(state)
    } else {
        let form = form_selected(state.form, index);
        Step {
            state: with_form(state, form),
            actions: (if index != state.form.selected_device {
                seq![ActionModel::RestartDeviceTransition]
            } else {
                Seq::empty()
            }) + (if form.remember_password {
                seq![
                    ActionModel::CheckPassword {
                        endpoint: endpoint::endpoint_text(form.address, form.port),
                        username: form.username,
                    },
                ]
            } else {
                Seq::empty()
            }),
        }
    }
}

/// An address was typed or pasted: a port in it goes to its own field.
pub open spec fn address_changed(form: FormModel, value: Seq<char>) -> FormModel {
    let (address, port) = endpoint::endpoint_parts(value);
    FormModel {
        address,
        port: if text::trimmed(value) != text::trimmed(address) {
            port
        } else {
            form.port
        },
        ..form
    }
}

/// A port was typed: five digits of it are kept.
pub open spec fn port_changed(form: FormModel, value: Seq<char>) -> FormModel {
    FormModel { port: text::at_most(text::only_digits(value), 5), ..form }
}

/// Another user has another password.
pub open spec fn username_changed(form: FormModel, value: Seq<char>) -> FormModel {
    FormModel {
        username: value,
        password: Seq::empty(),
        has_saved_password: false,
        ..form
    }
}

/// A password was typed.
pub open spec fn password_changed(form: FormModel, value: Seq<char>) -> FormModel {
    FormModel { password: value, has_saved_password: false, ..form }
}

/// Whether passwords are to be remembered changed. A password that is not to be
/// remembered is forgotten.
pub open spec fn remember_password_changed(state: ViewerModel, value: bool) -> Step {
    let after = with_form(
        state,
        FormModel {
            remember_password: value,
            has_saved_password: state.form.has_saved_password && value,
            ..state.form
        },
    );
    Step {
        state: after,
        actions: (if value {
            Seq::empty()
        } else {
            seq![
                ActionModel::RemovePassword {
                    address: viewer::endpoint_or_address(state.form),
                    username: state.form.username,
                },
            ]
        }).push(viewer::saving(after, true)),
    }
}

/// Whether devices are to be remembered changed; the history stays.
pub open spec fn remember_device_changed(state: ViewerModel, value: bool) -> Step {
    viewer::kept(with_form(state, FormModel { remember_device: value, ..state.form }))
}

/// The index of the first device with an address, or their number. The case of
/// the letters does not count.
pub open spec fn device_index(devices: Seq<DeviceModel>, address: Seq<char>) -> nat
    decreases devices.len(),
{
    if devices.len() == 0 {
        0
    } else if text::lowered(devices[0].address) == text::lowered(address) {
        0
    } else {
        1 + device_index(devices.drop_first(), address)
    }
}

/// The request to store the password, or to forget it. Without a password there
/// is nothing to store.
pub open spec fn storing(form: FormModel, report: bool) -> Seq<ActionModel> {
    if form.remember_password && form.password.len() == 0 {
        Seq::empty()
    } else {
        seq![
            ActionModel::StorePassword {
                address: viewer::endpoint_or_address(form),
                username: form.username,
                password: if form.remember_password {
                    Some(form.password)
                } else {
                    None
                },
                report,
            },
        ]
    }
}

/// The form with a device in the history: the one with the address gets the user,
/// and `mark` as its origin if there is one; a new one comes last.
pub open spec fn device_put(
    form: FormModel,
    address: Seq<char>,
    origin: DeviceState,
    mark: bool,
) -> FormModel {
    let index = device_index(form.devices, address);
    let username = text::trimmed(form.username);
    if index < form.devices.len() {
        let device = form.devices[index as int];
        FormModel {
            devices: form.devices.update(
                index as int,
                DeviceModel {
                    username,
                    state: if mark {
                        origin
                    } else {
                        device.state
                    },
                    ..device
                },
            ),
            selected_device: index,
            ..form
        }
    } else {
        FormModel {
            devices: form.devices.push(
                DeviceModel {
                    name: endpoint::endpoint_parts(address).0,
                    address,
                    username,
                    state: origin,
                },
            ),
            previous_selected_device: form.selected_device,
            selected_device: form.devices.len(),
            ..form
        }
    }
}

/// The device that the fields name is put into the history.
pub open spec fn device_saved(state: ViewerModel) -> Step {
    match viewer::endpoint_of(state.form) {
        None => viewer::quiet(
            viewer::saying(state, "请输入有效的设备地址和端口"@),
        ),
        Some(address) => {
            let known = device_index(state.form.devices, address) < state.form.devices.len();
            let after = viewer::saying(
                with_form(state, device_put(state.form, address, DeviceState::Saved, false)),
                if known {
                    "历史连接已更新"@
                } else {
                    "已加入历史连接"@
                },
            );
            Step {
                state: after,
                actions: ((if known {
                    Seq::empty()
                } else {
                    seq![ActionModel::RestartDeviceTransition]
                }) + storing(after.form, true)).push(viewer::saving(after, true)),
            }
        },
    }
}

/// What a session with the endpoint is started with.
pub open spec fn session_of(state: ViewerModel, address: Seq<char>, password: Seq<char>) -> SessionModel {
    SessionModel {
        address,
        username: text::trimmed(state.form.username),
        password,
        quality: state.preferences.quality,
        frame_interval: frame_rate::frame_nanos(
            frame_rate::rate_of(state.preferences.frame_rate, u16::MAX as nat),
        ),
    }
}

/// The state while a session connects.
pub open spec fn session_started(state: ViewerModel) -> ViewerModel {
    ViewerModel {
        session: SessionViewModel {
            running: true,
            pointer: None,
            connection: ConnectionModel::Connecting,
            server_name: Seq::empty(),
            error: None,
            zoom: 10,
            ..state.session
        },
        status: "正在当前 Session 窗口中连接…"@,
        ..state
    }
}

/// A connection is made with a password: the device is remembered if devices
/// are, the password and the settings are kept, and the session starts in its
/// window.
pub open spec fn connecting(state: ViewerModel, endpoint: Seq<char>, password: Seq<char>) -> Step {
    let remembered = if state.form.remember_device {
        with_form(state, device_put(state.form, endpoint, DeviceState::RecentlyUsed, true))
    } else {
        state
    };
    Step {
        state: session_started(remembered),
        actions: storing(remembered.form, false).push(viewer::saving(remembered, false))
            + windows::disconnecting(remembered).push(
            ActionModel::StartSession(session_of(remembered, endpoint, password)),
        ).push(
            match viewer::first_window(state.windows.open, WindowKind::Session) {
                Some(id) => ActionModel::FocusWindow(id),
                None => ActionModel::OpenWindow(WindowKind::Session),
            },
        ),
    }
}

/// The connection is asked for. What is missing is said; a stored password is
/// loaded first.
pub open spec fn connect_pressed(state: ViewerModel) -> Step {
    let form = state.form;
    if text::trimmed(form.address).len() == 0 || text::trimmed(form.username).len() == 0 {
        viewer::quiet(viewer::saying(state, "请输入设备地址和用户名"@))
    } else {
        match viewer::endpoint_of(form) {
            None => viewer::quiet(
                viewer::saying(state, "请输入有效端口（1–65535）"@),
            ),
            Some(endpoint) => if form.password.len() > 0 {
                connecting(state, endpoint, form.password)
            } else if form.has_saved_password {
                viewer::asking(
                    state,
                    ActionModel::LoadPassword { endpoint, username: form.username },
                )
            } else {
                viewer::quiet(viewer::saying(state, "请输入密码"@))
            },
        }
    }
}

/// The stored password came, or cannot be used.
pub open spec fn password_loaded(
    state: ViewerModel,
    endpoint: Seq<char>,
    password: Option<Seq<char>>,
) -> Step {
    if password is Some && password->0.len() > 0 {
        connecting(state, endpoint, password->0)
    } else {
        viewer::quiet(
            viewer::saying(
                with_form(state, FormModel { has_saved_password: false, ..state.form }),
                "保存的密码不可用，请重新输入"@,
            ),
        )
    }
}

/// `a` or `b`, whichever is smaller.
pub open spec fn smaller(a: nat, b: nat) -> nat {
    if a < b {
        a
    } else {
        b
    }
}

/// The index of the device that is removed.
pub open spec fn removed_index(form: FormModel) -> nat {
    smaller(form.selected_device, (form.devices.len() - 1) as nat)
}

/// The form without the selected device.
pub open spec fn form_removed(form: FormModel) -> FormModel {
    let rest = form.devices.remove(removed_index(form) as int);
    let selected = smaller(
        form.selected_device,
        if rest.len() == 0 {
            0
        } else {
            (rest.len() - 1) as nat
        },
    );
    FormModel {
        devices: rest,
        selected_device: selected,
        previous_selected_device: selected,
        ..form
    }
}

/// The selected device is removed from the history, with its password.
pub open spec fn device_removed(state: ViewerModel) -> Step {
    if state.form.devices.len() == 0 {
        viewer::quiet(state)
    } else {
        let device = state.form.devices[removed_index(state.form) as int];
        let after = viewer::saying(
            with_form(state, form_removed(state.form)),
            if "移除系统密钥库密码失败"@.is_prefix_of(state.status) {
                state.status
            } else {
                "已移除所选历史连接"@
            },
        );
        Step {
            state: after,
            actions: seq![
                ActionModel::RemovePassword {
                    address: device.address,
                    username: device.username,
                },
                viewer::saving(after, true),
            ],
        }
    }
}

impl ConnectionForm {
    fn select(&mut self, index: usize)
        requires
            index < old(self)@.devices.len(),
        ensures
            final(self)@ == form_selected(old(self)@, index as nat),
    {
        let device = &self.devices[index];
        let (address, port) = endpoint::split_endpoint(device.address.as_str());
        let username = device.username.clone();
        if index != self.selected_device {
            self.previous_selected_device = self.selected_device;
        }
        self.selected_device = index;
        self.address = address;
        self.port = port;
        self.username = username;
        self.password = String::new();
        self.has_saved_password = false;
        assert(self.password@ =~= Seq::<char>::empty());
    }

    /// Takes an address that was typed or pasted.
    pub fn change_address(&mut self, value: &str)
        ensures
            final(self)@ == address_changed(old(self)@, value@),
    {
        let (address, port) = endpoint::split_endpoint(value);
        let whole = text::trim(value);
        let host = text::trim(address.as_str());
        if !text::same_text(whole.as_str(), host.as_str()) {
            self.port = port;
        }
        self.address = address;
    }

    /// Takes a port that was typed.
    pub fn change_port(&mut self, value: &str)
        ensures
            final(self)@ == port_changed(old(self)@, value@),
    {
        self.port = text::leading_digits(value, 5);
    }

    /// Takes a user that was typed.
    pub fn change_username(&mut self, value: String)
        ensures
            final(self)@ == username_changed(old(self)@, value@),
    {
        self.username = value;
        self.password = String::new();
        self.has_saved_password = false;
        assert(self.password@ =~= Seq::<char>::empty());
    }

    /// Takes a password that was typed.
    pub fn change_password(&mut self, value: String)
        ensures
            final(self)@ == password_changed(old(self)@, value@),
    {
        self.password = value;
        self.has_saved_password = false;
    }

    fn position(&self, address: &str) -> (index: usize)
        ensures
            index == device_index(self@.devices, address@),
            index <= self@.devices.len(),
    {
        let ghost all = self@.devices;
        let mut index: usize = 0;
        assert(all.skip(0) =~= all);
        while index < self.devices.len()
            invariant
                index <= self.devices@.len(),
                all == self@.devices,
                all.len() == self.devices@.len(),
                device_index(all, address@) == index + device_index(
                    all.skip(index as int),
                    address@,
                ),
            decreases self.devices@.len() - index,
        {
            assert(all.skip(index as int)[0] == self.devices@[index as int]@);
            if text::same_ignoring_case(self.devices[index].address.as_str(), address) {
                return index;
            }
            assert(all.skip(index as int).drop_first() =~= all.skip(index as int + 1));
            index += 1;
        }
        index
    }

    fn remove_selected(&mut self) -> (removed: SavedDevice)
        requires
            old(self)@.devices.len() > 0,
        ensures
            final(self)@ == form_removed(old(self)@),
            removed@ == old(self)@.devices[removed_index(old(self)@) as int],
    {
        let count: usize = self.devices.len();
        assert(count == self@.devices.len());
        let index: usize = if self.selected_device < count - 1 {
            self.selected_device
        } else {
            count - 1
        };
        let ghost before = self.devices@;
        let removed = self.devices.remove(index);
        assert(state::all_devices(self.devices@) =~= state::all_devices(before).remove(
            index as int,
        ));
        let last: usize = if count == 1 { 0 } else { count - 2 };
        if self.selected_device >= last {
            self.selected_device = last;
        }
        self.previous_selected_device = self.selected_device;
        removed
    }

    /// Puts a device into the history; the answer says whether it is new.
    fn put_device(&mut self, address: &str, origin: DeviceState, mark: bool) -> (is_new: bool)
        ensures
            final(self)@ == device_put(old(self)@, address@, origin, mark),
            is_new == (device_index(old(self)@.devices, address@) >= old(self)@.devices.len()),
    {
        let index: usize = self.position(address);
        let username = text::trim(self.username.as_str());
        let ghost before = self.devices@;
        if index < self.devices.len() {
            let known = &self.devices[index];
            let device = SavedDevice {
                name: known.name.clone(),
                address: known.address.clone(),
                username,
                state: if mark { origin } else { known.state },
            };
            let ghost model = device@;
            self.devices.set(index, device);
            assert(state::all_devices(self.devices@) =~= state::all_devices(before).update(
                index as int,
                model,
            ));
            self.selected_device = index;
            false
        } else {
            let (name, _) = endpoint::split_endpoint(address);
            let count: usize = self.devices.len();
            let device = SavedDevice { name, address: address.to_owned(), username, state: origin };
            let ghost model = device@;
            self.devices.push(device);
            assert(state::all_devices(self.devices@) =~= state::all_devices(before).push(model));
            self.previous_selected_device = self.selected_device;
            self.selected_device = count;
            true
        }
    }
}

impl ArdViewer {
    pub(crate) fn select_device(&mut self, index: usize) -> (actions: Vec<Action>)
        ensures
            (Step { state: final(self)@, actions: action::all_actions(actions@) })
                == device_selected(old(self)@, index as nat),
    {
        let mut actions = action::none();
        if index < self.form.devices.len() {
            if index != self.form.selected_device {
                action::push(&mut actions, Action::RestartDeviceTransition);
            }
            self.form.select(index);
            if self.form.remember_password {
                let endpoint = endpoint::format_endpoint(
                    self.form.address.as_str(),
                    self.form.port.as_str(),
                );
                action::push(
                    &mut actions,
                    Action::CheckPassword { endpoint, username: self.form.username.clone() },
                );
            }
        }
        assert(action::all_actions(actions@) =~= device_selected(old(self)@, index as nat).actions);
        actions
    }

    pub(crate) fn change_remember_password(&mut self, value: bool) -> (actions: Vec<Action>)
        ensures
            (Step { state: final(self)@, actions: action::all_actions(actions@) })
                == remember_password_changed(old(self)@, value),
    {
        let mut actions = action::none();
        self.form.remember_password = value;
        if !value {
            let address = self.remote_address();
            action::push(
                &mut actions,
                Action::RemovePassword { address, username: self.form.username.clone() },
            );
            self.form.has_saved_password = false;
        }
        action::push(&mut actions, self.persist_config(true));
        assert(action::all_actions(actions@) =~= remember_password_changed(
            old(self)@,
            value,
        ).actions);
        actions
    }

    pub(crate) fn change_remember_device(&mut self, value: bool) -> (actions: Vec<Action>)
        ensures
            (Step { state: final(self)@, actions: action::all_actions(actions@) })
                == remember_device_changed(old(self)@, value),
    {
        self.form.remember_device = value;
        self.keep()
    }

    fn store_credentials(&self, report: bool) -> (actions: Vec<Action>)
        ensures
            action::all_actions(actions@) == storing(self@.form, report),
    {
        if self.form.remember_password && self.form.password.as_str().is_empty() {
            return action::none();
        }
        let password = if self.form.remember_password {
            Some(self.form.password.clone())
        } else {
            None
        };
        action::one(
            Action::StorePassword {
                address: self.remote_address(),
                username: self.form.username.clone(),
                password,
                report,
            },
        )
    }

    pub(crate) fn save_device(&mut self) -> (actions: Vec<Action>)
        ensures
            (Step { state: final(self)@, actions: action::all_actions(actions@) })
                == device_saved(old(self)@),
    {
        let address = match self.remote_endpoint() {
            Ok(address) => address,
            Err(_) => {
                self.say("请输入有效的设备地址和端口");
                return action::none();
            },
        };
        let mut actions = action::none();
        if self.form.put_device(address.as_str(), DeviceState::Saved, false) {
            action::push(&mut actions, Action::RestartDeviceTransition);
            self.say("已加入历史连接");
        } else {
            self.say("历史连接已更新");
        }
        action::extend(&mut actions, self.store_credentials(true));
        action::push(&mut actions, self.persist_config(true));
        assert(action::all_actions(actions@) =~= device_saved(old(self)@).actions);
        actions
    }

    /// Starts the session.
    fn start_session(&mut self, endpoint: String, password: String) -> (actions: Vec<Action>)
        ensures
            final(self)@ == session_started(old(self)@),
            action::all_actions(actions@) == windows::disconnecting(old(self)@).push(
                ActionModel::StartSession(session_of(old(self)@, endpoint@, password@)),
            ),
    {
        let mut actions = self.disconnect_session();
        let config = SessionConfig {
            address: endpoint,
            username: text::trim(self.form.username.as_str()),
            password,
            quality: self.preferences.quality,
            frame_interval: frame_rate::frame_duration_from_rate(
                self.preferences.frame_rate.as_str(),
            ),
        };
        action::push(&mut actions, Action::StartSession(config));
        self.session.connection = ConnectionState::Connecting;
        self.session.server_name = String::new();
        self.session.error = None;
        self.session.zoom = 10;
        self.session.running = true;
        assert(self.session.server_name@ =~= Seq::<char>::empty());
        self.say("正在当前 Session 窗口中连接…");
        actions
    }

    fn connect_with(&mut self, endpoint: String, password: String) -> (actions: Vec<Action>)
        ensures
            (Step { state: final(self)@, actions: action::all_actions(actions@) }) == connecting(
                old(self)@,
                endpoint@,
                password@,
            ),
    {
        let ghost expected = connecting(old(self)@, endpoint@, password@);
        if self.form.remember_device {
            self.form.put_device(endpoint.as_str(), DeviceState::RecentlyUsed, true);
        }
        let mut actions = self.store_credentials(false);
        action::push(&mut actions, self.persist_config(false));
        let started = self.start_session(endpoint, password);
        action::extend(&mut actions, started);
        let window = match self.window_id(WindowKind::Session) {
            Some(id) => Action::FocusWindow(id),
            None => Action::OpenWindow(WindowKind::Session),
        };
        action::push(&mut actions, window);
        assert(action::all_actions(actions@) =~= expected.actions);
        actions
    }

    pub(crate) fn connect(&mut self) -> (actions: Vec<Action>)
        ensures
            (Step { state: final(self)@, actions: action::all_actions(actions@) })
                == connect_pressed(old(self)@),
    {
        let address = text::trim(self.form.address.as_str());
        let username = text::trim(self.form.username.as_str());
        if address.as_str().is_empty() || username.as_str().is_empty() {
            self.say("请输入设备地址和用户名");
            return action::none();
        }
        let endpoint = match self.remote_endpoint() {
            Ok(endpoint) => endpoint,
            Err(_) => {
                self.say("请输入有效端口（1–65535）");
                return action::none();
            },
        };
        if !self.form.password.as_str().is_empty() {
            let password = self.form.password.clone();
            self.connect_with(endpoint, password)
        } else if self.form.has_saved_password {
            action::one(
                Action::LoadPassword { endpoint, username: self.form.username.clone() },
            )
        } else {
            self.say("请输入密码");
            action::none()
        }
    }

    pub(crate) fn take_password(&mut self, endpoint: String, password: Option<String>) -> (actions:
        Vec<Action>)
        ensures
            (Step { state: final(self)@, actions: action::all_actions(actions@) })
                == password_loaded(old(self)@, endpoint@, action::text_of(password)),
    {
        if let Some(password) = password {
            if !password.as_str().is_empty() {
                return self.connect_with(endpoint, password);
            }
        }
        self.form.has_saved_password = false;
        self.say("保存的密码不可用，请重新输入");
        action::none()
    }

    pub(crate) fn remove_device(&mut self) -> (actions: Vec<Action>)
        ensures
            (Step { state: final(self)@, actions: action::all_actions(actions@) })
                == device_removed(old(self)@),
    {
        if self.form.devices.len() == 0 {
            return action::none();
        }
        let removed = self.form.remove_selected();
        if !text::starts_with(
            self.status.as_str(),
            "移除系统密钥库密码失败",
        ) {
            self.say("已移除所选历史连接");
        }
        let mut actions = action::one(
            Action::RemovePassword { address: removed.address, username: removed.username },
        );
        action::push(&mut actions, self.persist_config(true));
        assert(action::all_actions(actions@) =~= device_removed(old(self)@).actions);
        actions
    }
}

proof fn lemma_device_index(devices: Seq<DeviceModel>, address: Seq<char>)
    ensures
        device_index(devices, address) <= devices.len(),
        device_index(devices, address) < devices.len() ==> text::lowered(
            devices[device_index(devices, address) as int].address,
        ) == text::lowered(address),
        forall|i: int|
            0 <= i < device_index(devices, address) ==> text::lowered(
                (#[trigger] devices[i]).address,
            ) != text::lowered(address),
    decreases devices.len(),
{
    if devices.len() > 0 && text::lowered(devices[0].address) != text::lowered(address) {
        let rest = devices.drop_first();
        lemma_device_index(rest, address);
        assert(forall|i: int| 0 <= i < rest.len() ==> rest[i] == devices[i + 1]);
        assert forall|i: int| 0 <= i < device_index(devices, address) implies text::lowered(
            (#[trigger] devices[i]).address,
        ) != text::lowered(address) by {
            if i > 0 {
                assert(rest[i - 1] == devices[i]);
            }
        }
    }
}

/// A device that is put into the history: it is selected there, with the address and
/// the user; one that was there keeps its name and its address, a new one is named
/// by its host and comes last. The other devices stay as they are.
pub proof fn lemma_device_put(
    form: FormModel,
    address: Seq<char>,
    origin: DeviceState,
    mark: bool,
    i: int,
)
    ensures
        ({
            let after = device_put(form, address, origin, mark);
            let selected = after.devices[after.selected_device as int];
            let before = form.devices;
            &&& after.selected_device < after.devices.len()
            &&& text::lowered(selected.address) == text::lowered(address)
            &&& selected.username == text::trimmed(form.username)
            &&& before.len() <= after.devices.len() <= before.len() + 1
            &&& mark ==> selected.state == origin
            &&& after.devices.len() > before.len() ==> selected.address == address
                && selected.state == origin && after.selected_device == before.len()
                && selected.name == endpoint::endpoint_parts(address).0
            &&& after.devices.len() > before.len() ==> forall|k: int|
                0 <= k < before.len() ==> text::lowered((#[trigger] before[k]).address)
                    != text::lowered(address)
            &&& after.devices.len() == before.len() ==> {
                let old = before[after.selected_device as int];
                &&& selected.name == old.name
                &&& selected.address == old.address
                &&& !mark ==> selected.state == old.state
            }
            &&& 0 <= i < before.len() && i != after.selected_device ==> after.devices[i]
                == before[i]
            &&& after.address == form.address
            &&& after.port == form.port
            &&& after.username == form.username
            &&& after.password == form.password
        }),
{
    lemma_device_index(form.devices, address);
}

/// No two devices of the history have the same address.
pub open spec fn addresses_differ(devices: Seq<DeviceModel>) -> bool {
    forall|i: int, j: int|
        0 <= i < j < devices.len() ==> text::lowered((#[trigger] devices[i]).address)
            != text::lowered((#[trigger] devices[j]).address)
}

/// A device is in the history once: putting it there again only updates it, and
/// it is the selected one afterwards.
pub proof fn law_history_has_no_duplicates(
    form: FormModel,
    address: Seq<char>,
    origin: DeviceState,
    mark: bool,
)
    requires
        addresses_differ(form.devices),
    ensures
        ({
            let after = device_put(form, address, origin, mark);
            &&& addresses_differ(after.devices)
            &&& after.selected_device < after.devices.len()
            &&& text::lowered(after.devices[after.selected_device as int].address)
                == text::lowered(address)
            &&& after.devices.len() <= form.devices.len() + 1
            &&& device_put(after, address, origin, mark).devices.len() == after.devices.len()
        }),
{
    lemma_device_index(form.devices, address);
    let after = device_put(form, address, origin, mark);
    let index = device_index(form.devices, address);
    assert forall|i: int, j: int| 0 <= i < j < after.devices.len() implies text::lowered(
        (#[trigger] after.devices[i]).address,
    ) != text::lowered((#[trigger] after.devices[j]).address) by {
        if index < form.devices.len() {
            assert(after.devices[i].address == form.devices[i].address);
            assert(after.devices[j].address == form.devices[j].address);
        } else if j < form.devices.len() {
            assert(after.devices[i] == form.devices[i]);
            assert(after.devices[j] == form.devices[j]);
        } else {
            assert(after.devices[i] == form.devices[i]);
        }
    }
    lemma_device_index(after.devices, address);
    let again = device_index(after.devices, address);
    if again >= after.devices.len() {
        assert(text::lowered(after.devices[after.selected_device as int].address)
            != text::lowered(address));
    }
}

/// Without an address and a user, a valid endpoint and a password nothing is
/// started: no session is asked for, and only the status line changes.
pub proof fn law_incomplete_connection_starts_nothing(state: ViewerModel)
    requires
        text::trimmed(state.form.address).len() == 0 || text::trimmed(state.form.username).len()
            == 0 || viewer::endpoint_of(state.form) is None || (state.form.password.len() == 0
            && !state.form.has_saved_password),
    ensures
        connect_pressed(state).actions == Seq::<ActionModel>::empty(),
        connect_pressed(state).state == viewer::saying(state, connect_pressed(state).state.status),
{
}

/// A stored password that turns out to be unusable starts nothing either.
pub proof fn law_unusable_password_starts_nothing(
    state: ViewerModel,
    endpoint: Seq<char>,
    password: Option<Seq<char>>,
)
    requires
        password is None || password->0.len() == 0,
    ensures
        password_loaded(state, endpoint, password).actions == Seq::<ActionModel>::empty(),
        !password_loaded(state, endpoint, password).state.form.has_saved_password,
        password_loaded(state, endpoint, password).state.session == state.session,
{
}

/// Unless passwords are remembered, none is ever handed over to be stored.
pub proof fn law_password_is_stored_only_if_remembered(form: FormModel, report: bool)
    requires
        !form.remember_password,
    ensures
        forall|i: int|
            0 <= i < storing(form, report).len() ==> {
                let request = #[trigger] storing(form, report)[i];
                request is StorePassword && request->StorePassword_password is None
            },
{
}

} // verus!
