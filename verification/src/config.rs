//! The settings that are kept between two runs.

use crate::i18n;
use crate::i18n::Language;
use crate::state;
use crate::state::{ArdVideoQuality, DeviceModel, DeviceState, SavedDevice, ThemePreference};
use crate::text;
use vstd::prelude::*;

verus! {

/// A device of the history as it is kept.
#[derive(Debug)]
pub struct CachedDevice {
    pub name: String,
    pub address: String,
    pub username: String,
}

/// What a `CachedDevice` holds.
pub struct CachedDeviceModel {
    pub name: Seq<char>,
    pub address: Seq<char>,
    pub username: Seq<char>,
}

impl View for CachedDevice {
    type V = CachedDeviceModel;

    open spec fn view(&self) -> CachedDeviceModel {
        CachedDeviceModel {
            name: self.name@,
            address: self.address@,
            username: self.username@,
        }
    }
}

/// What kept devices hold.
pub open spec fn all_cached(devices: Seq<CachedDevice>) -> Seq<CachedDeviceModel> {
    devices.map_values(|d: CachedDevice| d@)
}

/// The settings that are kept.
#[derive(Debug)]
pub struct AppConfig {
    pub devices: Vec<CachedDevice>,
    pub last_address: String,
    pub last_username: String,
    pub remember_password: bool,
    pub remember_device: bool,
    pub quality: String,
    pub frame_rate: String,
    pub frame_interval_ms: String,
    pub key_profile: String,
    pub auto_adapt_keyboard: bool,
    pub capture_system_shortcuts: bool,
    pub reverse_scroll: bool,
    pub show_performance_hud: bool,
    pub theme: String,
    pub language: String,
}

/// What an `AppConfig` holds.
pub struct ConfigModel {
    pub devices: Seq<CachedDeviceModel>,
    pub last_address: Seq<char>,
    pub last_username: Seq<char>,
    pub remember_password: bool,
    pub remember_device: bool,
    pub quality: Seq<char>,
    pub frame_rate: Seq<char>,
    pub frame_interval_ms: Seq<char>,
    pub key_profile: Seq<char>,
    pub auto_adapt_keyboard: bool,
    pub capture_system_shortcuts: bool,
    pub reverse_scroll: bool,
    pub show_performance_hud: bool,
    pub theme: Seq<char>,
    pub language: Seq<char>,
}

impl View for AppConfig {
    type V = ConfigModel;

    open spec fn view(&self) -> ConfigModel {
        ConfigModel {
            devices: all_cached(self.devices@),
            last_address: self.last_address@,
            last_username: self.last_username@,
            remember_password: self.remember_password,
            remember_device: self.remember_device,
            quality: self.quality@,
            frame_rate: self.frame_rate@,
            frame_interval_ms: self.frame_interval_ms@,
            key_profile: self.key_profile@,
            auto_adapt_keyboard: self.auto_adapt_keyboard,
            capture_system_shortcuts: self.capture_system_shortcuts,
            reverse_scroll: self.reverse_scroll,
            show_performance_hud: self.show_performance_hud,
            theme: self.theme@,
            language: self.language@,
        }
    }
}

/// The settings before anything was kept.
pub open spec fn default_config() -> ConfigModel {
    ConfigModel {
        devices: Seq::empty(),
        last_address: Seq::empty(),
        last_username: Seq::empty(),
        remember_password: false,
        remember_device: true,
        quality: "adaptive"@,
        frame_rate: Seq::empty(),
        frame_interval_ms: "0"@,
        key_profile: "macOS 默认"@,
        auto_adapt_keyboard: true,
        capture_system_shortcuts: false,
        reverse_scroll: false,
        show_performance_hud: true,
        theme: "system"@,
        language: "zh-CN"@,
    }
}

impl Default for AppConfig {
    fn default() -> (config: Self)
        ensures
            config@ == default_config(),
    {
        let config = AppConfig {
            devices: Vec::new(),
            last_address: String::new(),
            last_username: String::new(),
            remember_password: false,
            remember_device: true,
            quality: "adaptive".to_owned(),
            frame_rate: String::new(),
            frame_interval_ms: "0".to_owned(),
            key_profile: "macOS 默认".to_owned(),
            auto_adapt_keyboard: true,
            capture_system_shortcuts: false,
            reverse_scroll: false,
            show_performance_hud: true,
            theme: "system".to_owned(),
            language: "zh-CN".to_owned(),
        };
        assert(config@.devices =~= Seq::<CachedDeviceModel>::empty());
        assert(config@.last_address =~= Seq::<char>::empty());
        assert(config@.last_username =~= Seq::<char>::empty());
        assert(config@.frame_rate =~= Seq::<char>::empty());
        config
    }
}

/// The device that a kept one stands for.
pub open spec fn device_of(device: CachedDeviceModel) -> DeviceModel {
    DeviceModel {
        name: device.name,
        address: device.address,
        username: device.username,
        state: DeviceState::Saved,
    }
}

/// What is kept of a device.
pub open spec fn cached_of(device: DeviceModel) -> CachedDeviceModel {
    CachedDeviceModel {
        name: device.name,
        address: device.address,
        username: device.username,
    }
}

/// The history of the kept settings.
pub fn devices_from_cache(config: &AppConfig) -> (devices: Vec<SavedDevice>)
    ensures
        state::all_devices(devices@) == config@.devices.map_values(
            |d: CachedDeviceModel| device_of(d),
        ),
{
    let mut devices: Vec<SavedDevice> = Vec::new();
    for i in 0..config.devices.len()
        invariant
            devices@.len() == i,
            forall|k: int|
                0 <= k < i ==> #[trigger] devices@[k]@ == device_of(config.devices@[k]@),
    {
        let device = &config.devices[i];
        devices.push(
            SavedDevice {
                name: device.name.clone(),
                address: device.address.clone(),
                username: device.username.clone(),
                state: DeviceState::Saved,
            },
        );
    }
    assert(state::all_devices(devices@) =~= config@.devices.map_values(
        |d: CachedDeviceModel| device_of(d),
    ));
    devices
}

/// What is kept of the history.
pub fn devices_to_cache(devices: &Vec<SavedDevice>) -> (cached: Vec<CachedDevice>)
    ensures
        all_cached(cached@) == state::all_devices(devices@).map_values(
            |d: DeviceModel| cached_of(d),
        ),
{
    let mut cached: Vec<CachedDevice> = Vec::new();
    for i in 0..devices.len()
        invariant
            cached@.len() == i,
            forall|k: int|
                0 <= k < i ==> #[trigger] cached@[k]@ == cached_of(devices@[k]@),
    {
        let device = &devices[i];
        cached.push(
            CachedDevice {
                name: device.name.clone(),
                address: device.address.clone(),
                username: device.username.clone(),
            },
        );
    }
    assert(all_cached(cached@) =~= state::all_devices(devices@).map_values(
        |d: DeviceModel| cached_of(d),
    ));
    cached
}

/// The quality that a kept value stands for.
pub open spec fn quality_of(value: Seq<char>) -> ArdVideoQuality {
    if value == "low"@ {
        ArdVideoQuality::Low
    } else if value == "medium"@ {
        ArdVideoQuality::Medium
    } else if value == "high"@ {
        ArdVideoQuality::High
    } else if value == "full"@ {
        ArdVideoQuality::Full
    } else {
        ArdVideoQuality::Adaptive
    }
}

/// The value that is kept of a quality.
pub open spec fn quality_value(quality: ArdVideoQuality) -> Seq<char> {
    match quality {
        ArdVideoQuality::Low => "low"@,
        ArdVideoQuality::Medium => "medium"@,
        ArdVideoQuality::High => "high"@,
        ArdVideoQuality::Adaptive => "adaptive"@,
        ArdVideoQuality::Full => "full"@,
    }
}

/// The quality that a kept value stands for.
pub fn quality_from_cache(value: &str) -> (quality: ArdVideoQuality)
    ensures
        quality == quality_of(value@),
{
    if text::same_text(value, "low") {
        ArdVideoQuality::Low
    } else if text::same_text(value, "medium") {
        ArdVideoQuality::Medium
    } else if text::same_text(value, "high") {
        ArdVideoQuality::High
    } else if text::same_text(value, "full") {
        ArdVideoQuality::Full
    } else {
        ArdVideoQuality::Adaptive
    }
}

/// The value that is kept of a quality.
pub fn quality_to_cache(quality: ArdVideoQuality) -> (value: &'static str)
    ensures
        value@ == quality_value(quality),
{
    match quality {
        ArdVideoQuality::Low => "low",
        ArdVideoQuality::Medium => "medium",
        ArdVideoQuality::High => "high",
        ArdVideoQuality::Adaptive => "adaptive",
        ArdVideoQuality::Full => "full",
    }
}

/// The appearance that a kept value stands for.
pub open spec fn theme_of(value: Seq<char>) -> ThemePreference {
    if value == "light"@ {
        ThemePreference::Light
    } else if value == "dark"@ {
        ThemePreference::Dark
    } else {
        ThemePreference::System
    }
}

/// The value that is kept of an appearance.
pub open spec fn theme_value(theme: ThemePreference) -> Seq<char> {
    match theme {
        ThemePreference::System => "system"@,
        ThemePreference::Light => "light"@,
        ThemePreference::Dark => "dark"@,
    }
}

/// The appearance that a kept value stands for.
pub fn theme_from_cache(value: &str) -> (theme: ThemePreference)
    ensures
        theme == theme_of(value@),
{
    if text::same_text(value, "light") {
        ThemePreference::Light
    } else if text::same_text(value, "dark") {
        ThemePreference::Dark
    } else {
        ThemePreference::System
    }
}

/// The value that is kept of an appearance.
pub fn theme_to_cache(theme: ThemePreference) -> (value: &'static str)
    ensures
        value@ == theme_value(theme),
{
    match theme {
        ThemePreference::System => "system",
        ThemePreference::Light => "light",
        ThemePreference::Dark => "dark",
    }
}

/// The language that a kept value stands for.
pub fn language_from_cache(value: &str) -> (language: Language)
    ensures
        language == i18n::language_of(value@),
{
    Language::from_code(value)
}

/// A quality that was kept is the quality that comes back.
pub proof fn law_quality_round_trip(quality: ArdVideoQuality)
    ensures
        quality_of(quality_value(quality)) == quality,
{
    reveal_strlit("low");
    reveal_strlit("medium");
    reveal_strlit("high");
    reveal_strlit("full");
    reveal_strlit("adaptive");
    assert("low"@[0] == 'l' && "medium"@[0] == 'm' && "high"@[0] == 'h' && "full"@[0] == 'f'
        && "adaptive"@[0] == 'a');
}

/// An appearance that was kept is the appearance that comes back.
pub proof fn law_theme_round_trip(theme: ThemePreference)
    ensures
        theme_of(theme_value(theme)) == theme,
{
    reveal_strlit("system");
    reveal_strlit("light");
    reveal_strlit("dark");
    assert("system"@[0] == 's' && "light"@[0] == 'l' && "dark"@[0] == 'd');
}

/// The history that was kept comes back with its names, addresses and users; where
/// a device came from is not kept.
pub proof fn law_history_round_trip(devices: Seq<DeviceModel>)
    ensures
        devices.map_values(|d: DeviceModel| cached_of(d)).map_values(
            |d: CachedDeviceModel| device_of(d),
        ) == devices.map_values(
            |d: DeviceModel| DeviceModel { state: DeviceState::Saved, ..d },
        ),
{
    assert(devices.map_values(|d: DeviceModel| cached_of(d)).map_values(
        |d: CachedDeviceModel| device_of(d),
    ) =~= devices.map_values(|d: DeviceModel| DeviceModel { state: DeviceState::Saved, ..d }));
}

/// The names of the qualities and themes in the settings file; an unknown name stands
/// for the adaptive quality and the theme of the system.
pub proof fn law_names_in_the_settings(name: Seq<char>)
    ensures
        quality_value(ArdVideoQuality::Low) == "low"@,
        quality_value(ArdVideoQuality::Medium) == "medium"@,
        quality_value(ArdVideoQuality::High) == "high"@,
        quality_value(ArdVideoQuality::Full) == "full"@,
        quality_value(ArdVideoQuality::Adaptive) == "adaptive"@,
        name != "low"@ && name != "medium"@ && name != "high"@ && name != "full"@ ==> quality_of(
            name,
        ) is Adaptive,
        theme_value(ThemePreference::Light) == "light"@,
        theme_value(ThemePreference::Dark) == "dark"@,
        theme_value(ThemePreference::System) == "system"@,
        name != "light"@ && name != "dark"@ ==> theme_of(name) is System,
{
}

/// A fresh installation: no history, devices remembered but no passwords, the adaptive
/// quality at any rate, and the system's theme in Chinese.
pub proof fn law_a_fresh_installation()
    ensures
        ({
            let config = default_config();
            &&& config.devices.len() == 0
            &&& config.last_address.len() == 0
            &&& config.last_username.len() == 0
            &&& !config.remember_password
            &&& config.remember_device
            &&& quality_of(config.quality) is Adaptive
            &&& config.frame_rate.len() == 0
            &&& theme_of(config.theme) is System
            &&& i18n::language_of(config.language) is SimplifiedChinese
            &&& config.auto_adapt_keyboard
            &&& !config.capture_system_shortcuts
            &&& !config.reverse_scroll
            &&& config.show_performance_hud
            &&& config.key_profile == "macOS 默认"@
        }),
{
    reveal_strlit("adaptive");
    reveal_strlit("low");
    reveal_strlit("medium");
    reveal_strlit("high");
    reveal_strlit("full");
    reveal_strlit("system");
    reveal_strlit("light");
    reveal_strlit("dark");
    reveal_strlit("zh-CN");
    reveal_strlit("en");
    reveal_strlit("en-US");
    reveal_strlit("en-GB");
    assert("adaptive"@.len() == 8);
    assert("system"@[0] == 's');
    assert("medium"@.len() == 6 && "light"@.len() == 5 && "dark"@.len() == 4);
    assert("zh-CN"@[0] == 'z');
    assert("en-US"@[0] == 'e' && "en-GB"@[0] == 'e');
}

} // verus!
