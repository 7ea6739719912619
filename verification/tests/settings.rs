use ard_viewer::clock::Duration;
use ard_viewer::config::{
    devices_from_cache, devices_to_cache, language_from_cache, quality_from_cache,
    quality_to_cache, theme_from_cache, theme_to_cache, AppConfig, CachedDevice,
};
use ard_viewer::endpoint::{endpoint_from_fields, format_endpoint, split_endpoint};
use ard_viewer::frame_rate::{
    frame_duration_from_rate, frame_interval_from_rate, frame_rate_from_interval, rate_from_input,
};
use ard_viewer::i18n::Language;
use ard_viewer::icons::Icon;
use ard_viewer::keymap::{copy_profile, default_mappings, profile_mappings};
use ard_viewer::recording::quality::RecordingQuality;
use ard_viewer::state::{ArdVideoQuality, DeviceState, ThemePreference};
use ard_viewer::text::{is_whitespace, parse_unsigned, push_hex, push_padded_hex, to_lower, trim};

#[test]
fn language_codes_are_stable() {
    assert_eq!(Language::from_code("en"), Language::English);
    assert_eq!(Language::English.code(), "en");
    assert_eq!(Language::from_code("unknown"), Language::SimplifiedChinese);
}

#[test]
fn languages_come_back_from_their_codes() {
    for language in Language::all() {
        assert_eq!(Language::from_code(language.code()), language);
        assert_eq!(language_from_cache(language.code()), language);
    }
    assert_eq!(Language::English.label(), "English");
    assert_eq!(Language::SimplifiedChinese.label(), "简体中文");
}

#[test]
fn texts_are_translated_where_a_translation_is_known() {
    assert_eq!(Language::SimplifiedChinese.tr("设置"), "设置");
    assert_eq!(Language::English.tr("高画质"), RecordingQuality::High.label(Language::English));
    assert_eq!(Language::English.tr("no such text"), "no such text");
    for text in ["连接", "低", "默认 5900", "macOS 默认", "许可证：MIT OR Apache-2.0"] {
        let english = Language::English.tr(text);
        assert_ne!(english, text);
        assert_eq!(Language::English.tr(english), english);
        assert_eq!(Language::SimplifiedChinese.tr(text), text);
    }
}

#[test]
fn frame_rate_is_converted_to_protocol_interval() {
    assert_eq!(frame_interval_from_rate(""), 0);
    assert_eq!(frame_interval_from_rate("30"), 33);
    assert_eq!(frame_interval_from_rate("60"), 16);
    assert_eq!(frame_interval_from_rate("240"), 4);
    assert_eq!(
        frame_duration_from_rate("60"),
        Duration::from_nanos(16_666_667)
    );
    assert_eq!(frame_rate_from_interval("0"), "");
    assert_eq!(frame_rate_from_interval("16"), "63");
}

#[test]
fn frame_rates_agree_with_floating_point() {
    for rate in 1..=240_u64 {
        let exact = std::time::Duration::from_secs_f64(1.0 / rate as f64);
        assert_eq!(
            frame_duration_from_rate(&format!("{rate}")).as_nanos(),
            exact.as_nanos(),
            "rate {rate}"
        );
    }
    for interval in 1..=2_000_u64 {
        let exact = (1000.0 / interval as f64).round() as u64;
        let rate = frame_rate_from_interval(&format!("{interval}"));
        assert_eq!(rate, format!("{}", exact.clamp(1, 240)), "interval {interval}");
    }
    assert_eq!(frame_interval_from_rate("9999"), 4);
    assert_eq!(rate_from_input("12x3"), "123");
}

#[test]
fn endpoints_are_split_at_their_port() {
    for (value, host, port) in [
        ("host.local", "host.local", "5900"),
        ("host.local:5901", "host.local", "5901"),
        (" host ", "host", "5900"),
        ("[fe80::1]:5901", "fe80::1", "5901"),
        ("fe80::1", "fe80::1", "5900"),
        ("host:x", "host:x", "5900"),
    ] {
        assert_eq!(
            split_endpoint(value),
            (host.to_owned(), port.to_owned()),
            "{value}"
        );
    }
    assert_eq!(format_endpoint("fe80::1", "5901"), "[fe80::1]:5901");
    assert_eq!(format_endpoint(" host ", "5901"), "host:5901");
    for host in ["host", "fe80::1"] {
        let endpoint = format_endpoint(host, "5901");
        assert_eq!(
            split_endpoint(&endpoint),
            (host.to_owned(), "5901".to_owned())
        );
    }
    assert_eq!(endpoint_from_fields("host", "65536"), None);
    assert_eq!(endpoint_from_fields("host", "0"), None);
    assert_eq!(endpoint_from_fields("", "5900"), None);
    assert_eq!(
        endpoint_from_fields("host", " 05900 ").as_deref(),
        Some("host:5900")
    );
}

#[test]
fn default_settings_are_complete() {
    let config = AppConfig::default();
    assert!(config.devices.is_empty());
    assert_eq!(
        quality_from_cache(&config.quality),
        ArdVideoQuality::Adaptive
    );
    assert_eq!(theme_from_cache(&config.theme), ThemePreference::System);
}

#[test]
fn settings_come_back_from_their_names() {
    for quality in [
        ArdVideoQuality::Low,
        ArdVideoQuality::Medium,
        ArdVideoQuality::High,
        ArdVideoQuality::Adaptive,
        ArdVideoQuality::Full,
    ] {
        assert_eq!(quality_from_cache(quality_to_cache(quality)), quality);
    }
    for theme in [
        ThemePreference::System,
        ThemePreference::Light,
        ThemePreference::Dark,
    ] {
        assert_eq!(theme_from_cache(theme_to_cache(theme)), theme);
    }
    assert_eq!(quality_from_cache("?"), ArdVideoQuality::Adaptive);
    assert_eq!(theme_from_cache("?"), ThemePreference::System);
}

#[test]
fn the_history_comes_back() {
    let config = AppConfig {
        devices: vec![CachedDevice {
            name: "A".into(),
            address: "a:5900".into(),
            username: "ann".into(),
        }],
        ..AppConfig::default()
    };
    let devices = devices_from_cache(&config);
    assert_eq!(devices.len(), 1);
    assert_eq!(devices[0].name, "A");
    assert_eq!(devices[0].state, DeviceState::Saved);
    let cached = devices_to_cache(&devices);
    assert_eq!(cached[0].address, "a:5900");
    assert_eq!(cached[0].username, "ann");
}

#[test]
fn profiles_have_their_mappings() {
    let defaults = default_mappings();
    let windows = profile_mappings("Windows");
    assert!(!defaults.is_empty() && !windows.is_empty());
    assert_eq!(copy_profile("A"), "A 副本");
    assert_eq!(copy_profile("A 副本"), "A 副本");
    assert_eq!(copy_profile("A 副本 副本"), "A 副本");
}

#[test]
fn icons_have_their_files() {
    assert_eq!(Icon::Settings.asset(), "settings.svg");
    assert_ne!(Icon::Eye.asset(), Icon::EyeOff.asset());
}

#[test]
fn text_functions_agree_with_std() {
    for code in 0..=0x10_ffff_u32 {
        if let Some(c) = char::from_u32(code) {
            assert_eq!(is_whitespace(c), c.is_whitespace(), "{code:x}");
        }
    }
    for text in ["", "  a b\u{3000}", "\u{85}x", "MiXed É"] {
        assert_eq!(trim(text), text.trim());
    }
    assert_eq!(to_lower("MiXed"), "mixed");
    for text in ["0", "007", "+7", "-1", "18446744073709551615", "18446744073709551616", "", "1a"] {
        assert_eq!(parse_unsigned(text, u64::MAX), text.parse::<u64>().ok(), "{text}");
    }
    assert_eq!(parse_unsigned("65536", 65_535), None);
    for n in [0, 9, 0x1f, u64::MAX] {
        let mut hex = String::new();
        push_hex(&mut hex, n);
        assert_eq!(hex, format!("{n:x}"));
        let mut padded = String::new();
        push_padded_hex(&mut padded, n, 8);
        assert_eq!(padded, format!("{n:08x}"));
    }
}
