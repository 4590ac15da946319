use chrono::{Datelike, TimeZone, Timelike};
use hyprshot_rs::cli::{default_filename, parse_mode, resolve_delay, resolve_notif_timeout, Args, LocalTime, Mode};
use hyprshot_rs::config::{append_binds, commented_config, is_valid_hotkey, set_config_value, Config, ConfigError, InstallError};
use hyprshot_rs::geometry::Geometry;
use hyprshot_rs::paths::{expand_path, get_screenshots_dir, PathEnv};
use std::path::PathBuf;
use std::str::FromStr;
use std::time::Duration;

fn no_env() -> PathEnv {
    PathEnv { home: None, pictures: None, vars: Vec::new() }
}

fn host_env() -> PathEnv {
    PathEnv {
        home: dirs::home_dir().map(|p| p.to_string_lossy().into_owned()),
        pictures: dirs::picture_dir().map(|p| p.to_string_lossy().into_owned()),
        vars: Vec::new(),
    }
}

fn local_time(millis: i64) -> LocalTime {
    let t = match chrono::Local.timestamp_millis_opt(millis).single() {
        Some(v) => v,
        None => panic!("Failed to construct timestamp for test"),
    };
    LocalTime {
        year: t.year(),
        month: t.month(),
        day: t.day(),
        hour: t.hour(),
        minute: t.minute(),
        second: t.second(),
        millis: t.timestamp_subsec_millis(),
    }
}

#[test]
fn parse_output_name_mode() {
    let mut args = Args::default();
    args.mode = vec![parse_mode("output"), parse_mode("DP-1")];
    assert!(matches!(args.mode.get(0), Some(Mode::Output)));
    assert!(matches!(
        args.mode.get(1),
        Some(Mode::OutputName(name)) if name == "DP-1"
    ));
}

#[test]
fn notif_timeout_cli_overrides_config() {
    let mut config = Config::default();
    config.capture.notification_timeout = 7000;

    let mut args = Args::default();
    args.mode = vec![parse_mode("region")];
    args.notif_timeout = Some(5000);

    assert_eq!(resolve_notif_timeout(&args, &config), 5000);
}

#[test]
fn delay_uses_milliseconds_from_config() {
    let mut config = Config::default();
    config.advanced.delay_ms = 250;

    let mut args = Args::default();
    args.mode = vec![parse_mode("region")];
    assert_eq!(
        Duration::from_millis(resolve_delay(&args, &config) as u64),
        Duration::from_millis(250)
    );
}

#[test]
fn filename_includes_milliseconds() {
    let now = local_time(1_700_000_000_123);
    let name = default_filename(now);
    assert!(name.ends_with("-123_hyprshot.png"));
}

#[test]
fn filenames_differ_for_distinct_timestamps() {
    let first = local_time(1_700_000_000_001);
    let second = local_time(1_700_000_000_002);
    let a = default_filename(first);
    let b = default_filename(second);
    assert_ne!(a, b);
}

#[test]
fn geometry_parses_and_validates() {
    let geometry = match Geometry::from_str("10,20 300x400") {
        Ok(v) => v,
        Err(err) => panic!("Failed to parse geometry: {:?}", err),
    };
    assert_eq!(geometry.x, 10);
    assert_eq!(geometry.y, 20);
    assert_eq!(geometry.width, 300);
    assert_eq!(geometry.height, 400);

    assert!(Geometry::from_str("10,20 0x400").is_err());
    assert!(Geometry::from_str("10,20 -1x400").is_err());
    assert!(Geometry::from_str("10,20 300x0").is_err());
}

#[test]
fn parse_active_output_mode_combo() {
    let mut args = Args::default();
    args.mode = vec![parse_mode("output"), parse_mode("active")];
    assert!(matches!(args.mode.get(0), Some(Mode::Output)));
    assert!(matches!(args.mode.get(1), Some(Mode::Active)));
}

#[test]
fn test_default_config() {
    let config = Config::default();
    assert_eq!(config.paths.screenshots_dir, "~/Pictures");
    assert_eq!(config.hotkeys.window, "SUPER, Print");
    assert!(config.capture.notification);
    assert_eq!(config.capture.notification_timeout, 3000);
    assert!(config.advanced.freeze_on_region);
    assert_eq!(config.advanced.delay_ms, 0);
}

#[test]
fn test_expand_path_tilde() {
    let env = host_env();
    let result = match expand_path("~/Pictures", &env) {
        Ok(v) => v,
        Err(err) => panic!("Failed to expand path: {:?}", err),
    };
    let home = match dirs::home_dir() {
        Some(v) => v,
        None => panic!("Failed to resolve home directory"),
    };
    assert_eq!(PathBuf::from(result), home.join("Pictures"));

    let result = match expand_path("~", &env) {
        Ok(v) => v,
        Err(err) => panic!("Failed to expand home path: {:?}", err),
    };
    assert_eq!(PathBuf::from(result), home);
}

#[test]
fn test_expand_path_env_vars() {
    let env = PathEnv {
        home: None,
        pictures: None,
        vars: vec![("TEST_VAR".to_string(), "/test/path".to_string())],
    };
    let result = match expand_path("$TEST_VAR/screenshots", &env) {
        Ok(v) => v,
        Err(err) => panic!("Failed to expand env path: {:?}", err),
    };
    assert_eq!(PathBuf::from(result), PathBuf::from("/test/path/screenshots"));
}

#[test]
fn test_expand_path_xdg_pictures() {
    let env = host_env();
    let result = match expand_path("$XDG_PICTURES_DIR/screenshots", &env) {
        Ok(v) => v,
        Err(err) => panic!("Failed to expand XDG pictures path: {:?}", err),
    };
    if let Some(pictures_dir) = dirs::picture_dir() {
        assert_eq!(PathBuf::from(result), pictures_dir.join("screenshots"));
    } else {
        let home = match dirs::home_dir() {
            Some(v) => v,
            None => panic!("Failed to resolve home directory"),
        };
        assert_eq!(PathBuf::from(result), home.join("Pictures/screenshots"));
    }
}

#[test]
fn test_expand_path_empty() {
    let result = match expand_path("", &no_env()) {
        Ok(v) => v,
        Err(err) => panic!("Failed to expand empty path: {:?}", err),
    };
    assert_eq!(PathBuf::from(result), PathBuf::from("."));
}

#[test]
fn test_expand_path_no_expansion() {
    let result = match expand_path("/absolute/path", &no_env()) {
        Ok(v) => v,
        Err(err) => panic!("Failed to expand absolute path: {:?}", err),
    };
    assert_eq!(PathBuf::from(result), PathBuf::from("/absolute/path"));

    let result = match expand_path("relative/path", &no_env()) {
        Ok(v) => v,
        Err(err) => panic!("Failed to expand relative path: {:?}", err),
    };
    assert_eq!(PathBuf::from(result), PathBuf::from("relative/path"));
}

#[test]
fn test_expand_path_undefined_var() {
    let result = match expand_path("$UNDEFINED_VAR_12345/test", &no_env()) {
        Ok(v) => v,
        Err(err) => panic!("Failed to expand undefined var path: {:?}", err),
    };
    assert_eq!(PathBuf::from(result), PathBuf::from("$UNDEFINED_VAR_12345/test"));
}

#[test]
fn test_get_screenshots_dir_priority_cli() {
    let config = Config::default();
    let cli_path = Some("/cli/path".to_string());
    let env = PathEnv {
        home: None,
        pictures: None,
        vars: vec![("HYPRSHOT_DIR".to_string(), "/env/path".to_string())],
    };

    let result = match get_screenshots_dir(cli_path, &config, &env) {
        Ok(v) => v,
        Err(err) => panic!("Failed to resolve screenshots dir (cli): {:?}", err),
    };
    assert_eq!(PathBuf::from(result), PathBuf::from("/cli/path"));
}

#[test]
fn test_get_screenshots_dir_priority_env() {
    let config = Config::default();
    let env = PathEnv {
        home: None,
        pictures: None,
        vars: vec![("HYPRSHOT_DIR".to_string(), "/env/path".to_string())],
    };

    let result = match get_screenshots_dir(None, &config, &env) {
        Ok(v) => v,
        Err(err) => panic!("Failed to resolve screenshots dir (env): {:?}", err),
    };
    assert_eq!(PathBuf::from(result), PathBuf::from("/env/path"));
}

#[test]
fn test_get_screenshots_dir_priority_config() {
    let mut config = Config::default();
    config.paths.screenshots_dir = "/config/path".to_string();

    let result = match get_screenshots_dir(None, &config, &no_env()) {
        Ok(v) => v,
        Err(err) => panic!("Failed to resolve screenshots dir (config): {:?}", err),
    };
    assert_eq!(PathBuf::from(result), PathBuf::from("/config/path"));
}

#[test]
fn test_get_screenshots_dir_with_tilde() {
    let mut config = Config::default();
    config.paths.screenshots_dir = "~/Screenshots".to_string();

    let result = match get_screenshots_dir(None, &config, &host_env()) {
        Ok(v) => v,
        Err(err) => panic!("Failed to resolve screenshots dir (tilde): {:?}", err),
    };
    let home = match dirs::home_dir() {
        Some(v) => v,
        None => panic!("Failed to resolve home directory"),
    };
    assert_eq!(PathBuf::from(result), home.join("Screenshots"));
}

#[test]
fn test_generate_hyprland_binds() {
    let config = Config::default();
    let binds = config.generate_hyprland_binds();

    assert!(binds.contains("# hyprshot-rs keybindings"));
    assert!(binds.contains("# Generated by: hyprshot-rs --generate-hyprland-config"));

    assert!(binds.contains("bind = SUPER, Print, exec, hyprshot-rs -m window"));
    assert!(binds.contains("bind = SUPER SHIFT, Print, exec, hyprshot-rs -m region"));
    assert!(binds.contains("bind = SUPER CTRL, Print, exec, hyprshot-rs -m output"));
    assert!(binds.contains("bind = , Print, exec, hyprshot-rs -m active -m output"));

    assert!(!binds.contains("--clipboard-only"));
}

#[test]
fn test_generate_hyprland_binds_with_clipboard() {
    let config = Config::default();
    let binds = config.generate_hyprland_binds_with_clipboard();

    assert!(binds.contains("bind = SUPER, Print, exec, hyprshot-rs -m window"));
    assert!(binds.contains("bind = SUPER SHIFT, Print, exec, hyprshot-rs -m region"));

    assert!(binds.contains("# Screenshot to clipboard (no file saved)"));
    assert!(binds.contains(
        "bind = SUPER ALT, Print, exec, hyprshot-rs -m window --clipboard-only"
    ));
    assert!(binds.contains(
        "bind = SUPER SHIFT ALT, Print, exec, hyprshot-rs -m region --clipboard-only"
    ));
    assert!(binds.contains(
        "bind = SUPER CTRL ALT, Print, exec, hyprshot-rs -m output --clipboard-only"
    ));
}

#[test]
fn add_alt_modifier_cases() {
    let config = Config::default();
    assert_eq!(config.add_alt_modifier("SUPER, Print"), "SUPER ALT, Print");
    assert_eq!(config.add_alt_modifier(", Print"), "ALT, Print");
    assert_eq!(config.add_alt_modifier("SUPER SHIFT, Print"), "SUPER SHIFT ALT, Print");
    assert_eq!(config.add_alt_modifier("SUPER ALT, Print"), "SUPER ALT, Print");
    assert_eq!(config.add_alt_modifier("ALT, Print"), "ALT, Print");
    assert_eq!(config.add_alt_modifier("CTRL, S"), "CTRL ALT, S");
    assert_eq!(config.add_alt_modifier("Print"), "Print");
}

#[test]
fn default_filename_exact_text() {
    let t = LocalTime { year: 2024, month: 3, day: 7, hour: 9, minute: 5, second: 4, millis: 12 };
    assert_eq!(default_filename(t), "2024-03-07-090504-012_hyprshot.png");
    let far = LocalTime { year: 12345, month: 12, day: 31, hour: 23, minute: 59, second: 59, millis: 999 };
    assert_eq!(default_filename(far), "+12345-12-31-235959-999_hyprshot.png");
}

#[test]
fn mode_words_ignore_case() {
    assert!(matches!(parse_mode("WINDOW"), Mode::Window));
    assert!(matches!(parse_mode("Region"), Mode::Region));
    assert!(matches!(parse_mode("HDMI-A-1"), Mode::OutputName(n) if n == "HDMI-A-1"));
}

#[test]
fn delay_option_counts_seconds() {
    let config = Config::default();
    let mut args = Args::default();
    args.delay = Some(3);
    assert_eq!(resolve_delay(&args, &config), 3000);
    args.delay = None;
    assert_eq!(resolve_delay(&args, &config), 0);
    assert_eq!(resolve_notif_timeout(&args, &config), 3000);
}

#[test]
fn set_config_value_updates_and_rejects() {
    let mut config = Config::default();
    assert_eq!(set_config_value(&mut config, "paths.screenshots_dir", "~/Shots"), Ok(()));
    assert_eq!(config.paths.screenshots_dir, "~/Shots");
    assert_eq!(set_config_value(&mut config, "capture.notification_timeout", "1500"), Ok(()));
    assert_eq!(config.capture.notification_timeout, 1500);
    assert_eq!(set_config_value(&mut config, "advanced.freeze_on_region", "false"), Ok(()));
    assert!(!config.advanced.freeze_on_region);
    assert_eq!(set_config_value(&mut config, "capture.notification", "false"), Ok(()));
    assert!(!config.capture.notification);

    assert_eq!(set_config_value(&mut config, "paths", "x"), Err(ConfigError::InvalidKeyFormat));
    assert_eq!(set_config_value(&mut config, "a.b.c", "x"), Err(ConfigError::InvalidKeyFormat));
    assert_eq!(set_config_value(&mut config, "paths.nothing", "x"), Err(ConfigError::UnknownKey));
    assert_eq!(set_config_value(&mut config, "capture.default_format", "jpeg"), Err(ConfigError::UnknownKey));
    assert_eq!(set_config_value(&mut config, "capture.clipboard_on_capture", "true"), Err(ConfigError::UnknownKey));
    assert_eq!(set_config_value(&mut config, "capture.notification", "yes"), Err(ConfigError::InvalidBool));
    assert_eq!(set_config_value(&mut config, "advanced.delay_ms", "-5"), Err(ConfigError::InvalidNumber));
    assert_eq!(set_config_value(&mut config, "advanced.delay_ms", "4294967296"), Err(ConfigError::InvalidNumber));
    assert_eq!(config.capture.default_format, "png");
    assert!(!config.capture.clipboard_on_capture);
    assert_eq!(config.advanced.delay_ms, 0);
}

#[test]
fn expand_path_edge_cases() {
    let env = PathEnv {
        home: Some("/home/u".to_string()),
        pictures: None,
        vars: vec![("A".to_string(), "x".to_string())],
    };
    assert_eq!(expand_path("  ~/d  ", &env), Ok("/home/u/d".to_string()));
    assert_eq!(expand_path("$A$/$", &env), Ok("x$/$".to_string()));
    assert_eq!(expand_path("$XDG_PICTURES_DIR", &env), Ok("/home/u/Pictures".to_string()));
    assert_eq!(expand_path("~", &no_env()), Err(hyprshot_rs::paths::PathError::NoHome));
    assert_eq!(expand_path("$XDG_PICTURES_DIR", &no_env()), Ok("Pictures".to_string()));
}

#[test]
fn append_binds_adds_once() {
    assert_eq!(append_binds("monitor=,auto", "B\n"), Ok("monitor=,auto\n\nB\n".to_string()));
    assert_eq!(append_binds("x\n", "B\n"), Ok("x\n\nB\n".to_string()));
    let binds = Config::default().generate_hyprland_binds();
    let once = match append_binds("", &binds) {
        Ok(t) => t,
        Err(e) => panic!("first install refused: {:?}", e),
    };
    assert_eq!(append_binds(&once, &binds), Err(InstallError::AlreadyInstalled));
}

#[test]
fn commented_config_marks_sections() {
    let out = commented_config("[paths]\r\nscreenshots_dir = \"~\"\n\n[advanced]\ndelay_ms = 0\n");
    assert_eq!(
        out,
        "# hyprshot-rs configuration file\n# This file is automatically generated. Edit with care.\n\n\
         # Paths configuration\n[paths]\nscreenshots_dir = \"~\"\n\n\n# Advanced settings\n[advanced]\ndelay_ms = 0\n"
    );
    assert!(commented_config("").ends_with("Edit with care.\n\n"));
}

#[test]
fn hotkeys_need_a_comma() {
    assert!(is_valid_hotkey("SUPER, Print"));
    assert!(is_valid_hotkey(", Print"));
    assert!(!is_valid_hotkey("SUPER Print"));
    assert!(!is_valid_hotkey(""));
}
