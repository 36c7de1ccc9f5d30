//! Snapshot assembly, settings defaults, configuration-file helpers and
//! installer decisions.

use nginx_supervisor::config_files::config_file_name;
use nginx_supervisor::config_files::format_file_size;
use nginx_supervisor::install::service_component_selected;
use nginx_supervisor::install::Component;
use nginx_supervisor::install::InstallConfig;
use nginx_supervisor::install::InstallOptions;
use nginx_supervisor::settings::apply_builtin_defaults;
use nginx_supervisor::settings::AppSettings;
use nginx_supervisor::snapshot::build_service_info;
use nginx_supervisor::AppError;

#[test]
fn stopped_snapshots_carry_no_stale_fields() {
    let info = build_service_info(
        false,
        Some("nginx/1.24.0".to_string()),
        Some("1:02:03".to_string()),
        Some("25.0".to_string()),
        Some("12.5".to_string()),
        Some(291),
        Some(16630948),
        Some(517841),
    );
    assert_eq!(info.status, "stopped");
    assert!(info.version.is_none());
    assert!(info.uptime.is_none());
    assert!(info.cpu_usage.is_none());
    assert!(info.memory_usage.is_none());
    assert!(info.active_connections.is_none());
    assert!(info.total_connections.is_none());
    assert!(info.requests_per_second.is_none());
}

#[test]
fn an_unreachable_endpoint_degrades_only_its_fields() {
    let info = build_service_info(
        true,
        Some("nginx/1.24.0".to_string()),
        Some("1:02:03".to_string()),
        Some("25.0".to_string()),
        Some("12.5".to_string()),
        None,
        None,
        None,
    );
    assert_eq!(info.status, "running");
    assert_eq!(info.version.as_deref(), Some("nginx/1.24.0"));
    assert_eq!(info.uptime.as_deref(), Some("1:02:03"));
    assert!(info.active_connections.is_none());
    assert!(info.total_connections.is_none());
    assert!(info.requests_per_second.is_none());
}

#[test]
fn default_settings_use_the_light_theme() {
    let s = AppSettings::default();
    assert_eq!(s.nginx_path, "");
    assert_eq!(s.config_path, "");
    assert!(!s.auto_start);
    assert_eq!(s.log_level, "info");
    assert_eq!(s.theme, "light");
}

#[test]
fn empty_paths_fall_back_to_the_builtin_installation() {
    let s = AppSettings {
        nginx_path: String::new(),
        config_path: "/etc/custom".to_string(),
        auto_start: true,
        log_level: "debug".to_string(),
        theme: "dark".to_string(),
    };
    let r = apply_builtin_defaults(s, "/opt/nginx".to_string(), "/opt/nginx/conf".to_string());
    assert_eq!(r.nginx_path, "/opt/nginx");
    assert_eq!(r.config_path, "/etc/custom");
    assert!(r.auto_start);
    assert_eq!(r.log_level, "debug");
    assert_eq!(r.theme, "dark");
}

#[test]
fn config_file_names_get_the_extension_once() {
    assert_eq!(config_file_name("site".to_string()), "site.conf");
    assert_eq!(config_file_name("site.conf".to_string()), "site.conf");
    assert_eq!(config_file_name("a".to_string()), "a.conf");
    assert_eq!(config_file_name("".to_string()), ".conf");
}

#[test]
fn file_sizes_render_in_the_matching_unit() {
    assert_eq!(format_file_size(0), "0 B");
    assert_eq!(format_file_size(512), "512 B");
    assert_eq!(format_file_size(1023), "1023 B");
    assert_eq!(format_file_size(1536), "1.50 KB");
    assert_eq!(format_file_size(10240), "10.00 KB");
    assert_eq!(format_file_size(3 * 1048576 + 524288), "3.50 MB");
}

#[test]
fn the_largest_size_still_renders() {
    assert_eq!(format_file_size(u64::MAX), "17592186044416.00 MB");
}

#[test]
fn exact_half_hundredths_round_to_even() {
    // 1152 bytes is exactly 1.125 KiB.
    assert_eq!(format_file_size(1152), "1.12 KB");
    // 1408 bytes is exactly 1.375 KiB.
    assert_eq!(format_file_size(1408), "1.38 KB");
}

#[test]
fn the_service_component_must_be_listed_and_selected() {
    let component = |id: &str, selected: bool| Component {
        id: id.to_string(),
        name: id.to_string(),
        description: String::new(),
        required: false,
        selected,
    };
    let options = || InstallOptions {
        create_desktop_shortcut: false,
        create_start_menu_shortcut: false,
        run_after_install: false,
    };
    let with = InstallConfig {
        install_path: "C:\\nginx".to_string(),
        components: vec![component("core", true), component("service", true)],
        options: options(),
    };
    assert!(service_component_selected(&with));
    let unselected = InstallConfig {
        install_path: "C:\\nginx".to_string(),
        components: vec![component("service", false)],
        options: options(),
    };
    assert!(!service_component_selected(&unselected));
    let missing = InstallConfig {
        install_path: "C:\\nginx".to_string(),
        components: vec![component("core", true)],
        options: options(),
    };
    assert!(!service_component_selected(&missing));
}

#[test]
fn app_errors_keep_their_message() {
    let e = AppError::new("could not read the settings file");
    assert_eq!(e.message(), "could not read the settings file");
}
