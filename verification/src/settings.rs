//! Application settings: the persisted preferences and the rule that fills
//! empty paths with the built-in installation's paths.

use vstd::prelude::*;

verus! {

/// The persisted preferences of the application.
#[derive(Debug)]
pub struct AppSettings {
    pub nginx_path: String,
    pub config_path: String,
    pub auto_start: bool,
    pub log_level: String,
    pub theme: String,
}

impl Default for AppSettings {
    /// Fresh settings: empty paths, no autostart, informational logging,
    /// the light theme.
    fn default() -> (r: Self)
        ensures
            r.nginx_path@ == Seq::<char>::empty(),
            r.config_path@ == Seq::<char>::empty(),
            !r.auto_start,
            r.log_level@ == "info"@,
            r.theme@ == "light"@,
    {
        AppSettings {
            nginx_path: String::new(),
            config_path: String::new(),
            auto_start: false,
            log_level: String::from_str("info"),
            theme: String::from_str("light"),
        }
    }
}

/// Fills the path fields that were left empty with the built-in
/// installation's paths; set paths and the other preferences are kept.
pub fn apply_builtin_defaults(
    settings: AppSettings,
    builtin_nginx_path: String,
    builtin_config_path: String,
) -> (r: AppSettings)
    ensures
        r.nginx_path == if settings.nginx_path@.len() == 0 {
            builtin_nginx_path
        } else {
            settings.nginx_path
        },
        r.config_path == if settings.config_path@.len() == 0 {
            builtin_config_path
        } else {
            settings.config_path
        },
        r.auto_start == settings.auto_start,
        r.log_level == settings.log_level,
        r.theme == settings.theme,
{
    let nginx_path = if settings.nginx_path.as_str().is_empty() {
        builtin_nginx_path
    } else {
        settings.nginx_path
    };
    let config_path = if settings.config_path.as_str().is_empty() {
        builtin_config_path
    } else {
        settings.config_path
    };
    AppSettings {
        nginx_path,
        config_path,
        auto_start: settings.auto_start,
        log_level: settings.log_level,
        theme: settings.theme,
    }
}

} // verus!
