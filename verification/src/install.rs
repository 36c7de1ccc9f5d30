//! Installer data: what an installation run is asked to do, and the
//! decision of whether the system-service component was selected.

use vstd::prelude::*;

verus! {

/// One installable component as offered to the user.
#[derive(Debug)]
pub struct Component {
    pub id: String,
    pub name: String,
    pub description: String,
    pub required: bool,
    pub selected: bool,
}

/// The choices that accompany an installation run.
#[derive(Debug)]
pub struct InstallOptions {
    pub create_desktop_shortcut: bool,
    pub create_start_menu_shortcut: bool,
    pub run_after_install: bool,
}

/// Everything an installation run is asked to do.
#[derive(Debug)]
pub struct InstallConfig {
    pub install_path: String,
    pub components: Vec<Component>,
    pub options: InstallOptions,
}

/// An available update, as reported to the user.
#[derive(Debug)]
pub struct Update {
    pub version: String,
    pub date: String,
    pub body: String,
}

/// The service component was offered and selected.
pub open spec fn wants_service(config: InstallConfig) -> bool {
    exists|i: int|
        0 <= i < config.components@.len() && (#[trigger] config.components@[i]).id@ == "service"@
            && config.components@[i].selected
}

/// Decides whether the installation should register the system service:
/// exactly when a selected component with the service identifier is listed.
pub fn service_component_selected(config: &InstallConfig) -> (r: bool)
    ensures
        r == wants_service(*config),
{
    let key = String::from_str("service");
    let mut i: usize = 0;
    while i < config.components.len()
        invariant
            i <= config.components@.len(),
            key@ == "service"@,
            forall|k: int|
                0 <= k < i ==> !((#[trigger] config.components@[k]).id@ == "service"@
                    && config.components@[k].selected),
        decreases config.components@.len() - i,
    {
        if config.components[i].id.eq(&key) && config.components[i].selected {
            return true;
        }
        i += 1;
    }
    false
}

} // verus!
