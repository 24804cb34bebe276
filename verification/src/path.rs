//! Directory and file locations used by the supervisor.
//!
//! The two base directories (the user's home directory and the application's
//! resource directory) are supplied by the embedding program at startup; every
//! other location is derived from them by pure string joins, so each method
//! states exactly which path it returns.

use vstd::prelude::*;
use vstd::string::*;

verus! {

/// Resolves every path the supervisor reads or writes, from two base
/// directories fixed at startup.
pub struct AppPath {
    pub home_dir: String,
    pub resource_dir: String,
}

impl AppPath {
    /// The application's private directory under the user's home directory.
    pub open spec fn spec_app_home_dir(&self) -> Seq<char> {
        self.home_dir@ + "/.config/tauri-xray"@
    }

    /// The directory holding the bundled engine resources.
    pub open spec fn spec_app_core_dir(&self) -> Seq<char> {
        self.resource_dir@ + "/resources"@
    }

    pub fn new(home_dir: String, resource_dir: String) -> (r: AppPath)
        ensures
            r.home_dir@ == home_dir@,
            r.resource_dir@ == resource_dir@,
    {
        AppPath { home_dir, resource_dir }
    }

    pub fn app_home_dir(&self) -> (r: String)
        ensures
            r@ == self.spec_app_home_dir(),
    {
        String::from_str(self.home_dir.as_str()).concat("/.config/tauri-xray")
    }

    pub fn app_core_dir(&self) -> (r: String)
        ensures
            r@ == self.spec_app_core_dir(),
    {
        String::from_str(self.resource_dir.as_str()).concat("/resources")
    }

    pub fn app_log_dir(&self) -> (r: String)
        ensures
            r@ == self.spec_app_home_dir() + "/logs"@,
    {
        self.app_home_dir().concat("/logs")
    }

    /// The preset base-configuration directory shipped with the application.
    pub fn xray_preset_config_dir(&self) -> (r: String)
        ensures
            r@ == self.spec_app_core_dir() + "/confdir"@,
    {
        self.app_core_dir().concat("/confdir")
    }

    /// The scratch configuration directory consumed by the engine; erased and
    /// repopulated on every synthesis.
    pub fn xray_temp_config_dir(&self) -> (r: String)
        ensures
            r@ == self.spec_app_home_dir() + "/confdir"@,
    {
        self.app_home_dir().concat("/confdir")
    }

    /// The static asset directory handed to the engine by environment variable.
    pub fn xray_preset_asset_dir(&self) -> (r: String)
        ensures
            r@ == self.spec_app_core_dir() + "/asset"@,
    {
        self.app_core_dir().concat("/asset")
    }

    /// The directory of user-selectable routing fragments.
    pub fn xray_routing_dir(&self) -> (r: String)
        ensures
            r@ == self.spec_app_home_dir() + "/routing"@,
    {
        self.app_home_dir().concat("/routing")
    }

    /// The directory of user-selectable outbound fragments.
    pub fn xray_outbound_dir(&self) -> (r: String)
        ensures
            r@ == self.spec_app_home_dir() + "/outbound"@,
    {
        self.app_home_dir().concat("/outbound")
    }

    /// The record holding the process id of the supervised engine instance.
    pub fn xray_pid_path(&self) -> (r: String)
        ensures
            r@ == self.spec_app_home_dir() + "/xray.pid"@,
    {
        self.app_home_dir().concat("/xray.pid")
    }

    /// The persisted key/value store.
    pub fn config_json(&self) -> (r: String)
        ensures
            r@ == self.spec_app_home_dir() + "/conig.json"@,
    {
        self.app_home_dir().concat("/conig.json")
    }
}

/// Joins one path component onto a base directory.
pub fn join_path(base: &str, name: &str) -> (r: String)
    ensures
        r@ == base@ + "/"@ + name@,
{
    String::from_str(base).concat("/").concat(name)
}

} // verus!
