//! The plugin registry: configuration, the list of installed plugins,
//! and the file layout of an installed plugin. Resolution, pulling and
//! verification against a remote registry are not yet wired; those
//! operations report `NotImplemented`.

use vstd::prelude::*;

use crate::error::RegistryError;

verus! {

/// Registry client settings.
#[derive(Debug, Clone, PartialEq, Eq)]
pub struct RegistryConfig {
    pub default_registry: String,
    pub check_updates_on_startup: bool,
    pub signature_policy: String,
}

impl Default for RegistryConfig {
    fn default() -> (r: RegistryConfig)
        ensures
            r.default_registry@ == "ghcr.io/waddle-social"@,
            r.check_updates_on_startup,
            r.signature_policy@ == "warn"@,
    {
        RegistryConfig {
            default_registry: "ghcr.io/waddle-social".to_owned(),
            check_updates_on_startup: true,
            signature_policy: "warn".to_owned(),
        }
    }
}

/// A plugin's own manifest.
#[derive(Debug, Clone, PartialEq, Eq)]
pub struct PluginManifest {
    pub id: String,
    pub name: String,
    pub version: String,
    pub description: Option<String>,
}

/// One installed plugin.
#[derive(Debug, Clone, PartialEq, Eq)]
pub struct InstalledPlugin {
    pub id: String,
    pub name: String,
    pub version: String,
    pub source: String,
    pub installed_at: String,
}

pub struct InstalledPluginView {
    pub id: Seq<char>,
    pub name: Seq<char>,
    pub version: Seq<char>,
    pub source: Seq<char>,
    pub installed_at: Seq<char>,
}

impl View for InstalledPlugin {
    type V = InstalledPluginView;

    open spec fn view(&self) -> InstalledPluginView {
        InstalledPluginView {
            id: self.id@,
            name: self.name@,
            version: self.version@,
            source: self.source@,
            installed_at: self.installed_at@,
        }
    }
}

/// Clone an installed-plugin record, keeping its view.
pub fn clone_installed(p: &InstalledPlugin) -> (r: InstalledPlugin)
    ensures
        r@ == p@,
{
    let r = InstalledPlugin {
        id: p.id.clone(),
        name: p.name.clone(),
        version: p.version.clone(),
        source: p.source.clone(),
        installed_at: p.installed_at.clone(),
    };
    r
}

/// A search hit in a remote registry.
#[derive(Debug, Clone, PartialEq, Eq)]
pub struct PluginSummary {
    pub reference: String,
    pub name: String,
    pub description: String,
    pub latest_version: String,
}

/// The on-disk layout of an installed plugin.
#[derive(Debug, Clone, PartialEq, Eq)]
pub struct PluginFiles {
    pub manifest: PluginManifest,
    pub wasm_path: String,
    pub vue_dir: Option<String>,
    pub assets_dir: Option<String>,
}

pub open spec fn installed_views(s: Seq<InstalledPlugin>) -> Seq<InstalledPluginView> {
    s.map_values(|p: InstalledPlugin| p@)
}

/// The plugin registry. Creating the data directory on disk is the
/// caller's concern; this type only holds the registry state.
pub struct PluginRegistry {
    config: RegistryConfig,
    data_dir: String,
    installed: Vec<InstalledPlugin>,
}

impl PluginRegistry {
    pub closed spec fn config_spec(self) -> RegistryConfig {
        self.config
    }

    pub closed spec fn data_dir_spec(self) -> Seq<char> {
        self.data_dir@
    }

    pub closed spec fn installed_spec(self) -> Seq<InstalledPluginView> {
        installed_views(self.installed@)
    }

    pub fn new(config: RegistryConfig, data_dir: String) -> (r: Result<
        PluginRegistry,
        RegistryError,
    >)
        ensures
            r matches Ok(reg) && reg.config_spec() == config && reg.data_dir_spec() == data_dir@
                && reg.installed_spec().len() == 0,
    {
        Ok(PluginRegistry { config, data_dir, installed: Vec::new() })
    }

    /// The registry settings.
    pub fn config(&self) -> (r: &RegistryConfig)
        ensures
            *r == self.config_spec(),
    {
        &self.config
    }

    /// Where installed plugins live on disk.
    pub fn data_dir(&self) -> (r: &str)
        ensures
            r@ == self.data_dir_spec(),
    {
        self.data_dir.as_str()
    }

    pub fn install(&self, _reference: &str) -> (r: Result<InstalledPlugin, RegistryError>)
        ensures
            r matches Err(e) && e == RegistryError::NotImplemented,
    {
        Err(RegistryError::NotImplemented)
    }

    pub fn uninstall(&self, _plugin_id: &str) -> (r: Result<(), RegistryError>)
        ensures
            r == Result::<(), RegistryError>::Err(RegistryError::NotImplemented),
    {
        Err(RegistryError::NotImplemented)
    }

    pub fn update(&self, _plugin_id: &str) -> (r: Result<Option<InstalledPlugin>, RegistryError>)
        ensures
            r matches Err(e) && e == RegistryError::NotImplemented,
    {
        Err(RegistryError::NotImplemented)
    }

    pub fn search(&self, _registry: &str, _query: &str) -> (r: Result<
        Vec<PluginSummary>,
        RegistryError,
    >)
        ensures
            r matches Err(e) && e == RegistryError::NotImplemented,
    {
        Err(RegistryError::NotImplemented)
    }

    /// The installed plugins, in installation order.
    #[verifier::loop_isolation(false)]
    pub fn list_installed(&self) -> (r: Result<Vec<InstalledPlugin>, RegistryError>)
        ensures
            r matches Ok(v) && installed_views(v@) == self.installed_spec(),
    {
        let n = self.installed.len();
        let mut out: Vec<InstalledPlugin> = Vec::new();
        let mut i: usize = 0;
        while i < n
            invariant
                n == self.installed@.len(),
                i <= n,
                out@.len() == i,
                forall|k: int| 0 <= k < i ==> (#[trigger] out@[k])@ == self.installed_spec()[k],
            decreases n - i,
        {
            out.push(clone_installed(&self.installed[i]));
            i += 1;
        }
        proof {
            assert(installed_views(out@) =~= self.installed_spec());
        }
        Ok(out)
    }

    pub fn get_plugin_files(&self, _plugin_id: &str) -> (r: Result<PluginFiles, RegistryError>)
        ensures
            r matches Err(e) && e == RegistryError::NotImplemented,
    {
        Err(RegistryError::NotImplemented)
    }

    pub fn list_versions(&self, _reference: &str) -> (r: Result<Vec<String>, RegistryError>)
        ensures
            r matches Err(e) && e == RegistryError::NotImplemented,
    {
        Err(RegistryError::NotImplemented)
    }
}

} // verus!
