//! The plugin runtime: the table of loaded plugins and the hook surface.
//! Loading and invoking WASM plugins is not yet wired; those operations
//! report `NotImplemented`. Unloading and the read accessors are live.

use vstd::prelude::*;

use crate::error::PluginError;
use crate::event::Event;
use crate::registry::PluginManifest;
use crate::strings::str_eq;

verus! {

/// Resource limits for plugin execution.
#[derive(Debug, Clone, PartialEq, Eq, Structural)]
pub struct PluginRuntimeConfig {
    pub fuel_per_invocation: u64,
    pub fuel_per_render: u64,
    pub epoch_timeout_ms: u64,
    pub max_memory_bytes: u64,
}

impl Default for PluginRuntimeConfig {
    fn default() -> (r: PluginRuntimeConfig)
        ensures
            r.fuel_per_invocation == 1000000,
            r.fuel_per_render == 5000000,
            r.epoch_timeout_ms == 5000,
            r.max_memory_bytes == 16777216,
    {
        PluginRuntimeConfig {
            fuel_per_invocation: 1000000,
            fuel_per_render: 5000000,
            epoch_timeout_ms: 5000,
            max_memory_bytes: 16777216,
        }
    }
}

/// A handle to a loaded plugin.
#[derive(Debug, Clone, PartialEq, Eq)]
pub struct PluginHandle {
    pub id: String,
    pub name: String,
    pub version: String,
}

#[derive(Debug, Clone, PartialEq, Eq)]
pub enum PluginStatus {
    Loading,
    Active,
    Error(String),
    Unloading,
}

pub enum PluginStatusView {
    Loading,
    Active,
    Error(Seq<char>),
    Unloading,
}

impl View for PluginStatus {
    type V = PluginStatusView;

    open spec fn view(&self) -> PluginStatusView {
        match self {
            PluginStatus::Loading => PluginStatusView::Loading,
            PluginStatus::Active => PluginStatusView::Active,
            PluginStatus::Error(s) => PluginStatusView::Error(s@),
            PluginStatus::Unloading => PluginStatusView::Unloading,
        }
    }
}

#[derive(Debug, Clone, Copy, PartialEq, Eq, Structural)]
pub enum PluginCapability {
    EventHandler,
    StanzaProcessor { priority: i32 },
    TuiRenderer,
    GuiMetadata,
}

/// A loaded plugin, as the runtime sees it.
#[derive(Debug, Clone, PartialEq, Eq)]
pub struct PluginInfo {
    pub id: String,
    pub name: String,
    pub version: String,
    pub status: PluginStatus,
    pub capabilities: Vec<PluginCapability>,
    pub error_count: u32,
}

pub struct PluginInfoView {
    pub id: Seq<char>,
    pub name: Seq<char>,
    pub version: Seq<char>,
    pub status: PluginStatusView,
    pub capabilities: Seq<PluginCapability>,
    pub error_count: u32,
}

impl View for PluginInfo {
    type V = PluginInfoView;

    open spec fn view(&self) -> PluginInfoView {
        PluginInfoView {
            id: self.id@,
            name: self.name@,
            version: self.version@,
            status: self.status@,
            capabilities: self.capabilities@,
            error_count: self.error_count,
        }
    }
}

/// Clone a plugin record, keeping its view.
pub fn clone_plugin_info(p: &PluginInfo) -> (r: PluginInfo)
    ensures
        r@ == p@,
{
    let status = match &p.status {
        PluginStatus::Loading => PluginStatus::Loading,
        PluginStatus::Active => PluginStatus::Active,
        PluginStatus::Error(s) => PluginStatus::Error(s.clone()),
        PluginStatus::Unloading => PluginStatus::Unloading,
    };
    let mut caps: Vec<PluginCapability> = Vec::new();
    let mut i: usize = 0;
    while i < p.capabilities.len()
        invariant
            i <= p.capabilities@.len(),
            caps@.len() == i,
            forall|k: int| 0 <= k < i ==> #[trigger] caps@[k] == p.capabilities@[k],
        decreases p.capabilities@.len() - i,
    {
        caps.push(p.capabilities[i]);
        i += 1;
    }
    proof {
        assert(caps@ =~= p.capabilities@);
    }
    let r = PluginInfo {
        id: p.id.clone(),
        name: p.name.clone(),
        version: p.version.clone(),
        status,
        capabilities: caps,
        error_count: p.error_count,
    };
    r
}

/// Work handed to plugins.
#[derive(Debug, Clone)]
pub enum PluginHook {
    Event(Box<Event>),
    InboundStanza(String),
    OutboundStanza(String),
    TuiRender { width: u16, height: u16 },
    GuiGetComponentInfo,
}

pub open spec fn plugin_views(s: Seq<PluginInfo>) -> Seq<PluginInfoView> {
    s.map_values(|p: PluginInfo| p@)
}

/// First plugin with the given id, or the length.
pub open spec fn first_plugin_index(s: Seq<PluginInfoView>, id: Seq<char>) -> int
    decreases s.len(),
{
    if s.len() == 0 {
        0
    } else if s[0].id == id {
        0
    } else {
        1 + first_plugin_index(s.drop_first(), id)
    }
}

proof fn lemma_first_plugin_index_at(s: Seq<PluginInfoView>, id: Seq<char>, i: int)
    requires
        0 <= i <= s.len(),
        forall|k: int| 0 <= k < i ==> (#[trigger] s[k]).id != id,
        i < s.len() ==> s[i].id == id,
    ensures
        first_plugin_index(s, id) == i,
    decreases s.len(),
{
    if s.len() == 0 {
    } else if s[0].id == id {
    } else {
        assert forall|k: int| 0 <= k < i - 1 implies (#[trigger] s.drop_first()[k]).id != id by {
            assert(s[k + 1].id != id);
        }
        lemma_first_plugin_index_at(s.drop_first(), id, i - 1);
    }
}

/// The plugin runtime: loaded plugins keyed by id.
pub struct PluginRuntime {
    config: PluginRuntimeConfig,
    plugins: Vec<PluginInfo>,
}

impl PluginRuntime {
    pub closed spec fn config_spec(self) -> PluginRuntimeConfig {
        self.config
    }

    pub closed spec fn plugins_spec(self) -> Seq<PluginInfoView> {
        plugin_views(self.plugins@)
    }

    /// No two loaded plugins share an id.
    pub open spec fn wf(self) -> bool {
        forall|i: int, j: int|
            0 <= i < j < self.plugins_spec().len() ==> (#[trigger] self.plugins_spec()[i]).id != (
            #[trigger] self.plugins_spec()[j]).id
    }

    pub fn new(config: PluginRuntimeConfig) -> (r: PluginRuntime)
        ensures
            r.wf(),
            r.config_spec() == config,
            r.plugins_spec().len() == 0,
    {
        PluginRuntime { config, plugins: Vec::new() }
    }

    /// The runtime limits.
    pub fn config(&self) -> (r: &PluginRuntimeConfig)
        ensures
            *r == self.config_spec(),
    {
        &self.config
    }

    pub fn load_plugin(&mut self, _manifest: PluginManifest, _wasm_bytes: &Vec<u8>) -> (r: Result<
        PluginHandle,
        PluginError,
    >)
        ensures
            r matches Err(e) && e == PluginError::NotImplemented,
            *final(self) == *old(self),
    {
        Err(PluginError::NotImplemented)
    }

    /// Unload a plugin by id: succeeds exactly when the id is loaded,
    /// removing its record; an unknown id reports `NotFound`.
    #[verifier::loop_isolation(false)]
    pub fn unload_plugin(&mut self, plugin_id: &str) -> (r: Result<(), PluginError>)
        requires
            old(self).wf(),
        ensures
            final(self).wf(),
            final(self).config_spec() == old(self).config_spec(),
            r is Ok <==> exists|k: int|
                0 <= k < old(self).plugins_spec().len() && (#[trigger] old(self).plugins_spec()[k]).id == plugin_id@,
            r is Ok ==> final(self).plugins_spec() == old(self).plugins_spec().remove(
                first_plugin_index(old(self).plugins_spec(), plugin_id@),
            ),
            r matches Err(e) ==> *final(self) == *old(self) && (
            e matches PluginError::NotFound { id } && id@ == plugin_id@),
    {
        let n = self.plugins.len();
        let mut i: usize = 0;
        while i < n
            invariant
                *self == *old(self),
                n == self.plugins@.len(),
                i <= n,
                forall|k: int| 0 <= k < i ==> (#[trigger] self.plugins_spec()[k]).id != plugin_id@,
            decreases n - i,
        {
            if str_eq(self.plugins[i].id.as_str(), plugin_id) {
                proof {
                    lemma_first_plugin_index_at(self.plugins_spec(), plugin_id@, i as int);
                }
                let ghost at = i as int;
                let ghost before = self.plugins@;
                self.plugins.remove(i);
                proof {
                    assert(self.plugins_spec() =~= plugin_views(before).remove(at));
                    assert forall|a: int, b: int| 0 <= a < b < self.plugins_spec().len() implies (
                    #[trigger] self.plugins_spec()[a]).id != (
                    #[trigger] self.plugins_spec()[b]).id by {
                        let a0 = if a < at {
                            a
                        } else {
                            a + 1
                        };
                        let b0 = if b < at {
                            b
                        } else {
                            b + 1
                        };
                        assert(self.plugins_spec()[a] == old(self).plugins_spec()[a0]);
                        assert(self.plugins_spec()[b] == old(self).plugins_spec()[b0]);
                        assert(old(self).plugins_spec()[a0].id != old(self).plugins_spec()[b0].id);
                    }
                }
                return Ok(());
            }
            i += 1;
        }
        Err(PluginError::NotFound { id: plugin_id.to_owned() })
    }

    /// The loaded plugins, in load order.
    #[verifier::loop_isolation(false)]
    pub fn list_plugins(&self) -> (r: Vec<PluginInfo>)
        ensures
            plugin_views(r@) == self.plugins_spec(),
    {
        let n = self.plugins.len();
        let mut out: Vec<PluginInfo> = Vec::new();
        let mut i: usize = 0;
        while i < n
            invariant
                n == self.plugins@.len(),
                i <= n,
                out@.len() == i,
                forall|k: int| 0 <= k < i ==> (#[trigger] out@[k])@ == self.plugins_spec()[k],
            decreases n - i,
        {
            out.push(clone_plugin_info(&self.plugins[i]));
            i += 1;
        }
        proof {
            assert(plugin_views(out@) =~= self.plugins_spec());
        }
        out
    }

    /// The plugin with the given id, if loaded.
    #[verifier::loop_isolation(false)]
    pub fn get_plugin(&self, plugin_id: &str) -> (r: Option<&PluginInfo>)
        ensures
            match r {
                Some(p) => first_plugin_index(self.plugins_spec(), plugin_id@)
                    < self.plugins_spec().len() && p@ == self.plugins_spec()[first_plugin_index(
                    self.plugins_spec(),
                    plugin_id@,
                )],
                None => first_plugin_index(self.plugins_spec(), plugin_id@)
                    == self.plugins_spec().len(),
            },
    {
        let n = self.plugins.len();
        let mut i: usize = 0;
        while i < n
            invariant
                n == self.plugins@.len(),
                i <= n,
                forall|k: int| 0 <= k < i ==> (#[trigger] self.plugins_spec()[k]).id != plugin_id@,
            decreases n - i,
        {
            if str_eq(self.plugins[i].id.as_str(), plugin_id) {
                proof {
                    lemma_first_plugin_index_at(self.plugins_spec(), plugin_id@, i as int);
                }
                return Some(&self.plugins[i]);
            }
            i += 1;
        }
        proof {
            lemma_first_plugin_index_at(self.plugins_spec(), plugin_id@, n as int);
        }
        None
    }

    pub fn invoke_hook(&self, _hook: PluginHook) -> (r: Result<(), PluginError>)
        ensures
            r == Result::<(), PluginError>::Err(PluginError::NotImplemented),
    {
        Err(PluginError::NotImplemented)
    }
}

} // verus!
