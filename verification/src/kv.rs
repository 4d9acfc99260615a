//! Per-plugin key-value storage: quotas and usage accounting. The store
//! itself is not yet wired to a backend; every data operation reports
//! `NotImplemented`.

use vstd::prelude::*;

use crate::error::KvError;

verus! {

/// Limits for one plugin's key-value store.
#[derive(Debug, Clone, PartialEq, Eq)]
pub struct KvQuota {
    pub max_keys: u64,
    pub max_value_bytes: u64,
}

impl Default for KvQuota {
    /// The default quota: ten thousand keys of up to one mebibyte each.
    fn default() -> (r: KvQuota)
        ensures
            r.max_keys == 10000,
            r.max_value_bytes == 1048576,
    {
        KvQuota { max_keys: 10000, max_value_bytes: 1048576 }
    }
}

/// Current usage of one plugin's key-value store.
#[derive(Debug, Clone, PartialEq, Eq, Structural, Default)]
pub struct KvUsage {
    pub key_count: u64,
    pub total_bytes: u64,
}

/// A plugin-scoped key-value store.
pub struct PluginKvStore {
    plugin_id: String,
    quota: KvQuota,
}

impl PluginKvStore {
    pub closed spec fn plugin_id_spec(self) -> Seq<char> {
        self.plugin_id@
    }

    pub closed spec fn quota_spec(self) -> KvQuota {
        self.quota
    }

    pub fn new(plugin_id: String, quota: KvQuota) -> (r: PluginKvStore)
        ensures
            r.plugin_id_spec() == plugin_id@,
            r.quota_spec() == quota,
    {
        PluginKvStore { plugin_id, quota }
    }

    /// The plugin this store belongs to.
    pub fn plugin_id(&self) -> (r: &str)
        ensures
            r@ == self.plugin_id_spec(),
    {
        self.plugin_id.as_str()
    }

    /// The quota this store enforces.
    pub fn quota(&self) -> (r: &KvQuota)
        ensures
            *r == self.quota_spec(),
    {
        &self.quota
    }

    pub fn get(&self, _key: &str) -> (r: Result<Option<Vec<u8>>, KvError>)
        ensures
            r == Result::<Option<Vec<u8>>, KvError>::Err(KvError::NotImplemented),
    {
        Err(KvError::NotImplemented)
    }

    pub fn set(&self, _key: &str, _value: &Vec<u8>) -> (r: Result<(), KvError>)
        ensures
            r == Result::<(), KvError>::Err(KvError::NotImplemented),
    {
        Err(KvError::NotImplemented)
    }

    pub fn delete(&self, _key: &str) -> (r: Result<(), KvError>)
        ensures
            r == Result::<(), KvError>::Err(KvError::NotImplemented),
    {
        Err(KvError::NotImplemented)
    }

    pub fn list_keys(&self, _prefix: &str) -> (r: Result<Vec<String>, KvError>)
        ensures
            r == Result::<Vec<String>, KvError>::Err(KvError::NotImplemented),
    {
        Err(KvError::NotImplemented)
    }

    pub fn usage(&self) -> (r: Result<KvUsage, KvError>)
        ensures
            r == Result::<KvUsage, KvError>::Err(KvError::NotImplemented),
    {
        Err(KvError::NotImplemented)
    }

    pub fn clear_all(&self) -> (r: Result<(), KvError>)
        ensures
            r == Result::<(), KvError>::Err(KvError::NotImplemented),
    {
        Err(KvError::NotImplemented)
    }
}

} // verus!
