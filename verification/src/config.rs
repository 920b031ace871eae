//! Configuration data: the ordered plugin list and each plugin's declared
//! trust policy. Immutable after load; parsing the on-disk form is left to
//! the surrounding program, which hands over plain values.

use vstd::prelude::*;

verus! {

/// One environment-style configuration entry injected into a plugin's
/// sandbox at instantiation.
#[derive(Debug)]
pub struct EnvVar {
    pub key: String,
    pub value: String,
}

/// A plugin's declared runtime trust policy: which network hosts it may
/// reach, which filesystem paths it may see, and which configuration
/// variables it receives. Absent fields grant nothing.
#[derive(Debug)]
pub struct RuntimeConfig {
    pub allowed_hosts: Option<Vec<String>>,
    pub allowed_paths: Option<Vec<String>>,
    pub env_vars: Option<Vec<EnvVar>>,
}

/// One configured plugin: its unique name, its source (local path, HTTP URL,
/// or registry reference), and its optional trust policy.
#[derive(Debug)]
pub struct PluginConfig {
    pub name: String,
    pub path: String,
    pub runtime_config: Option<RuntimeConfig>,
}

/// The whole configuration: plugins in load order, and a global flag that
/// disables signature verification for registry-sourced plugins.
#[derive(Debug)]
pub struct Config {
    pub plugins: Vec<PluginConfig>,
    pub insecure_skip_signature: bool,
}

impl Clone for EnvVar {
    fn clone(&self) -> (res: Self)
        ensures
            res == *self,
    {
        EnvVar { key: self.key.clone(), value: self.value.clone() }
    }
}

} // verus!
