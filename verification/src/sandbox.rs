//! Sandbox manifest building: the pure translation of a plugin's declared
//! trust policy into the capability descriptor enforced when the module is
//! instantiated. A plugin that declares nothing gets the minimal capability
//! set: no network egress, no filesystem access, no injected configuration.

use crate::config::EnvVar;
use crate::config::RuntimeConfig;
use vstd::prelude::*;

verus! {

/// One filesystem capability: the host path exposed to the plugin, and the
/// path under which the plugin sees it. The builder maps each allowed path
/// to itself, so path-based plugin logic is portable across the boundary.
#[derive(Debug)]
pub struct PathMapping {
    pub guest: String,
    pub host: String,
}

/// The capability descriptor handed to the sandbox execution engine along
/// with the module bytes: permitted network egress hosts, exposed
/// filesystem paths, and configuration variables visible to the plugin.
#[derive(Debug)]
pub struct SandboxManifest {
    pub allowed_hosts: Vec<String>,
    pub allowed_paths: Vec<PathMapping>,
    pub config_vars: Vec<EnvVar>,
}

/// The manifest grants exactly what the trust policy declares: each allowed
/// host verbatim, each allowed path mapped to itself, each configuration
/// variable verbatim — and nothing where the policy (or a field of it) is
/// absent.
pub open spec fn manifest_grants(m: SandboxManifest, rc: Option<RuntimeConfig>) -> bool {
    &&& (match rc {
        Some(c) => match c.allowed_hosts {
            Some(hs) => m.allowed_hosts@ == hs@,
            None => m.allowed_hosts@.len() == 0,
        },
        None => m.allowed_hosts@.len() == 0,
    })
    &&& (match rc {
        Some(c) => match c.allowed_paths {
            Some(ps) => m.allowed_paths@.len() == ps@.len() && (forall|i: int|
                0 <= i < ps@.len() ==> m.allowed_paths@[i].guest == ps@[i]
                    && m.allowed_paths@[i].host == ps@[i]),
            None => m.allowed_paths@.len() == 0,
        },
        None => m.allowed_paths@.len() == 0,
    })
    &&& (match rc {
        Some(c) => match c.env_vars {
            Some(es) => m.config_vars@ == es@,
            None => m.config_vars@.len() == 0,
        },
        None => m.config_vars@.len() == 0,
    })
}

/// Builds the sandbox manifest for one plugin from its declared trust
/// policy.
pub fn build_manifest(rc: &Option<RuntimeConfig>) -> (r: SandboxManifest)
    ensures
        manifest_grants(r, *rc),
{
    let mut allowed_hosts: Vec<String> = Vec::new();
    let mut allowed_paths: Vec<PathMapping> = Vec::new();
    let mut config_vars: Vec<EnvVar> = Vec::new();
    match rc {
        None => {},
        Some(c) => {
            match &c.allowed_hosts {
                None => {},
                Some(hs) => {
                    let mut i: usize = 0;
                    while i < hs.len()
                        invariant
                            i <= hs@.len(),
                            allowed_hosts@ == hs@.take(i as int),
                        decreases hs@.len() - i,
                    {
                        allowed_hosts.push(hs[i].clone());
                        proof {
                            assert(hs@.take(i + 1 as int) =~= hs@.take(i as int).push(hs@[i as int]));
                        }
                        i += 1;
                    }
                    proof {
                        assert(hs@.take(hs@.len() as int) =~= hs@);
                    }
                },
            }
            match &c.allowed_paths {
                None => {},
                Some(ps) => {
                    let mut i: usize = 0;
                    while i < ps.len()
                        invariant
                            i <= ps@.len(),
                            allowed_paths@.len() == i,
                            forall|j: int|
                                0 <= j < i ==> allowed_paths@[j].guest == ps@[j]
                                    && allowed_paths@[j].host == ps@[j],
                        decreases ps@.len() - i,
                    {
                        allowed_paths.push(
                            PathMapping { guest: ps[i].clone(), host: ps[i].clone() },
                        );
                        i += 1;
                    }
                },
            }
            match &c.env_vars {
                None => {},
                Some(es) => {
                    let mut i: usize = 0;
                    while i < es.len()
                        invariant
                            i <= es@.len(),
                            config_vars@ == es@.take(i as int),
                        decreases es@.len() - i,
                    {
                        config_vars.push(es[i].clone());
                        proof {
                            assert(es@.take(i + 1 as int) =~= es@.take(i as int).push(es@[i as int]));
                        }
                        i += 1;
                    }
                    proof {
                        assert(es@.take(es@.len() as int) =~= es@);
                    }
                },
            }
        },
    }
    SandboxManifest { allowed_hosts, allowed_paths, config_vars }
}

/// A plugin with no declared trust policy receives the minimal capability
/// set: no network hosts, no filesystem paths, and an empty configuration
/// map.
pub proof fn lemma_default_manifest_minimal(m: SandboxManifest)
    requires
        manifest_grants(m, None::<RuntimeConfig>),
    ensures
        m.allowed_hosts@.len() == 0,
        m.allowed_paths@.len() == 0,
        m.config_vars@.len() == 0,
{
}

/// Everything the sandbox execution engine needs to instantiate one plugin:
/// the module bytes exactly as acquired, and the capability manifest.
#[derive(Debug)]
pub struct InstantiationPlan {
    pub module: Vec<u8>,
    pub manifest: SandboxManifest,
}

/// Pairs acquired module bytes with the manifest built from the plugin's
/// trust policy. The module bytes pass through byte-identical: loading never
/// alters the acquired artifact content.
pub fn plan_instantiation(module: Vec<u8>, rc: &Option<RuntimeConfig>) -> (r: InstantiationPlan)
    ensures
        r.module@ == module@,
        manifest_grants(r.manifest, *rc),
{
    let manifest = build_manifest(rc);
    InstantiationPlan { module, manifest }
}

} // verus!
