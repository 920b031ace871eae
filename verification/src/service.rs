//! The plugin service: the registry of loaded plugins and the tool-routing
//! index, mutated together. Startup loading is sequential and fail-fast: any
//! acquisition, verification, instantiation, or tool-collision error aborts
//! the whole load, and a partially loaded set is never served. At runtime, a
//! full re-enumeration rebuilds the index wholesale, skipping plugins whose
//! self-description failed and excluding a later plugin's conflicting tool.

use crate::config::Config;
use crate::dispatch::DispatchError;
use crate::index::InsertOutcome;
use crate::index::ToolEntry;
use crate::index::ToolIndex;
use crate::index::contains_tool;
use crate::index::entry_tools_unique;
use crate::index::maps_to;
use vstd::prelude::*;
use vstd::string::StringExecFns;

verus! {

/// One tool as a plugin's self-description reports it: its routing name and
/// the plugin-supplied metadata, opaque to the core beyond the name.
#[derive(Debug)]
pub struct ToolRecord {
    pub name: String,
    pub description: String,
    pub input_schema: String,
}

impl Clone for ToolRecord {
    fn clone(&self) -> (res: Self)
        ensures
            res == *self,
    {
        ToolRecord {
            name: self.name.clone(),
            description: self.description.clone(),
            input_schema: self.input_schema.clone(),
        }
    }
}

/// What one plugin's self-description call produced during re-enumeration:
/// its parsed tool list, or nothing if the call or the parse failed.
#[derive(Debug)]
pub struct DescribeOutcome {
    pub plugin: String,
    pub tools: Option<Vec<ToolRecord>>,
}

/// What happened while acquiring and instantiating one plugin, as reported
/// by the surrounding program.
#[derive(Debug)]
pub enum LoadEvent {
    /// The module bytes could not be fetched (network, filesystem, or
    /// registry failure).
    FetchFailed { message: String },
    /// Signature verification was enabled and the artifact's signature was
    /// invalid or absent.
    SignatureRejected { message: String },
    /// The sandbox engine could not instantiate the module.
    InstantiationFailed { message: String },
    /// The module was instantiated; `tools` holds its parsed
    /// self-description, or `None` if the describe call or its parse failed.
    Instantiated { tools: Option<Vec<ToolRecord>> },
}

/// Why a startup load aborted. Startup errors are fatal for the whole load
/// sequence.
#[derive(Debug)]
pub enum LoadError {
    /// Fetching the module bytes failed.
    Acquisition { plugin: String, message: String },
    /// The artifact's signature did not verify; the artifact is discarded
    /// and never falls back to unverified use.
    Verification { plugin: String, message: String },
    /// The sandbox engine rejected the module.
    Instantiation { plugin: String, message: String },
    /// Two plugins declared the same tool name; `existing` is the plugin
    /// that already owns the tool.
    ToolCollision { tool: String, existing: String, plugin: String },
}

impl LoadError {
    /// A human-readable description of the failure, naming the plugin and
    /// the underlying cause.
    pub fn message(&self) -> (r: String)
        ensures
            (match self {
                LoadError::Acquisition { plugin, message } => r@ == "Failed to pull plugin "@
                    + plugin@ + ": "@ + message@,
                LoadError::Verification { plugin, message } => r@
                    == "Signature verification failed for plugin "@ + plugin@ + ": "@ + message@,
                LoadError::Instantiation { plugin, message } => r@
                    == "Failed to instantiate plugin "@ + plugin@ + ": "@ + message@,
                LoadError::ToolCollision { tool, existing, plugin } => r@
                    == "Tool name collision detected: "@ + tool@ + " is provided by both "@
                    + existing@ + " and "@ + plugin@ + " plugins"@,
            }),
    {
        match self {
            LoadError::Acquisition { plugin, message } => {
                let mut out = String::from_str("Failed to pull plugin ");
                out.append(plugin.as_str());
                out.append(": ");
                out.append(message.as_str());
                out
            },
            LoadError::Verification { plugin, message } => {
                let mut out = String::from_str("Signature verification failed for plugin ");
                out.append(plugin.as_str());
                out.append(": ");
                out.append(message.as_str());
                out
            },
            LoadError::Instantiation { plugin, message } => {
                let mut out = String::from_str("Failed to instantiate plugin ");
                out.append(plugin.as_str());
                out.append(": ");
                out.append(message.as_str());
                out
            },
            LoadError::ToolCollision { tool, existing, plugin } => {
                let mut out = String::from_str("Tool name collision detected: ");
                out.append(tool.as_str());
                out.append(" is provided by both ");
                out.append(existing.as_str());
                out.append(" and ");
                out.append(plugin.as_str());
                out.append(" plugins");
                out
            },
        }
    }
}

/// The tool `t` is already routed, but not to `plugin`.
pub open spec fn collides_with(idx: Seq<ToolEntry>, t: Seq<char>, plugin: Seq<char>) -> bool {
    contains_tool(idx, t) && !maps_to(idx, t, plugin)
}

/// Some declared tool of `ts` is already routed to a different plugin.
pub open spec fn has_collision(idx: Seq<ToolEntry>, ts: Seq<ToolRecord>, plugin: Seq<char>) -> bool {
    exists|i: int| 0 <= i < ts.len() && collides_with(idx, ts[i].name@, plugin)
}

/// Outcome `o` declared a tool named `t`.
pub open spec fn outcome_offers(o: DescribeOutcome, t: Seq<char>) -> bool {
    o.tools matches Some(ts) && exists|i: int| 0 <= i < ts@.len() && ts@[i].name@ == t
}

/// Some outcome in `os` declared a tool named `t`.
pub open spec fn some_offer(os: Seq<DescribeOutcome>, t: Seq<char>) -> bool {
    exists|k: int| 0 <= k < os.len() && outcome_offers(os[k], t)
}

/// The plugin of the first outcome in `os` that declared a tool named `t`;
/// meaningful only when some outcome did.
pub open spec fn first_owner(os: Seq<DescribeOutcome>, t: Seq<char>) -> Seq<char>
    decreases os.len(),
{
    if os.len() == 0 {
        Seq::empty()
    } else if some_offer(os.drop_last(), t) {
        first_owner(os.drop_last(), t)
    } else {
        os.last().plugin@
    }
}

proof fn lemma_offer_snoc(os: Seq<DescribeOutcome>, k: int, t: Seq<char>)
    requires
        0 <= k < os.len(),
    ensures
        some_offer(os.take(k + 1), t) <==> (some_offer(os.take(k), t) || outcome_offers(
            os[k],
            t,
        )),
        some_offer(os.take(k), t) ==> first_owner(os.take(k + 1), t) == first_owner(
            os.take(k),
            t,
        ),
        !some_offer(os.take(k), t) ==> first_owner(os.take(k + 1), t) == os[k].plugin@,
{
    assert(os.take(k + 1).drop_last() =~= os.take(k));
    assert(os.take(k + 1).last() == os[k]);
    if some_offer(os.take(k + 1), t) {
        let k0 = choose|k0: int| 0 <= k0 < k + 1 && #[trigger] outcome_offers(os.take(k + 1)[k0], t);
        if k0 < k {
            assert(os.take(k)[k0] == os.take(k + 1)[k0]);
            assert(some_offer(os.take(k), t));
        } else {
            assert(outcome_offers(os[k], t));
        }
    }
    if some_offer(os.take(k), t) {
        let k0 = choose|k0: int| 0 <= k0 < k && #[trigger] outcome_offers(os.take(k)[k0], t);
        assert(os.take(k + 1)[k0] == os.take(k)[k0]);
        assert(some_offer(os.take(k + 1), t));
    }
    if outcome_offers(os[k], t) {
        assert(os.take(k + 1)[k] == os[k]);
        assert(some_offer(os.take(k + 1), t));
    }
}

proof fn lemma_maps_push(s: Seq<ToolEntry>, e: ToolEntry, t: Seq<char>, p: Seq<char>)
    ensures
        maps_to(s, t, p) ==> maps_to(s.push(e), t, p),
        (e.tool@ == t && e.plugin@ == p) ==> maps_to(s.push(e), t, p),
        maps_to(s.push(e), t, p) ==> (maps_to(s, t, p) || (e.tool@ == t && e.plugin@ == p)),
{
    if maps_to(s, t, p) {
        let w = choose|w: int|
            0 <= w < s.len() && #[trigger] s[w].tool@ == t && s[w].plugin@ == p;
        assert(s.push(e)[w] == s[w]);
        assert(maps_to(s.push(e), t, p));
    }
    if e.tool@ == t && e.plugin@ == p {
        assert(s.push(e)[s.len() as int] == e);
        assert(maps_to(s.push(e), t, p));
    }
    if maps_to(s.push(e), t, p) {
        let w = choose|w: int|
            0 <= w < s.push(e).len() && #[trigger] s.push(e)[w].tool@ == t && s.push(e)[w].plugin@
                == p;
        if w < s.len() {
            assert(s[w] == s.push(e)[w]);
            assert(maps_to(s, t, p));
        }
    }
}

proof fn lemma_maps_contains(s: Seq<ToolEntry>, t: Seq<char>, p: Seq<char>)
    requires
        maps_to(s, t, p),
    ensures
        contains_tool(s, t),
{
    let w = choose|w: int| 0 <= w < s.len() && #[trigger] s[w].tool@ == t && s[w].plugin@ == p;
    assert(0 <= w < s.len() && s[w].tool@ == t);
}

proof fn lemma_contains_push(s: Seq<ToolEntry>, e: ToolEntry, t: Seq<char>)
    ensures
        contains_tool(s.push(e), t) <==> (contains_tool(s, t) || e.tool@ == t),
{
    if contains_tool(s.push(e), t) {
        let w = choose|w: int| 0 <= w < s.push(e).len() && #[trigger] s.push(e)[w].tool@ == t;
        if w < s.len() {
            assert(s[w] == s.push(e)[w]);
            assert(contains_tool(s, t));
        }
    }
    if contains_tool(s, t) {
        let w = choose|w: int| 0 <= w < s.len() && #[trigger] s[w].tool@ == t;
        assert(s.push(e)[w] == s[w]);
        assert(contains_tool(s.push(e), t));
    }
    if e.tool@ == t {
        assert(s.push(e)[s.len() as int] == e);
        assert(contains_tool(s.push(e), t));
    }
}

/// Outcome `o` described successfully and reported exactly this record.
pub open spec fn outcome_has_record(o: DescribeOutcome, rec: ToolRecord) -> bool {
    o.tools matches Some(ts) && exists|i: int| 0 <= i < ts@.len() && ts@[i] == rec
}

/// Some outcome of plugin `plugin` described successfully and reported this
/// record.
pub open spec fn record_offered(os: Seq<DescribeOutcome>, plugin: Seq<char>, rec: ToolRecord) -> bool {
    exists|k: int|
        0 <= k < os.len() && #[trigger] os[k].plugin@ == plugin && outcome_has_record(os[k], rec)
}

/// A tool name routes to exactly one plugin at any instant: two routes for
/// the same tool name in a well-formed service agree on the owner.
pub proof fn lemma_tool_owner_unique(s: &PluginService, t: Seq<char>, p1: Seq<char>, p2: Seq<char>)
    requires
        s.wf(),
        maps_to(s.tools(), t, p1),
        maps_to(s.tools(), t, p2),
    ensures
        p1 == p2,
{
    let a = choose|a: int|
        0 <= a < s.tools().len() && #[trigger] s.tools()[a].tool@ == t && s.tools()[a].plugin@
            == p1;
    let b = choose|b: int|
        0 <= b < s.tools().len() && #[trigger] s.tools()[b].tool@ == t && s.tools()[b].plugin@
            == p2;
    if a < b {
        assert(s.tools()[a].tool@ != s.tools()[b].tool@);
    } else if b < a {
        assert(s.tools()[b].tool@ != s.tools()[a].tool@);
    }
}

/// The service state: the configuration it was started with, the names of
/// the loaded plugins, and the tool-routing index. The index only ever
/// routes to a loaded plugin, so a reader never observes a tool name with no
/// live plugin behind it.
#[derive(Debug)]
pub struct PluginService {
    config: Config,
    plugins: Vec<String>,
    index: ToolIndex,
}

impl PluginService {
    /// The routing entries, in registration order.
    pub closed spec fn tools(&self) -> Seq<ToolEntry> {
        self.index@
    }

    /// The names of the loaded plugins, in load order.
    pub closed spec fn plugin_names(&self) -> Seq<String> {
        self.plugins@
    }

    /// The configuration the service was created with.
    pub closed spec fn spec_config(&self) -> Config {
        self.config
    }

    /// A plugin of this name is loaded.
    pub open spec fn plugin_registered(&self, name: Seq<char>) -> bool {
        exists|i: int| 0 <= i < self.plugin_names().len() && self.plugin_names()[i]@ == name
    }

    /// Well-formedness: tool names are routed at most once, and every route
    /// points at a loaded plugin.
    pub open spec fn wf(&self) -> bool {
        &&& entry_tools_unique(self.tools())
        &&& forall|j: int|
            0 <= j < self.tools().len() ==> self.plugin_registered(#[trigger] self.tools()[j].plugin@)
    }

    /// A service with no plugins loaded and nothing routed.
    pub fn new(config: Config) -> (r: Self)
        ensures
            r.spec_config() == config,
            r.plugin_names().len() == 0,
            r.tools().len() == 0,
            r.wf(),
    {
        PluginService { config, plugins: Vec::new(), index: ToolIndex::new() }
    }

    /// The configuration the service was created with.
    pub fn config(&self) -> (r: &Config)
        ensures
            *r == self.spec_config(),
    {
        &self.config
    }

    /// How many plugins are loaded.
    pub fn plugin_count(&self) -> (r: usize)
        ensures
            r == self.plugin_names().len(),
    {
        self.plugins.len()
    }

    /// The name of the plugin at a load-order position.
    pub fn plugin_name_at(&self, i: usize) -> (r: &String)
        requires
            i < self.plugin_names().len(),
        ensures
            *r == self.plugin_names()[i as int],
    {
        &self.plugins[i]
    }

    /// How many tools are routed.
    pub fn tool_count(&self) -> (r: usize)
        ensures
            r == self.tools().len(),
    {
        self.index.len()
    }

    /// The routing entry at a position.
    pub fn tool_at(&self, i: usize) -> (r: &ToolEntry)
        requires
            i < self.tools().len(),
        ensures
            *r == self.tools()[i as int],
    {
        self.index.entry_at(i)
    }

    /// Whether a plugin of this name is loaded.
    pub fn has_plugin(&self, name: &String) -> (r: bool)
        ensures
            r == self.plugin_registered(name@),
    {
        let n = self.plugins.len();
        let mut i: usize = 0;
        while i < n
            invariant
                i <= n,
                n == self.plugin_names().len(),
                forall|j: int| 0 <= j < i ==> self.plugin_names()[j]@ != name@,
            decreases n - i,
        {
            if self.plugins[i].eq(name) {
                return true;
            }
            i += 1;
        }
        false
    }

    /// Adds a plugin name to the loaded set if it is not already there.
    fn register_name(&mut self, name: &String)
        ensures
            forall|p: Seq<char>|
                #[trigger] final(self).plugin_registered(p) <==> (old(self).plugin_registered(p) || p
                    == name@),
            final(self).tools() == old(self).tools(),
            final(self).spec_config() == old(self).spec_config(),
    {
        if !self.has_plugin(name) {
            self.plugins.push(name.clone());
            proof {
                assert(forall|j: int|
                    0 <= j < old(self).plugin_names().len() ==> self.plugin_names()[j] == old(
                        self,
                    ).plugin_names()[j]);
                assert(self.plugin_names().last()@ == name@);
            }
        }
    }

    /// Applies the outcome of loading one configured plugin, in
    /// configuration order, during the startup sequence. Every failure is
    /// fatal and leaves the service unchanged, so a plugin whose artifact
    /// could not be fetched, whose signature did not verify, or whose module
    /// did not instantiate is never registered. A tool name already routed
    /// to a different plugin is a fatal collision, reported for the first
    /// conflicting tool in declaration order; nothing of the conflicting
    /// plugin is registered.
    #[verifier::loop_isolation(false)]
    pub fn apply_load_event(&mut self, name: &String, event: LoadEvent) -> (r: Result<
        (),
        LoadError,
    >)
        requires
            old(self).wf(),
        ensures
            final(self).wf(),
            final(self).spec_config() == old(self).spec_config(),
            r is Err ==> final(self).tools() == old(self).tools() && final(self).plugin_names()
                == old(self).plugin_names(),
            (match event {
                LoadEvent::FetchFailed { message } => r == Err::<(), LoadError>(
                    LoadError::Acquisition { plugin: *name, message },
                ),
                LoadEvent::SignatureRejected { message } => r == Err::<(), LoadError>(
                    LoadError::Verification { plugin: *name, message },
                ),
                LoadEvent::InstantiationFailed { message } => r == Err::<(), LoadError>(
                    LoadError::Instantiation { plugin: *name, message },
                ),
                LoadEvent::Instantiated { tools } => match tools {
                    None => r is Ok && final(self).tools() == old(self).tools(),
                    Some(ts) => {
                        &&& (r is Ok <==> !has_collision(old(self).tools(), ts@, name@))
                        &&& (r is Ok ==> forall|t: Seq<char>, p: Seq<char>|
                            #[trigger] maps_to(final(self).tools(), t, p) <==> (maps_to(
                                old(self).tools(),
                                t,
                                p,
                            ) || (p == name@ && !contains_tool(old(self).tools(), t) && exists|i: int| 0 <= i < ts@.len() && ts@[i].name@ == t)))
                        &&& (r matches Err(e) ==> exists|i: int|
                            0 <= i < ts@.len() && collides_with(
                                old(self).tools(),
                                #[trigger] ts@[i].name@,
                                name@,
                            ) && (forall|k: int|
                                0 <= k < i ==> !collides_with(
                                    old(self).tools(),
                                    #[trigger] ts@[k].name@,
                                    name@,
                                )) && (e matches LoadError::ToolCollision {
                                tool,
                                existing,
                                plugin,
                            } && tool@ == ts@[i].name@ && maps_to(old(self).tools(), tool@, existing@)
                                && plugin@ == name@))
                    },
                },
            }),
            r is Ok ==> forall|p: Seq<char>|
                #[trigger] final(self).plugin_registered(p) <==> (old(self).plugin_registered(p) || p
                    == name@),
    {
        match event {
            LoadEvent::FetchFailed { message } => Err(
                LoadError::Acquisition { plugin: name.clone(), message },
            ),
            LoadEvent::SignatureRejected { message } => Err(
                LoadError::Verification { plugin: name.clone(), message },
            ),
            LoadEvent::InstantiationFailed { message } => Err(
                LoadError::Instantiation { plugin: name.clone(), message },
            ),
            LoadEvent::Instantiated { tools } => {
                match tools {
                    None => {
                        self.register_name(name);
                        Ok(())
                    },
                    Some(ts) => {
                        let n = ts.len();
                        let mut i: usize = 0;
                        while i < n
                            invariant
                                i <= n,
                                n == ts@.len(),
                                *self == *old(self),
                                old(self).wf(),
                                forall|k: int|
                                    0 <= k < i ==> !collides_with(
                                        old(self).tools(),
                                        #[trigger] ts@[k].name@,
                                        name@,
                                    ),
                            decreases n - i,
                        {
                            match self.index.lookup(&ts[i].name) {
                                Some(p) => {
                                    if !p.eq(name) {
                                        let existing = p.clone();
                                        proof {
                                            let t0 = ts@[i as int].name@;
                                            let os = old(self).tools();
                                            if maps_to(os, t0, name@) {
                                                let a = choose|a: int|
                                                    0 <= a < os.len() && #[trigger] os[a].tool@
                                                        == t0 && os[a].plugin@ == name@;
                                                let b = choose|b: int|
                                                    0 <= b < os.len() && #[trigger] os[b].tool@
                                                        == t0 && os[b].plugin@ == p@;
                                                if a < b {
                                                    assert(os[a].tool@ != os[b].tool@);
                                                } else if b < a {
                                                    assert(os[b].tool@ != os[a].tool@);
                                                }
                                                assert(false);
                                            }
                                            assert(collides_with(os, t0, name@));
                                            assert(has_collision(os, ts@, name@));
                                        }
                                        return Err(
                                            LoadError::ToolCollision {
                                                tool: ts[i].name.clone(),
                                                existing,
                                                plugin: name.clone(),
                                            },
                                        );
                                    }
                                },
                                None => {},
                            }
                            proof {
                                assert(!collides_with(old(self).tools(), ts@[i as int].name@, name@));
                            }
                            i += 1;
                        }
                        let mut j: usize = 0;
                        while j < n
                            invariant
                                j <= n,
                                n == ts@.len(),
                                old(self).wf(),
                                entry_tools_unique(self.tools()),
                                self.plugin_names() == old(self).plugin_names(),
                                self.spec_config() == old(self).spec_config(),
                                forall|k: int|
                                    0 <= k < n ==> !collides_with(
                                        old(self).tools(),
                                        #[trigger] ts@[k].name@,
                                        name@,
                                    ),
                                forall|jj: int|
                                    0 <= jj < self.tools().len() ==> (old(self).plugin_registered(
                                        #[trigger] self.tools()[jj].plugin@,
                                    ) || self.tools()[jj].plugin@ == name@),
                                forall|t: Seq<char>, p: Seq<char>|
                                    #[trigger] maps_to(self.tools(), t, p) <==> (maps_to(
                                        old(self).tools(),
                                        t,
                                        p,
                                    ) || (p == name@ && !contains_tool(old(self).tools(), t)
                                        && exists|k: int| 0 <= k < j && ts@[k].name@ == t)),
                            decreases n - j,
                        {
                            let ghost prev = self.tools();
                            let _outcome = self.index.insert(ts[j].name.clone(), name.clone());
                            proof {
                                let t0 = ts@[j as int].name@;
                                let ghost entry0 = ToolEntry { tool: ts@[j as int].name, plugin: *name };
                                if !contains_tool(prev, t0) {
                                    assert(self.tools() == prev.push(entry0));
                                } else {
                                    assert(maps_to(prev, t0, name@)) by {
                                        if maps_to(old(self).tools(), t0, name@) {
                                        } else if contains_tool(old(self).tools(), t0) {
                                            assert(!collides_with(old(self).tools(), t0, name@));
                                        } else {
                                            let k0 = choose|k0: int| 0 <= k0 < prev.len() && #[trigger] prev[k0].tool@ == t0;
                                            assert(maps_to(prev, t0, prev[k0].plugin@));
                                        }
                                    }
                                    assert(self.tools() == prev);
                                }
                                let ghost cur = self.tools();
                                assert forall|t: Seq<char>, p: Seq<char>|
                                    #[trigger] maps_to(self.tools(), t, p) <==> (maps_to(
                                        old(self).tools(),
                                        t,
                                        p,
                                    ) || (p == name@ && !contains_tool(old(self).tools(), t)
                                        && exists|k: int|
                                        0 <= k < j + 1 && ts@[k].name@ == t)) by {
                                    lemma_maps_push(prev, entry0, t, p);
                                    if maps_to(cur, t, p) {
                                        if maps_to(prev, t, p) {
                                        } else {
                                            assert(cur == prev.push(entry0));
                                            assert(t == t0 && p == name@);
                                        }
                                    }
                                    if maps_to(old(self).tools(), t, p) {
                                        assert(maps_to(prev, t, p));
                                        if cur == prev {
                                        } else {
                                            assert(maps_to(cur, t, p));
                                        }
                                    }
                                    if p == name@ && !contains_tool(old(self).tools(), t) && exists|k: int| 0 <= k < j + 1 && ts@[k].name@ == t {
                                        let k0 = choose|k0: int| 0 <= k0 < j + 1 && #[trigger] ts@[k0].name@ == t;
                                        if k0 < j {
                                            assert(maps_to(prev, t, p));
                                            if cur == prev {
                                            } else {
                                                assert(maps_to(cur, t, p));
                                            }
                                        } else {
                                            if !contains_tool(prev, t0) {
                                                assert(entry0.tool@ == t && entry0.plugin@ == p);
                                                assert(maps_to(cur, t, p));
                                            } else {
                                                assert(maps_to(prev, t0, name@));
                                                assert(maps_to(cur, t, p));
                                            }
                                        }
                                    }
                                }
                            }
                            j += 1;
                        }
                        self.register_name(name);
                        Ok(())
                    },
                }
            },
        }
    }
    /// Rebuilds the tool-routing index wholesale from a fresh set of
    /// self-description outcomes, one per loaded plugin, and returns the
    /// enumerated tool metadata. Stale routes are cleared before
    /// repopulation. A plugin whose self-description call failed contributes
    /// nothing: none of its tools is routed or enumerated, and the
    /// enumeration as a whole still succeeds. A tool name declared by two
    /// plugins is routed to the earliest declaring outcome; a later
    /// outcome's conflicting tool is excluded rather than silently
    /// shadowing the earlier owner. The enumeration lists exactly the
    /// routed tools, in routing order.
    #[verifier::loop_isolation(false)]
    pub fn rebuild_index(&mut self, outcomes: &Vec<DescribeOutcome>) -> (payload: Vec<ToolRecord>)
        requires
            old(self).wf(),
            forall|k: int|
                0 <= k < outcomes@.len() ==> old(self).plugin_registered(
                    #[trigger] outcomes@[k].plugin@,
                ),
        ensures
            final(self).wf(),
            final(self).spec_config() == old(self).spec_config(),
            final(self).plugin_names() == old(self).plugin_names(),
            forall|t: Seq<char>|
                #[trigger] contains_tool(final(self).tools(), t) <==> some_offer(outcomes@, t),
            forall|t: Seq<char>, p: Seq<char>|
                #[trigger] maps_to(final(self).tools(), t, p) ==> p == first_owner(outcomes@, t),
            payload@.len() == final(self).tools().len(),
            forall|j: int|
                0 <= j < payload@.len() ==> #[trigger] payload@[j].name@ == final(self).tools()[j].tool@,
            forall|j: int|
                0 <= j < payload@.len() ==> #[trigger] record_offered(
                    outcomes@,
                    final(self).tools()[j].plugin@,
                    payload@[j],
                ),
    {
        let ghost osq = outcomes@;
        self.index.clear();
        let mut payload: Vec<ToolRecord> = Vec::new();
        let n = outcomes.len();
        let mut k: usize = 0;
        while k < n
            invariant
                k <= n,
                entry_tools_unique(self.tools()),
                self.plugin_names() == old(self).plugin_names(),
                self.spec_config() == old(self).spec_config(),
                forall|jj: int|
                    0 <= jj < self.tools().len() ==> old(self).plugin_registered(
                        #[trigger] self.tools()[jj].plugin@,
                    ),
                forall|t: Seq<char>|
                    #[trigger] contains_tool(self.tools(), t) <==> some_offer(
                        osq.take(k as int),
                        t,
                    ),
                forall|t: Seq<char>, p: Seq<char>|
                    #[trigger] maps_to(self.tools(), t, p) ==> p == first_owner(
                        osq.take(k as int),
                        t,
                    ),
                payload@.len() == self.tools().len(),
                forall|j: int|
                    0 <= j < payload@.len() ==> #[trigger] payload@[j].name@
                        == self.tools()[j].tool@,
                forall|j: int|
                    0 <= j < payload@.len() ==> #[trigger] record_offered(
                        osq,
                        self.tools()[j].plugin@,
                        payload@[j],
                    ),
            decreases n - k,
        {
            let ghost kk = k as int;
            match &outcomes[k].tools {
                None => {
                    proof {
                        assert forall|t: Seq<char>|
                            #[trigger] contains_tool(self.tools(), t) <==> some_offer(
                                osq.take(kk + 1),
                                t,
                            ) by {
                            lemma_offer_snoc(osq, kk, t);
                            assert(!outcome_offers(osq[kk], t));
                        }
                        assert forall|t: Seq<char>, p: Seq<char>|
                            #[trigger] maps_to(self.tools(), t, p) implies p == first_owner(
                            osq.take(kk + 1),
                            t,
                        ) by {
                            lemma_offer_snoc(osq, kk, t);
                            lemma_maps_contains(self.tools(), t, p);
                        }
                    }
                },
                Some(ts) => {
                    proof {
                        assert forall|t: Seq<char>, p: Seq<char>|
                            (#[trigger] maps_to(self.tools(), t, p) && !some_offer(
                                osq.take(kk),
                                t,
                            )) implies p == osq[kk].plugin@ by {
                            lemma_maps_contains(self.tools(), t, p);
                        }
                    }
                    let m = ts.len();
                    let mut i: usize = 0;
                    while i < m
                        invariant
                            i <= m,
                            m == ts@.len(),
                            entry_tools_unique(self.tools()),
                            self.plugin_names() == old(self).plugin_names(),
                            self.spec_config() == old(self).spec_config(),
                            forall|jj: int|
                                0 <= jj < self.tools().len() ==> old(self).plugin_registered(
                                    #[trigger] self.tools()[jj].plugin@,
                                ),
                            forall|t: Seq<char>|
                                #[trigger] contains_tool(self.tools(), t) <==> (some_offer(
                                    osq.take(kk),
                                    t,
                                ) || exists|i2: int| 0 <= i2 < i && #[trigger] ts@[i2].name@ == t),
                            forall|t: Seq<char>, p: Seq<char>|
                                (#[trigger] maps_to(self.tools(), t, p) && some_offer(
                                    osq.take(kk),
                                    t,
                                )) ==> p == first_owner(osq.take(kk), t),
                            forall|t: Seq<char>, p: Seq<char>|
                                (#[trigger] maps_to(self.tools(), t, p) && !some_offer(
                                    osq.take(kk),
                                    t,
                                )) ==> p == osq[kk].plugin@,
                            payload@.len() == self.tools().len(),
                            forall|j: int|
                                0 <= j < payload@.len() ==> #[trigger] payload@[j].name@
                                    == self.tools()[j].tool@,
                            forall|j: int|
                                0 <= j < payload@.len() ==> #[trigger] record_offered(
                                    osq,
                                    self.tools()[j].plugin@,
                                    payload@[j],
                                ),
                        decreases m - i,
                    {
                        let ghost prev = self.tools();
                        let ghost prevpay = payload@;
                        let outcome = self.index.insert(
                            ts[i].name.clone(),
                            outcomes[k].plugin.clone(),
                        );
                        let ghost t0 = ts@[i as int].name@;
                        let ghost entry0 = ToolEntry { tool: ts@[i as int].name, plugin: osq[kk].plugin };
                        match outcome {
                            InsertOutcome::Inserted => {
                                payload.push(ts[i].clone());
                                proof {
                                    assert(!contains_tool(prev, t0)) by {
                                        if contains_tool(prev, t0) {
                                            if maps_to(prev, t0, osq[kk].plugin@) {
                                                assert(false);
                                            } else {
                                                assert(collides_with(prev, t0, osq[kk].plugin@));
                                                assert(false);
                                            }
                                        }
                                    }
                                    assert(self.tools() == prev.push(entry0));
                                    assert forall|t: Seq<char>|
                                        #[trigger] contains_tool(self.tools(), t) <==> (some_offer(
                                            osq.take(kk),
                                            t,
                                        ) || exists|i2: int|
                                            0 <= i2 < i + 1 && #[trigger] ts@[i2].name@ == t) by {
                                        lemma_contains_push(prev, entry0, t);
                                    }
                                    assert forall|t: Seq<char>, p: Seq<char>|
                                        #[trigger] maps_to(self.tools(), t, p) implies (maps_to(
                                        prev,
                                        t,
                                        p,
                                    ) || (t == t0 && p == osq[kk].plugin@)) by {
                                        lemma_maps_push(prev, entry0, t, p);
                                    }
                                    assert forall|t: Seq<char>, p: Seq<char>|
                                        (#[trigger] maps_to(self.tools(), t, p) && !some_offer(
                                            osq.take(kk),
                                            t,
                                        )) implies p == osq[kk].plugin@ by {
                                        lemma_maps_push(prev, entry0, t, p);
                                    }
                                    assert(payload@ == prevpay.push(ts@[i as int]));
                                    assert(payload@[payload@.len() - 1].name@
                                        == self.tools()[self.tools().len() - 1].tool@);
                                    assert(osq[kk].plugin@ == self.tools()[self.tools().len()
                                        - 1].plugin@);
                                    assert(outcome_has_record(osq[kk], ts@[i as int]));
                                    assert forall|j: int|
                                        0 <= j < payload@.len() implies #[trigger] payload@[j].name@
                                        == self.tools()[j].tool@ by {
                                        if j < prevpay.len() {
                                            assert(payload@[j] == prevpay[j]);
                                            assert(self.tools()[j] == prev[j]);
                                        }
                                    }
                                    assert forall|j: int|
                                        0 <= j < payload@.len() implies #[trigger] record_offered(
                                        osq,
                                        self.tools()[j].plugin@,
                                        payload@[j],
                                    ) by {
                                        if j < prevpay.len() {
                                            assert(payload@[j] == prevpay[j]);
                                            assert(self.tools()[j] == prev[j]);
                                        } else {
                                            assert(payload@[j] == ts@[i as int]);
                                            assert(self.tools()[j] == entry0);
                                            assert(osq[kk].plugin@ == entry0.plugin@
                                                && outcome_has_record(osq[kk], ts@[i as int]));
                                            assert(record_offered(osq, entry0.plugin@, ts@[i as int]));
                                        }
                                    }
                                }
                            },
                            _ => {
                                proof {
                                    assert(contains_tool(prev, t0)) by {
                                        if !contains_tool(prev, t0) {
                                            assert(false);
                                        }
                                    }
                                    assert(self.tools() == prev);
                                }
                            },
                        }
                        i += 1;
                    }
                    proof {
                        assert forall|t: Seq<char>|
                            #[trigger] contains_tool(self.tools(), t) <==> some_offer(
                                osq.take(kk + 1),
                                t,
                            ) by {
                            lemma_offer_snoc(osq, kk, t);
                            assert(outcome_offers(osq[kk], t) <==> exists|i2: int|
                                0 <= i2 < ts@.len() && #[trigger] ts@[i2].name@ == t);
                        }
                        assert forall|t: Seq<char>, p: Seq<char>|
                            #[trigger] maps_to(self.tools(), t, p) implies p == first_owner(
                            osq.take(kk + 1),
                            t,
                        ) by {
                            lemma_offer_snoc(osq, kk, t);
                            lemma_maps_contains(self.tools(), t, p);
                            if some_offer(osq.take(kk), t) {
                            } else {
                                assert(p == osq[kk].plugin@);
                            }
                        }
                    }
                },
            }
            k += 1;
        }
        proof {
            assert(osq.take(n as int) =~= osq);
        }
        payload
    }

    /// Resolves a tool invocation to the plugin that owns the tool. An
    /// unregistered tool name always yields a "tool not found" error, never
    /// a crash; a registered name yields the owning, loaded plugin.
    pub fn route_call(&self, tool: &String) -> (r: Result<String, DispatchError>)
        requires
            self.wf(),
        ensures
            r is Ok <==> contains_tool(self.tools(), tool@),
            r matches Ok(p) ==> maps_to(self.tools(), tool@, p@) && self.plugin_registered(p@),
            r is Err ==> r == Err::<String, DispatchError>(DispatchError::ToolNotFound),
    {
        match self.index.lookup(tool) {
            Some(p) => {
                if self.has_plugin(p) {
                    proof {
                        lemma_maps_contains(self.tools(), tool@, p@);
                    }
                    Ok(p.clone())
                } else {
                    proof {
                        let w = choose|w: int|
                            0 <= w < self.tools().len() && #[trigger] self.tools()[w].tool@
                                == tool@ && self.tools()[w].plugin@ == p@;
                        assert(self.plugin_registered(self.tools()[w].plugin@));
                        assert(false);
                    }
                    Err(DispatchError::ToolNotFound)
                }
            },
            None => Err(DispatchError::ToolNotFound),
        }
    }

}

} // verus!
