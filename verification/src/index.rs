//! The tool-routing index: the mapping from tool name to the plugin that
//! implements it. A tool name maps to exactly one plugin at any instant;
//! registering an already-routed name under a different plugin is reported
//! as a collision, never silently shadowed.

use vstd::prelude::*;

verus! {

/// One routing entry: a tool name and the plugin that owns it.
#[derive(Debug)]
pub struct ToolEntry {
    pub tool: String,
    pub plugin: String,
}

/// No two entries route the same tool name.
pub open spec fn entry_tools_unique(s: Seq<ToolEntry>) -> bool {
    forall|i: int, j: int| 0 <= i < j < s.len() ==> s[i].tool@ != s[j].tool@
}

/// Some entry routes tool `t`.
pub open spec fn contains_tool(s: Seq<ToolEntry>, t: Seq<char>) -> bool {
    exists|i: int| 0 <= i < s.len() && s[i].tool@ == t
}

/// Some entry routes tool `t` to plugin `p`.
pub open spec fn maps_to(s: Seq<ToolEntry>, t: Seq<char>, p: Seq<char>) -> bool {
    exists|i: int| 0 <= i < s.len() && s[i].tool@ == t && s[i].plugin@ == p
}

/// What one registration attempt did.
#[derive(Debug)]
pub enum InsertOutcome {
    /// The tool was new and is now routed to the given plugin.
    Inserted,
    /// The tool was already routed to this same plugin; nothing changed.
    AlreadyOwned,
    /// The tool is routed to a different plugin; nothing changed, and the
    /// existing owner is reported.
    Collision { existing: String },
}

/// The tool-routing index. Entries are kept in registration order and tool
/// names stay unique.
#[derive(Debug)]
pub struct ToolIndex {
    entries: Vec<ToolEntry>,
}

impl View for ToolIndex {
    type V = Seq<ToolEntry>;

    closed spec fn view(&self) -> Seq<ToolEntry> {
        self.entries@
    }
}

impl ToolIndex {
    /// An index with no routes.
    pub fn new() -> (r: Self)
        ensures
            r@.len() == 0,
    {
        ToolIndex { entries: Vec::new() }
    }

    /// Removes every route; used when the index is rebuilt wholesale.
    pub fn clear(&mut self)
        ensures
            final(self)@.len() == 0,
    {
        self.entries.clear();
    }

    /// The number of routed tools.
    pub fn len(&self) -> (r: usize)
        ensures
            r == self@.len(),
    {
        self.entries.len()
    }

    /// The entry at a position, for enumeration.
    pub fn entry_at(&self, i: usize) -> (r: &ToolEntry)
        requires
            i < self@.len(),
        ensures
            *r == self@[i as int],
    {
        &self.entries[i]
    }

    /// Looks up the plugin that owns a tool, if any.
    pub fn lookup(&self, tool: &String) -> (r: Option<&String>)
        ensures
            match r {
                Some(p) => maps_to(self@, tool@, p@),
                None => !contains_tool(self@, tool@),
            },
    {
        let n = self.entries.len();
        let mut i: usize = 0;
        while i < n
            invariant
                i <= n,
                n == self@.len(),
                forall|j: int| 0 <= j < i ==> self@[j].tool@ != tool@,
            decreases n - i,
        {
            if self.entries[i].tool.eq(tool) {
                return Some(&self.entries[i].plugin);
            }
            i += 1;
        }
        None
    }

    /// Routes `tool` to `plugin` unless the name is already taken: a repeat
    /// registration by the same plugin changes nothing, and a registration
    /// by a different plugin is reported as a collision and refused.
    pub fn insert(&mut self, tool: String, plugin: String) -> (r: InsertOutcome)
        requires
            entry_tools_unique(old(self)@),
        ensures
            entry_tools_unique(final(self)@),
            !contains_tool(old(self)@, tool@) ==> (r is Inserted && final(self)@ == old(self)@.push(
                ToolEntry { tool, plugin },
            )),
            maps_to(old(self)@, tool@, plugin@) ==> (r is AlreadyOwned && final(self)@ == old(
                self,
            )@),
            (contains_tool(old(self)@, tool@) && !maps_to(old(self)@, tool@, plugin@)) ==> (r
                matches InsertOutcome::Collision { existing } && maps_to(
                old(self)@,
                tool@,
                existing@,
            ) && final(self)@ == old(self)@),
    {
        let n = self.entries.len();
        let mut i: usize = 0;
        while i < n
            invariant
                i <= n,
                n == self@.len(),
                self@ == old(self)@,
                entry_tools_unique(self@),
                forall|j: int| 0 <= j < i ==> self@[j].tool@ != tool@,
            decreases n - i,
        {
            if self.entries[i].tool.eq(&tool) {
                proof {
                    assert(forall|j: int|
                        0 <= j < self@.len() && j != i ==> self@[i as int].tool@ != self@[j].tool@);
                }
                if self.entries[i].plugin.eq(&plugin) {
                    return InsertOutcome::AlreadyOwned;
                } else {
                    proof {
                        assert(maps_to(self@, tool@, self@[i as int].plugin@));
                    }
                    return InsertOutcome::Collision { existing: self.entries[i].plugin.clone() };
                }
            }
            i += 1;
        }
        self.entries.push(ToolEntry { tool, plugin });
        proof {
            assert(forall|j: int|
                0 <= j < old(self)@.len() ==> self@[j] == old(self)@[j] && self@[j].tool@ != tool@);
        }
        InsertOutcome::Inserted
    }
}

} // verus!
