//! The part of the user's settings that says which plugins are enabled.

use vstd::prelude::*;
use crate::text::same_text;
use std::collections::HashMap;

verus! {

/// Which plugins the settings enable, as (plugin id, enabled) entries.
pub struct ClaudeSettings {
    pub enabled_plugins: Vec<(String, bool)>,
}

/// The map the entries stand for; a later entry for an id overrides an
/// earlier one.
pub open spec fn entries_map(entries: Seq<(String, bool)>) -> Map<Seq<char>, bool>
    decreases entries.len(),
{
    if entries.len() == 0 {
        Map::empty()
    } else {
        entries_map(entries.drop_last()).insert(entries.last().0@, entries.last().1)
    }
}

/// The entries whose id is not `id`, in order.
pub open spec fn without_id(entries: Seq<(String, bool)>, id: Seq<char>) -> Seq<(String, bool)>
    decreases entries.len(),
{
    if entries.len() == 0 {
        Seq::empty()
    } else if entries.last().0@ == id {
        without_id(entries.drop_last(), id)
    } else {
        without_id(entries.drop_last(), id).push(entries.last())
    }
}

proof fn lemma_without_id(entries: Seq<(String, bool)>, id: Seq<char>)
    ensures
        entries_map(without_id(entries, id)) == entries_map(entries).remove(id),
    decreases entries.len(),
{
    if entries.len() > 0 {
        lemma_without_id(entries.drop_last(), id);
        let rest = without_id(entries.drop_last(), id);
        if entries.last().0@ != id {
            assert(rest.push(entries.last()).drop_last() =~= rest);
        }
        assert(entries_map(without_id(entries, id)) =~= entries_map(entries).remove(id));
    } else {
        assert(entries_map(entries).remove(id) =~= Map::empty());
    }
}

impl ClaudeSettings {
    /// The enabled state of each plugin the settings mention.
    pub open spec fn plugins(&self) -> Map<Seq<char>, bool> {
        entries_map(self.enabled_plugins@)
    }

    /// Settings that mention no plugin.
    pub fn new() -> (r: Self)
        ensures
            r.plugins() == Map::<Seq<char>, bool>::empty(),
    {
        ClaudeSettings { enabled_plugins: Vec::new() }
    }

    /// Whether the settings enable the plugin; a plugin they do not mention
    /// is disabled.
    pub fn is_enabled(&self, plugin_id: &str) -> (r: bool)
        ensures
            r == (self.plugins().contains_key(plugin_id@) && self.plugins()[plugin_id@]),
    {
        let n = self.enabled_plugins.len();
        let mut i: usize = n;
        assert(self.enabled_plugins@.take(n as int) =~= self.enabled_plugins@);
        while i > 0
            invariant
                i <= n,
                n == self.enabled_plugins@.len(),
                forall|j: int| i <= j < n ==> self.enabled_plugins@[j].0@ != plugin_id@,
                entries_map(self.enabled_plugins@).contains_key(plugin_id@) == entries_map(
                    self.enabled_plugins@.take(i as int),
                ).contains_key(plugin_id@),
                entries_map(self.enabled_plugins@).contains_key(plugin_id@) ==> entries_map(
                    self.enabled_plugins@,
                )[plugin_id@] == entries_map(self.enabled_plugins@.take(i as int))[plugin_id@],
            decreases i,
        {
            assert(self.enabled_plugins@.take(i as int).drop_last() =~= self.enabled_plugins@.take(
                i - 1,
            ));
            assert(self.enabled_plugins@.take(i as int).last() == self.enabled_plugins@[i - 1]);
            if same_text(self.enabled_plugins[i - 1].0.as_str(), plugin_id) {
                return self.enabled_plugins[i - 1].1;
            }
            i -= 1;
        }
        assert(self.enabled_plugins@.take(0) =~= Seq::<(String, bool)>::empty());
        false
    }

    /// Sets the enabled state of a plugin, leaving every other entry as it
    /// was.
    pub fn set(&mut self, plugin_id: &str, enabled: bool)
        ensures
            final(self).plugins() == old(self).plugins().insert(plugin_id@, enabled),
    {
        self.forget(plugin_id);
        let ghost mid = self.enabled_plugins@;
        let key = String::from_str(plugin_id);
        self.enabled_plugins.push((key, enabled));
        assert(self.enabled_plugins@.drop_last() =~= mid);
        assert(self.enabled_plugins@.last().0@ == plugin_id@);
        assert(self.plugins() =~= old(self).plugins().remove(plugin_id@).insert(plugin_id@, enabled));
        assert(self.plugins() =~= old(self).plugins().insert(plugin_id@, enabled));
    }

    /// Drops every entry for the plugin.
    pub fn forget(&mut self, plugin_id: &str)
        ensures
            final(self).plugins() == old(self).plugins().remove(plugin_id@),
    {
        let ghost orig = self.enabled_plugins@;
        let mut kept: Vec<(String, bool)> = Vec::new();
        let n = self.enabled_plugins.len();
        let mut i: usize = 0;
        assert(orig.take(0) =~= Seq::<(String, bool)>::empty());
        while i < n
            invariant
                i <= n,
                n == orig.len(),
                self.enabled_plugins@ == orig,
                kept@ == without_id(orig.take(i as int), plugin_id@),
            decreases n - i,
        {
            assert(orig.take(i + 1).drop_last() =~= orig.take(i as int));
            assert(orig.take(i + 1).last() == orig[i as int]);
            if !same_text(self.enabled_plugins[i].0.as_str(), plugin_id) {
                let key = self.enabled_plugins[i].0.clone();
                let on = self.enabled_plugins[i].1;
                kept.push((key, on));
                assert((key, on) == orig[i as int]);
            }
            i += 1;
        }
        assert(orig.take(n as int) =~= orig);
        proof {
            lemma_without_id(orig, plugin_id@);
        }
        self.enabled_plugins = kept;
    }
}

/// Marks the plugin enabled.
pub fn enable_plugin(settings: &mut ClaudeSettings, plugin_id: &str)
    ensures
        final(settings).plugins() == old(settings).plugins().insert(plugin_id@, true),
{
    settings.set(plugin_id, true);
}

/// Removes the plugin from the settings, which disables it.
pub fn disable_plugin(settings: &mut ClaudeSettings, plugin_id: &str)
    ensures
        final(settings).plugins() == old(settings).plugins().remove(plugin_id@),
{
    settings.forget(plugin_id);
}

/// How an MCP server is started.
#[derive(Debug, Clone)]
pub struct MCPServerConfig {
    pub command: String,
    pub args: Vec<String>,
    pub env: Option<HashMap<String, String>>,
}

/// Which tool uses are allowed, asked about, or denied.
#[derive(Debug, Clone, Default)]
pub struct PermissionsConfig {
    pub allow: Vec<String>,
    pub ask: Vec<String>,
    pub deny: Vec<String>,
}

/// The configuration an MCP server is installed with: its command and
/// arguments, no environment.
pub fn mcp_server_config(command: &str, args: Vec<String>) -> (r: MCPServerConfig)
    ensures
        r.command@ == command@,
        r.args == args,
        r.env is None,
{
    MCPServerConfig { command: String::from_str(command), args, env: None }
}

} // verus!
