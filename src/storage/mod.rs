//! The storage root: one directory per managed plugin, the state file, and
//! the lock file.
use vstd::prelude::*;

use crate::config::{Plugin, PluginSource};
use crate::paths::{join, path_join};

pub mod install;
pub mod state;

use self::state::{PluginState, StateError, StateFile, plugin_state_in, states_of_text};

verus! {

pub open spec fn state_file_name() -> Seq<char> {
    seq!['s', 't', 'a', 't', 'e', '.', 'y', 'm', 'l']
}

pub open spec fn lock_file_name() -> Seq<char> {
    seq!['l', 'o', 'c', 'k']
}

pub open spec fn plugins_dir_name() -> Seq<char> {
    seq!['p', 'l', 'u', 'g', 'i', 'n', 's']
}

/// Where a plugin's files are: its content-addressed directory under the
/// root, or, for a local plugin, the path that it declares.
pub open spec fn plugin_dir_of(root: Seq<char>, plugin: &Plugin) -> Seq<char> {
    if plugin.from == PluginSource::Local {
        plugin.name@
    } else {
        path_join(path_join(root, plugins_dir_name()), plugin.spec_id())
    }
}

pub struct Storage {
    pub root: String,
    pub state: StateFile,
}

impl Storage {
    pub open spec fn wf(&self) -> bool {
        self.state.wf() && self.state.spec_path()@ == path_join(self.root@, state_file_name())
    }

    /// The path of the state file under `root`.
    pub fn state_path(root: &str) -> (r: String)
        ensures
            r@ == path_join(root@, state_file_name()),
    {
        proof { reveal_strlit("state.yml"); }
        join(root, "state.yml")
    }

    /// The storage at `root`, given the state file's text where that file
    /// exists. Making the directory is the caller's work.
    pub fn init(root: String, state_text: Option<&str>) -> (r: Result<Storage, StateError>)
        ensures
            match state_text {
                None => r matches Ok(s) && s.wf() && s.root == root
                    && s.state@ == Map::<Seq<char>, PluginState>::empty(),
                Some(t) => match states_of_text(t@) {
                    Some(m) => r matches Ok(s) && s.wf() && s.root == root && s.state@ == m,
                    None => r == Err::<Storage, StateError>(StateError::Corrupt),
                },
            },
    {
        let path = Storage::state_path(root.as_str());
        match StateFile::init(path, state_text) {
            Ok(state) => Ok(Storage { root, state }),
            Err(e) => Err(e),
        }
    }

    /// Reads the state file again, from its text where it exists; on an
    /// error the entries stay as they were.
    pub fn reload(&mut self, state_text: Option<&str>) -> (r: Result<(), StateError>)
        requires
            old(self).wf(),
        ensures
            final(self).wf(),
            final(self).root == old(self).root,
            match state_text {
                None => r is Ok && final(self).state@ == Map::<Seq<char>, PluginState>::empty(),
                Some(t) => match states_of_text(t@) {
                    Some(m) => r is Ok && final(self).state@ == m,
                    None => r == Err::<(), StateError>(StateError::Corrupt)
                        && final(self).state@ == old(self).state@,
                },
            },
    {
        match state_text {
            None => {
                let path = self.state.path().clone();
                self.state = StateFile::new(path);
                Ok(())
            },
            Some(t) => self.state.read(t),
        }
    }

    /// The path of the lock file under the root.
    pub fn lock_path(&self) -> (r: String)
        ensures
            r@ == path_join(self.root@, lock_file_name()),
    {
        proof { reveal_strlit("lock"); }
        join(self.root.as_str(), "lock")
    }

    pub fn plugin_dir(&self, plugin: &Plugin) -> (r: String)
        ensures
            r@ == plugin_dir_of(self.root@, plugin),
    {
        if plugin.from == PluginSource::Local {
            String::from_str(plugin.name.as_str())
        } else {
            proof { reveal_strlit("plugins"); }
            let dir = join(self.root.as_str(), "plugins");
            let id = plugin.id();
            join(dir.as_str(), id.as_str())
        }
    }

    pub fn get_plugin_state(&self, plugin: &Plugin) -> (r: PluginState)
        requires
            self.wf(),
        ensures
            r == plugin_state_in(self.state@, plugin),
    {
        self.state.get_plugin_state(plugin)
    }

    pub fn set_plugin_state(&mut self, plugin: &Plugin, state: PluginState)
        requires
            old(self).wf(),
        ensures
            final(self).wf(),
            final(self).root == old(self).root,
            final(self).state@ == (if plugin.from == PluginSource::Local {
                old(self).state@
            } else {
                old(self).state@.insert(plugin.spec_id(), state)
            }),
    {
        self.state.set_plugin_state(plugin, state);
    }
}

/// A plugin's id, directory and state depend on its source kind, name and
/// build command alone: plugins that differ only in their condition, hooks,
/// patterns or path edits share them.
pub proof fn lemma_identity_by_source(a: &Plugin, b: &Plugin, root: Seq<char>, table: Map<Seq<char>, PluginState>)
    requires
        a.from == b.from,
        a.name@ == b.name@,
        a.build@ == b.build@,
    ensures
        a.spec_id() == b.spec_id(),
        plugin_dir_of(root, a) == plugin_dir_of(root, b),
        plugin_state_in(table, a) == plugin_state_in(table, b),
{
}

/// A local plugin is built whatever the state file holds, and its directory
/// is the path that it declares.
pub proof fn lemma_local_short_circuit(plugin: &Plugin, root: Seq<char>, table: Map<Seq<char>, PluginState>)
    requires
        plugin.from == PluginSource::Local,
    ensures
        plugin_state_in(table, plugin) == PluginState::Built,
        plugin_dir_of(root, plugin) == plugin.name@,
{
}

/// Plugins that share source kind, name and build command share one entry:
/// recording a state for one is recording it for the other, and adds at
/// most one entry.
pub proof fn lemma_shared_entry(a: &Plugin, b: &Plugin, table: Map<Seq<char>, PluginState>, st: PluginState)
    requires
        a.from != PluginSource::Local,
        a.from == b.from,
        a.name@ == b.name@,
        a.build@ == b.build@,
        table.dom().finite(),
    ensures
        plugin_state_in(table.insert(a.spec_id(), st), b) == st,
        table.insert(a.spec_id(), st).dom().len() <= table.dom().len() + 1,
{
    let t = table.insert(a.spec_id(), st);
    if table.contains_key(a.spec_id()) {
        assert(t.dom() =~= table.dom());
    } else {
        assert(t.dom() =~= table.dom().insert(a.spec_id()));
    }
}

} // verus!
