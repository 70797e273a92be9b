//! Installing a batch of plugins, as a machine that decides and a driver
//! that acts.
//!
//! The driver starts an [`Installation`], performs the [`Action`] that each
//! call returns, and reports its outcome through the matching method, until
//! the action is `Finish`. Plugins that already are built need no lock; the
//! others are checked again once the lock is held, fetched if they are not
//! downloaded, built if they are not built, and the state file is written
//! after each phase that succeeds. A plugin whose phase fails is left out of
//! the result, and the batch goes on; a later plugin with the same id is not
//! tried again in the same batch, and is left out too.
use vstd::prelude::*;

use crate::config::{Plugin, PluginSource};
use super::Storage;
use super::state::{PluginState, StateError, state_in, plugin_state_in, states_of_text, state_name, yaml_of_map};

verus! {

/// Where an installation stands.
#[derive(Debug, Clone, Copy, PartialEq, Eq, Structural)]
pub enum Stage {
    /// Waiting for the lock.
    Locking,
    /// Waiting for the current plugin to be fetched.
    Fetching,
    /// Waiting for the state file to be written after a fetch.
    SavingFetch,
    /// Waiting for the current plugin's build command to run.
    Building,
    /// Waiting for the state file to be written after a build.
    SavingBuild,
    /// Nothing is left to do.
    Done,
}

/// What the driver is to do next.
#[derive(Debug, Clone, Copy, PartialEq, Eq, Structural)]
pub enum Action {
    /// Take the lock, read the state file again, and report with `locked`.
    Lock,
    /// Empty the directory of the plugin at this index, fetch the plugin
    /// into it, and report with `fetched`.
    Fetch(usize),
    /// Run the build command of the plugin at this index in its directory,
    /// and report with `built`.
    Build(usize),
    /// Write `state_text` as the whole state file, and report with `saved`.
    Save,
    /// Release the lock, if it was taken; `installed` gives the result.
    Finish,
}

/// The state of the plugin at `i`: a local plugin, which has no id, is built.
pub open spec fn slot_state(ids: Seq<Option<String>>, table: Map<Seq<char>, PluginState>, i: int) -> PluginState {
    match ids[i] {
        Some(k) => state_in(table, k@),
        None => PluginState::Built,
    }
}

/// The id of the managed plugin at `i`.
pub open spec fn slot_id(ids: Seq<Option<String>>, i: int) -> Seq<char> {
    ids[i].unwrap()@
}

/// A candidate before position `upto` with id `k` has left the result.
pub open spec fn failed_before(ids: Seq<Option<String>>, candidates: Seq<usize>, kept: Seq<bool>, upto: int, k: Seq<char>) -> bool {
    exists|j: int| 0 <= j < upto && !kept[candidates[j] as int] && #[trigger] slot_id(ids, candidates[j] as int) == k
}

/// Where the batch goes on from position `from`, and which plugins it then
/// keeps: a candidate that is built by now is passed over, and so is one
/// whose id failed earlier in the batch, which leaves the result too.
pub open spec fn next_step(
    ids: Seq<Option<String>>,
    candidates: Seq<usize>,
    table: Map<Seq<char>, PluginState>,
    kept: Seq<bool>,
    from: int,
) -> (int, Seq<bool>)
    decreases candidates.len() - from,
{
    if from >= candidates.len() {
        (candidates.len() as int, kept)
    } else if slot_state(ids, table, candidates[from] as int) == PluginState::Built {
        next_step(ids, candidates, table, kept, from + 1)
    } else if failed_before(ids, candidates, kept, from, slot_id(ids, candidates[from] as int)) {
        next_step(ids, candidates, table, kept.update(candidates[from] as int, false), from + 1)
    } else {
        (from, kept)
    }
}

/// How far a state has come: not downloaded, downloaded, built.
pub open spec fn rank(s: PluginState) -> int {
    match s {
        PluginState::NotDownloaded => 0,
        PluginState::Downloaded => 1,
        PluginState::Built => 2,
    }
}

/// No id's state goes back: in particular, what was built stays built.
pub open spec fn no_regress(before: Map<Seq<char>, PluginState>, after: Map<Seq<char>, PluginState>) -> bool {
    forall|k: Seq<char>|
        #![trigger state_in(after, k)]
        #![trigger state_in(before, k)]
        rank(state_in(after, k)) >= rank(state_in(before, k))
}

/// A batch of plugins on its way to being installed.
pub struct Installation {
    pub storage: Storage,
    /// The id of each plugin; none for a local one.
    pub ids: Vec<Option<String>>,
    /// Whether each plugin has a build command.
    pub has_build: Vec<bool>,
    /// The plugins that were not built when the batch started, in order.
    pub candidates: Vec<usize>,
    /// The position, among the candidates, of the plugin in progress.
    pub next: usize,
    /// Whether each plugin is still in the result.
    pub kept: Vec<bool>,
    pub stage: Stage,
}

impl Installation {
    pub open spec fn state_of(&self, i: int) -> PluginState {
        slot_state(self.ids@, self.storage.state@, i)
    }

    /// The index of the plugin in progress.
    pub open spec fn current(&self) -> int {
        self.candidates@[self.next as int] as int
    }

    pub open spec fn current_id(&self) -> Seq<char> {
        self.ids@[self.current()].unwrap()@
    }

    /// What holds in every stage.
    pub open spec fn wf_base(&self) -> bool {
        &&& self.storage.wf()
        &&& self.ids@.len() == self.has_build@.len()
        &&& self.ids@.len() == self.kept@.len()
        &&& forall|j: int| 0 <= j < self.candidates@.len() ==> (#[trigger] self.candidates@[j]) < self.ids@.len()
            && self.ids@[self.candidates@[j] as int] is Some
        &&& forall|a: int, b: int| 0 <= a < b < self.candidates@.len() ==> self.candidates@[a] < self.candidates@[b]
        &&& self.next <= self.candidates@.len()
        &&& forall|i: int| 0 <= i < self.kept@.len() && !(#[trigger] self.kept@[i]) ==> self.ids@[i] is Some
    }

    /// Every candidate before position `upto` that is still in the result is built.
    pub open spec fn done_before(&self, upto: int) -> bool {
        forall|j: int| 0 <= j < upto && #[trigger] self.kept@[self.candidates@[j] as int]
            ==> self.state_of(self.candidates@[j] as int) == PluginState::Built
    }

    /// No earlier plugin with the id of the plugin in progress has failed.
    pub open spec fn current_untried(&self) -> bool {
        !failed_before(self.ids@, self.candidates@, self.kept@, self.next as int, self.current_id())
    }

    pub open spec fn wf(&self) -> bool {
        &&& self.wf_base()
        &&& match self.stage {
            Stage::Locking => self.next == 0,
            Stage::Done => self.next == self.candidates@.len() && self.done_before(self.next as int),
            Stage::Fetching => self.next < self.candidates@.len() && self.done_before(self.next as int)
                && self.current_untried()
                && self.state_of(self.current()) == PluginState::NotDownloaded,
            Stage::SavingFetch => self.next < self.candidates@.len() && self.done_before(self.next as int)
                && self.current_untried()
                && self.state_of(self.current()) == PluginState::Downloaded,
            Stage::Building => self.next < self.candidates@.len() && self.done_before(self.next as int)
                && self.current_untried()
                && self.state_of(self.current()) == PluginState::Downloaded && self.has_build@[self.current()],
            Stage::SavingBuild => self.next < self.candidates@.len() && self.done_before(self.next as int)
                && self.current_untried()
                && self.state_of(self.current()) == PluginState::Built,
        }
    }

    /// The fields that no step changes.
    pub open spec fn same_batch(&self, other: &Installation) -> bool {
        &&& self.storage.root == other.storage.root
        &&& self.ids@ == other.ids@
        &&& self.has_build@ == other.has_build@
        &&& self.candidates@ == other.candidates@
    }

    /// The installation moved on from position `from` with `table` and
    /// `kept`: it passes over the candidates that are built or whose id
    /// failed, and takes up the next one, or it is done.
    pub open spec fn advanced(&self, table: Map<Seq<char>, PluginState>, kept: Seq<bool>, from: int, r: Action) -> bool {
        let (q, kept_after) = next_step(self.ids@, self.candidates@, table, kept, from);
        &&& self.kept@ == kept_after
        &&& if q >= self.candidates@.len() {
            &&& self.stage == Stage::Done
            &&& r == Action::Finish
            &&& self.storage.state@ == table
        } else {
            let c = self.candidates@[q];
            let k = self.ids@[c as int].unwrap()@;
            &&& self.next == q
            &&& if state_in(table, k) == PluginState::NotDownloaded {
                &&& self.stage == Stage::Fetching
                &&& r == Action::Fetch(c)
                &&& self.storage.state@ == table
            } else if self.has_build@[c as int] {
                &&& self.stage == Stage::Building
                &&& r == Action::Build(c)
                &&& self.storage.state@ == table
            } else {
                &&& self.stage == Stage::SavingBuild
                &&& r == Action::Save
                &&& self.storage.state@ == table.insert(k, PluginState::Built)
            }
        }
    }

    /// Starts a batch: the plugins that are not built become candidates, in
    /// order. Where there is none, the batch is done at once, without the lock.
    pub fn start(storage: Storage, plugins: &Vec<Plugin>) -> (r: (Installation, Action))
        requires
            storage.wf(),
        ensures
            r.0.wf(),
            r.0.storage.root == storage.root,
            r.0.storage.state@ == storage.state@,
            r.0.ids@.len() == plugins@.len(),
            forall|i: int| 0 <= i < plugins@.len() ==> match #[trigger] r.0.ids@[i] {
                Some(k) => plugins@[i].from != PluginSource::Local && k@ == plugins@[i].spec_id(),
                None => plugins@[i].from == PluginSource::Local,
            },
            forall|i: int| 0 <= i < plugins@.len() ==> #[trigger] r.0.state_of(i) == plugin_state_in(storage.state@, &plugins@[i]),
            forall|i: int| 0 <= i < plugins@.len() ==> #[trigger] r.0.has_build@[i] == (plugins@[i].build@.len() > 0),
            forall|i: int| 0 <= i < plugins@.len() ==> #[trigger] r.0.kept@[i],
            forall|j: int| 0 <= j < r.0.candidates@.len() ==> #[trigger] r.0.state_of(r.0.candidates@[j] as int) != PluginState::Built,
            forall|i: int| 0 <= i < plugins@.len() && #[trigger] r.0.state_of(i) != PluginState::Built
                ==> exists|j: int| 0 <= j < r.0.candidates@.len() && r.0.candidates@[j] == i,
            (r.1 == Action::Finish) == (forall|i: int| 0 <= i < plugins@.len()
                ==> #[trigger] plugin_state_in(storage.state@, &plugins@[i]) == PluginState::Built),
            forall|j: int| 0 <= j < r.0.candidates@.len()
                ==> plugins@[#[trigger] r.0.candidates@[j] as int].from != PluginSource::Local,
            r.0.candidates@.len() == 0 ==> r.0.stage == Stage::Done && r.1 == Action::Finish,
            r.0.candidates@.len() > 0 ==> r.0.stage == Stage::Locking && r.1 == Action::Lock,
    {
        let mut ids: Vec<Option<String>> = Vec::new();
        let mut has_build: Vec<bool> = Vec::new();
        let mut kept: Vec<bool> = Vec::new();
        let mut candidates: Vec<usize> = Vec::new();
        let mut i: usize = 0;
        while i < plugins.len()
            invariant
                i <= plugins@.len(),
                storage.wf(),
                ids@.len() == i,
                has_build@.len() == i,
                kept@.len() == i,
                forall|a: int| 0 <= a < i ==> match #[trigger] ids@[a] {
                    Some(k) => plugins@[a].from != PluginSource::Local && k@ == plugins@[a].spec_id(),
                    None => plugins@[a].from == PluginSource::Local,
                },
                forall|a: int| 0 <= a < i ==> #[trigger] has_build@[a] == (plugins@[a].build@.len() > 0),
                forall|a: int| 0 <= a < i ==> #[trigger] kept@[a],
                forall|j: int| 0 <= j < candidates@.len() ==> (#[trigger] candidates@[j]) < i
                    && ids@[candidates@[j] as int] is Some
                    && slot_state(ids@, storage.state@, candidates@[j] as int) != PluginState::Built,
                forall|a: int, b: int| 0 <= a < b < candidates@.len() ==> candidates@[a] < candidates@[b],
                forall|a: int| 0 <= a < i && #[trigger] slot_state(ids@, storage.state@, a) != PluginState::Built
                    ==> exists|j: int| 0 <= j < candidates@.len() && candidates@[j] == a,
            decreases plugins@.len() - i,
        {
            let plugin = &plugins[i];
            let id: Option<String> = if plugin.from == PluginSource::Local {
                None
            } else {
                Some(plugin.id())
            };
            let state = match &id {
                Some(k) => storage.state.get(k.as_str()),
                None => PluginState::Built,
            };
            let ghost old_ids = ids@;
            let ghost old_candidates = candidates@;
            ids.push(id);
            proof {
                assert forall|a: int| 0 <= a < i implies slot_state(ids@, storage.state@, a) == slot_state(old_ids, storage.state@, a) by {
                    assert(ids@[a] == old_ids[a]);
                }
            }
            if state != PluginState::Built {
                candidates.push(i);
                proof {
                    assert(candidates@[candidates@.len() - 1] == i);
                }
            }
            has_build.push(!plugin.build.as_str().is_empty());
            kept.push(true);
            proof {
                assert(slot_state(ids@, storage.state@, i as int) == state);
                assert forall|a: int| 0 <= a <= i && #[trigger] slot_state(ids@, storage.state@, a) != PluginState::Built
                    implies exists|j: int| 0 <= j < candidates@.len() && candidates@[j] == a by {
                    if a < i {
                        assert(slot_state(old_ids, storage.state@, a) != PluginState::Built);
                        let j = choose|j: int| 0 <= j < old_candidates.len() && old_candidates[j] == a;
                        assert(candidates@[j] == a);
                    } else {
                        assert(candidates@[candidates@.len() - 1] == a);
                    }
                }
            }
            i = i + 1;
        }
        let stage = if candidates.len() == 0 { Stage::Done } else { Stage::Locking };
        let action = if candidates.len() == 0 { Action::Finish } else { Action::Lock };
        let r = Installation { storage, ids, has_build, candidates, next: 0, kept, stage };
        proof {
            assert forall|i: int| 0 <= i < plugins@.len() implies #[trigger] r.state_of(i) == plugin_state_in(r.storage.state@, &plugins@[i]) by {
                match r.ids@[i] {
                    Some(k) => {},
                    None => {},
                }
            }
            if r.candidates@.len() > 0 {
                let c = r.candidates@[0] as int;
                assert(r.state_of(c) != PluginState::Built);
                assert(plugin_state_in(r.storage.state@, &plugins@[c]) != PluginState::Built);
            } else {
                assert forall|i: int| 0 <= i < plugins@.len()
                    implies #[trigger] plugin_state_in(r.storage.state@, &plugins@[i]) == PluginState::Built by {
                    assert(r.state_of(i) == plugin_state_in(r.storage.state@, &plugins@[i]));
                }
            }
        }
        (r, action)
    }

    /// Moves on from position `from`: passes over the candidates that are
    /// built by now or whose id failed, and takes up the next one.
    fn advance(&mut self, from: usize) -> (r: Action)
        requires
            old(self).wf_base(),
            from <= old(self).candidates@.len(),
            old(self).done_before(from as int),
        ensures
            final(self).wf(),
            final(self).same_batch(old(self)),
            final(self).advanced(old(self).storage.state@, old(self).kept@, from as int, r),
            no_regress(old(self).storage.state@, final(self).storage.state@),
    {
        let ghost table = self.storage.state@;
        let ghost kept0 = self.kept@;
        let mut q: usize = from;
        while q < self.candidates.len() && self.passed_over(q)
            invariant
                self.wf_base(),
                self.same_batch(old(self)),
                self.storage.state@ == table,
                self.next == old(self).next,
                from <= q <= self.candidates@.len(),
                self.done_before(q as int),
                next_step(self.ids@, self.candidates@, table, kept0, from as int)
                    == next_step(self.ids@, self.candidates@, table, self.kept@, q as int),
            decreases self.candidates@.len() - q,
        {
            let c = self.candidates[q];
            if !self.slot_is_built(c) {
                self.kept.set(c, false);
            }
            q = q + 1;
        }
        self.next = q;
        if q == self.candidates.len() {
            self.stage = Stage::Done;
            return Action::Finish;
        }
        let c = self.candidates[q];
        let key: String = match &self.ids[c] {
            Some(k) => k.clone(),
            None => String::new(),
        };
        let state = self.storage.state.get(key.as_str());
        if state == PluginState::NotDownloaded {
            self.stage = Stage::Fetching;
            Action::Fetch(c)
        } else if self.has_build[c] {
            self.stage = Stage::Building;
            Action::Build(c)
        } else {
            self.storage.state.set(key.as_str(), PluginState::Built);
            self.stage = Stage::SavingBuild;
            Action::Save
        }
    }

    /// The position after the plugin in progress.
    fn following(&self) -> (r: usize)
        requires
            self.next < self.candidates@.len(),
        ensures
            r == self.next + 1,
    {
        let count = self.candidates.len();
        proof { assert(self.next < count); }
        self.next + 1
    }

    /// Whether the candidate at position `q` is passed over.
    fn passed_over(&self, q: usize) -> (r: bool)
        requires
            self.wf_base(),
            q < self.candidates@.len(),
        ensures
            r == (slot_state(self.ids@, self.storage.state@, self.candidates@[q as int] as int) == PluginState::Built
                || failed_before(self.ids@, self.candidates@, self.kept@, q as int,
                    slot_id(self.ids@, self.candidates@[q as int] as int))),
    {
        let c = self.candidates[q];
        self.slot_is_built(c) || self.id_failed_before(q, c)
    }

    /// Whether a candidate before position `q` with the id of the plugin at
    /// `c` has left the result.
    fn id_failed_before(&self, q: usize, c: usize) -> (r: bool)
        requires
            self.wf_base(),
            q <= self.candidates@.len(),
            c < self.ids@.len(),
            self.ids@[c as int] is Some,
        ensures
            r == failed_before(self.ids@, self.candidates@, self.kept@, q as int, slot_id(self.ids@, c as int)),
    {
        let key: &String = match &self.ids[c] {
            Some(k) => k,
            None => return false,
        };
        let mut j: usize = 0;
        while j < q
            invariant
                self.wf_base(),
                j <= q <= self.candidates@.len(),
                key@ == slot_id(self.ids@, c as int),
                forall|i: int| 0 <= i < j ==> !(!self.kept@[self.candidates@[i] as int]
                    && #[trigger] slot_id(self.ids@, self.candidates@[i] as int) == key@),
            decreases q - j,
        {
            let d = self.candidates[j];
            if !self.kept[d] {
                match &self.ids[d] {
                    Some(other) => {
                        if *other == *key {
                            proof {
                                assert(slot_id(self.ids@, self.candidates@[j as int] as int) == key@);
                            }
                            return true;
                        }
                    },
                    None => {},
                }
            }
            j = j + 1;
        }
        false
    }

    /// Whether the plugin at `i` is built.
    fn slot_is_built(&self, i: usize) -> (r: bool)
        requires
            self.wf_base(),
            i < self.ids@.len(),
        ensures
            r == (self.state_of(i as int) == PluginState::Built),
    {
        match &self.ids[i] {
            Some(k) => self.storage.state.get(k.as_str()) == PluginState::Built,
            None => true,
        }
    }

    /// The lock is held and `state_text` is the state file's text, where the
    /// file exists. Text that holds no state is an error, and the batch
    /// cannot go on.
    pub fn locked(&mut self, state_text: Option<&str>) -> (r: Result<Action, StateError>)
        requires
            old(self).wf(),
            old(self).stage == Stage::Locking,
        ensures
            final(self).wf(),
            final(self).same_batch(old(self)),
            match state_text {
                Some(t) if states_of_text(t@) is None => r == Err::<Action, StateError>(StateError::Corrupt)
                    && final(self).stage == Stage::Locking,
                _ => {
                    let table = match state_text {
                        Some(t) => states_of_text(t@).unwrap(),
                        None => Map::<Seq<char>, PluginState>::empty(),
                    };
                    r matches Ok(a) && final(self).advanced(table, old(self).kept@, 0, a)
                        && no_regress(table, final(self).storage.state@)
                },
            },
    {
        match self.storage.reload(state_text) {
            Ok(()) => Ok(self.advance(0)),
            Err(e) => Err(e),
        }
    }

    /// The current plugin was fetched, or its fetch failed. A fetched
    /// plugin is recorded as downloaded; one that failed stays not
    /// downloaded and leaves the result.
    pub fn fetched(&mut self, ok: bool) -> (r: Action)
        requires
            old(self).wf(),
            old(self).stage == Stage::Fetching,
        ensures
            final(self).wf(),
            final(self).same_batch(old(self)),
            no_regress(old(self).storage.state@, final(self).storage.state@),
            ok ==> r == Action::Save && final(self).stage == Stage::SavingFetch
                && final(self).next == old(self).next && final(self).kept@ == old(self).kept@
                && final(self).storage.state@ == old(self).storage.state@.insert(old(self).current_id(), PluginState::Downloaded),
            !ok ==> final(self).advanced(
                old(self).storage.state@, old(self).kept@.update(old(self).current(), false), old(self).next + 1, r),
            !ok ==> state_in(final(self).storage.state@, old(self).current_id()) == PluginState::NotDownloaded,
    {
        let c = self.candidates[self.next];
        if ok {
            self.record(c, PluginState::Downloaded);
            self.stage = Stage::SavingFetch;
            Action::Save
        } else {
            let after = self.following();
            self.kept.set(c, false);
            self.advance(after)
        }
    }

    /// The current plugin's build command ran, or failed. A built plugin is
    /// recorded as built; one that failed stays downloaded and leaves the
    /// result.
    pub fn built(&mut self, ok: bool) -> (r: Action)
        requires
            old(self).wf(),
            old(self).stage == Stage::Building,
        ensures
            final(self).wf(),
            final(self).same_batch(old(self)),
            no_regress(old(self).storage.state@, final(self).storage.state@),
            ok ==> r == Action::Save && final(self).stage == Stage::SavingBuild
                && final(self).next == old(self).next && final(self).kept@ == old(self).kept@
                && final(self).storage.state@ == old(self).storage.state@.insert(old(self).current_id(), PluginState::Built),
            !ok ==> final(self).advanced(
                old(self).storage.state@, old(self).kept@.update(old(self).current(), false), old(self).next + 1, r),
            !ok ==> state_in(final(self).storage.state@, old(self).current_id()) == PluginState::Downloaded,
    {
        let c = self.candidates[self.next];
        if ok {
            self.record(c, PluginState::Built);
            self.stage = Stage::SavingBuild;
            Action::Save
        } else {
            let after = self.following();
            self.kept.set(c, false);
            let ghost before = *self;
            let r = self.advance(after);
            proof {
                let ids = before.ids@;
                let cands = before.candidates@;
                let table = before.storage.state@;
                let k = slot_id(ids, c as int);
                lemma_next_step(ids, cands, table, before.kept@, after as int);
                let (q, kept_after) = next_step(ids, cands, table, before.kept@, after as int);
                assert(slot_id(ids, cands[after - 1] as int) == k);
                assert(!kept_after[c as int]);
                if q < cands.len() {
                    assert(slot_id(ids, cands[q] as int) != k);
                }
            }
            r
        }
    }

    /// The state file was written, or writing it failed. After a fetch the
    /// plugin goes on to its build; after a build the next plugin is taken
    /// up. A plugin whose state could not be written leaves the result.
    pub fn saved(&mut self, ok: bool) -> (r: Action)
        requires
            old(self).wf(),
            old(self).stage == Stage::SavingFetch || old(self).stage == Stage::SavingBuild,
        ensures
            final(self).wf(),
            final(self).same_batch(old(self)),
            no_regress(old(self).storage.state@, final(self).storage.state@),
            !ok ==> final(self).advanced(
                old(self).storage.state@, old(self).kept@.update(old(self).current(), false), old(self).next + 1, r),
            ok && old(self).stage == Stage::SavingFetch ==> final(self).advanced(
                old(self).storage.state@, old(self).kept@, old(self).next as int, r),
            ok && old(self).stage == Stage::SavingFetch ==> final(self).next == old(self).next
                && final(self).kept@ == old(self).kept@
                && if old(self).has_build@[old(self).current()] {
                    r == Action::Build(old(self).current() as usize) && final(self).stage == Stage::Building
                        && final(self).storage.state@ == old(self).storage.state@
                } else {
                    r == Action::Save && final(self).stage == Stage::SavingBuild
                        && final(self).storage.state@ == old(self).storage.state@.insert(old(self).current_id(), PluginState::Built)
                },
            ok && old(self).stage == Stage::SavingBuild ==> final(self).advanced(
                old(self).storage.state@, old(self).kept@, old(self).next + 1, r),
    {
        let c = self.candidates[self.next];
        if !ok {
            let after = self.following();
            self.kept.set(c, false);
            self.advance(after)
        } else if self.stage == Stage::SavingFetch {
            self.advance(self.next)
        } else {
            let after = self.following();
            self.advance(after)
        }
    }

    /// Sets the state of the managed plugin at `c`.
    fn record(&mut self, c: usize, state: PluginState)
        requires
            old(self).wf_base(),
            c < old(self).ids@.len(),
            old(self).ids@[c as int] is Some,
        ensures
            final(self).wf_base(),
            final(self).same_batch(old(self)),
            final(self).next == old(self).next,
            final(self).kept@ == old(self).kept@,
            final(self).stage == old(self).stage,
            final(self).storage.state@ == old(self).storage.state@.insert(old(self).ids@[c as int].unwrap()@, state),
    {
        let key: String = match &self.ids[c] {
            Some(k) => k.clone(),
            None => String::new(),
        };
        self.storage.state.set(key.as_str(), state);
    }

    /// The text of the state file as it now stands.
    pub fn state_text(&self) -> (r: String)
        requires
            self.wf(),
        ensures
            r@ == yaml_of_map(self.storage.state@.map_values(|s: PluginState| state_name(s))),
    {
        self.storage.state.write()
    }

    /// The indices of the plugins in the result, in order.
    pub fn installed(&self) -> (r: Vec<usize>)
        requires
            self.wf(),
        ensures
            forall|j: int| 0 <= j < r@.len() ==> (#[trigger] r@[j]) < self.kept@.len() && self.kept@[r@[j] as int],
            forall|a: int, b: int| 0 <= a < b < r@.len() ==> r@[a] < r@[b],
            forall|i: int| 0 <= i < self.kept@.len() && #[trigger] self.kept@[i]
                ==> exists|j: int| 0 <= j < r@.len() && r@[j] == i,
    {
        let mut r: Vec<usize> = Vec::new();
        let mut i: usize = 0;
        while i < self.kept.len()
            invariant
                i <= self.kept@.len(),
                forall|j: int| 0 <= j < r@.len() ==> (#[trigger] r@[j]) < i && self.kept@[r@[j] as int],
                forall|a: int, b: int| 0 <= a < b < r@.len() ==> r@[a] < r@[b],
                forall|a: int| 0 <= a < i && #[trigger] self.kept@[a]
                    ==> exists|j: int| 0 <= j < r@.len() && r@[j] == a,
            decreases self.kept@.len() - i,
        {
            if self.kept[i] {
                let ghost before = r@;
                r.push(i);
                proof {
                    assert forall|a: int| 0 <= a <= i && #[trigger] self.kept@[a]
                        implies exists|j: int| 0 <= j < r@.len() && r@[j] == a by {
                        if a < i {
                            let j = choose|j: int| 0 <= j < before.len() && before[j] == a;
                            assert(r@[j] == a);
                        } else {
                            assert(r@[r@.len() - 1] == a);
                        }
                    }
                }
            }
            i = i + 1;
        }
        r
    }
}

/// Where every candidate from `from` on is built under `table`, the batch
/// passes over all of them and keeps the plugins it kept.
pub proof fn lemma_all_built_is_done(
    ids: Seq<Option<String>>,
    candidates: Seq<usize>,
    table: Map<Seq<char>, PluginState>,
    kept: Seq<bool>,
    from: int,
)
    requires
        0 <= from,
        forall|j: int| from <= j < candidates.len() ==> slot_state(ids, table, #[trigger] candidates[j] as int) == PluginState::Built,
    ensures
        next_step(ids, candidates, table, kept, from) == (candidates.len() as int, kept),
    decreases candidates.len() - from,
{
    if from < candidates.len() {
        lemma_all_built_is_done(ids, candidates, table, kept, from + 1);
    }
}

/// What moving on gives: a position at or after `from`; plugins that had
/// left the result stay out of it; and a candidate taken up is neither
/// built nor one whose id failed.
pub proof fn lemma_next_step(
    ids: Seq<Option<String>>,
    candidates: Seq<usize>,
    table: Map<Seq<char>, PluginState>,
    kept: Seq<bool>,
    from: int,
)
    requires
        0 <= from <= candidates.len(),
        forall|j: int| 0 <= j < candidates.len() ==> (#[trigger] candidates[j]) < kept.len(),
    ensures
        ({
            let (q, kept_after) = next_step(ids, candidates, table, kept, from);
            &&& from <= q <= candidates.len()
            &&& kept_after.len() == kept.len()
            &&& forall|i: int| 0 <= i < kept.len() && !kept[i] ==> !(#[trigger] kept_after[i])
            &&& q < candidates.len() ==> slot_state(ids, table, candidates[q] as int) != PluginState::Built
                && !failed_before(ids, candidates, kept_after, q, slot_id(ids, candidates[q] as int))
        }),
    decreases candidates.len() - from,
{
    if from < candidates.len() {
        let c = candidates[from] as int;
        if slot_state(ids, table, c) == PluginState::Built {
            lemma_next_step(ids, candidates, table, kept, from + 1);
        } else if failed_before(ids, candidates, kept, from, slot_id(ids, c)) {
            lemma_next_step(ids, candidates, table, kept.update(c, false), from + 1);
        }
    }
}

/// Once the lock is held every candidate is checked again: where another
/// process has built them all meanwhile, the batch ends without fetching or
/// building anything.
pub proof fn lemma_recheck_under_lock(
    inst: &Installation,
    table: Map<Seq<char>, PluginState>,
    kept: Seq<bool>,
    r: Action,
)
    requires
        inst.advanced(table, kept, 0, r),
        forall|j: int| 0 <= j < inst.candidates@.len()
            ==> slot_state(inst.ids@, table, #[trigger] inst.candidates@[j] as int) == PluginState::Built,
    ensures
        r == Action::Finish,
        inst.stage == Stage::Done,
        inst.storage.state@ == table,
        inst.kept@ == kept,
{
    lemma_all_built_is_done(inst.ids@, inst.candidates@, table, kept, 0);
}

/// A plugin left downloaded, as a failed build leaves it, is built and not
/// fetched when it is next taken up; without a build command it is at once
/// recorded as built.
pub proof fn lemma_downloaded_resumes_at_build(
    inst: &Installation,
    table: Map<Seq<char>, PluginState>,
    kept: Seq<bool>,
    from: int,
    r: Action,
)
    requires
        inst.advanced(table, kept, from, r),
        next_step(inst.ids@, inst.candidates@, table, kept, from).0 < inst.candidates@.len(),
        state_in(table, slot_id(inst.ids@, inst.candidates@[next_step(inst.ids@, inst.candidates@, table, kept, from).0] as int))
            == PluginState::Downloaded,
    ensures
        !(r is Fetch),
        inst.has_build@[inst.current()] ==> r == Action::Build(inst.candidates@[inst.next as int]),
        !inst.has_build@[inst.current()] ==> r == Action::Save
            && inst.state_of(inst.current()) == PluginState::Built,
{
}

/// A batch that is done keeps only candidates that are built: a state file
/// written after it holds every plugin of the result as built, and a second
/// batch of those plugins asks for no work.
pub proof fn lemma_done_keeps_only_built(inst: &Installation)
    requires
        inst.wf(),
        inst.stage == Stage::Done,
    ensures
        forall|j: int| 0 <= j < inst.candidates@.len() && #[trigger] inst.kept@[inst.candidates@[j] as int]
            ==> inst.state_of(inst.candidates@[j] as int) == PluginState::Built,
{
}

/// Steps compose: where no step takes a state back, the whole batch, from
/// the table read under the lock to its last step, takes none back.
pub proof fn lemma_no_regress_chain(
    a: Map<Seq<char>, PluginState>,
    b: Map<Seq<char>, PluginState>,
    c: Map<Seq<char>, PluginState>,
)
    requires
        no_regress(a, b),
        no_regress(b, c),
    ensures
        no_regress(a, c),
{
    assert forall|k: Seq<char>| rank(state_in(c, k)) >= rank(state_in(a, k)) by {
        assert(rank(state_in(b, k)) >= rank(state_in(a, k)));
        assert(rank(state_in(c, k)) >= rank(state_in(b, k)));
    }
}

/// A candidate that is built under the table read once the lock is held,
/// as another process leaves it, is never taken up: it is neither fetched
/// nor built again.
pub proof fn lemma_built_candidate_passed_over(
    ids: Seq<Option<String>>,
    candidates: Seq<usize>,
    table: Map<Seq<char>, PluginState>,
    kept: Seq<bool>,
    from: int,
    q: int,
)
    requires
        0 <= from <= q < candidates.len(),
        forall|j: int| 0 <= j < candidates.len() ==> (#[trigger] candidates[j]) < kept.len(),
        slot_state(ids, table, candidates[q] as int) == PluginState::Built,
    ensures
        next_step(ids, candidates, table, kept, from).0 != q,
    decreases q - from,
{
    if from == q {
        lemma_next_step(ids, candidates, table, kept, from + 1);
    } else {
        let c = candidates[from] as int;
        if slot_state(ids, table, c) == PluginState::Built {
            lemma_built_candidate_passed_over(ids, candidates, table, kept, from + 1, q);
        } else if failed_before(ids, candidates, kept, from, slot_id(ids, c)) {
            lemma_built_candidate_passed_over(ids, candidates, table, kept.update(c, false), from + 1, q);
        }
    }
}

/// A local plugin, which has no id, never leaves the result.
pub proof fn lemma_local_kept(inst: &Installation, i: int)
    requires
        inst.wf_base(),
        0 <= i < inst.ids@.len(),
        inst.ids@[i] is None,
    ensures
        inst.kept@[i],
{
}

/// Only a plugin that is not downloaded is fetched: one left downloaded, as
/// a failed build leaves it, is never fetched again, and its directory is
/// left as it is.
pub proof fn lemma_fetch_only_not_downloaded(
    inst: &Installation,
    table: Map<Seq<char>, PluginState>,
    kept: Seq<bool>,
    from: int,
    c: usize,
)
    requires
        inst.advanced(table, kept, from, Action::Fetch(c)),
    ensures
        state_in(table, slot_id(inst.ids@, c as int)) == PluginState::NotDownloaded,
{
}

} // verus!
