//! The state file: the install state of each managed plugin, by id, kept as
//! a YAML mapping and always rewritten whole.
use vstd::prelude::*;

use crate::config::{Plugin, PluginSource};

verus! {

/// How far the installation of a plugin has come.
#[derive(Debug, Clone, Copy, PartialEq, Eq, Structural)]
pub enum PluginState {
    NotDownloaded,
    Downloaded,
    Built,
}

/// Why the state file could not be read.
#[derive(Debug, Clone, Copy, PartialEq, Eq, Structural)]
pub enum StateError {
    /// The file's text is no mapping from ids to states.
    Corrupt,
}

pub open spec fn state_name(s: PluginState) -> Seq<char> {
    match s {
        PluginState::NotDownloaded => seq!['N', 'o', 't', 'D', 'o', 'w', 'n', 'l', 'o', 'a', 'd', 'e', 'd'],
        PluginState::Downloaded => seq!['D', 'o', 'w', 'n', 'l', 'o', 'a', 'd', 'e', 'd'],
        PluginState::Built => seq!['B', 'u', 'i', 'l', 't'],
    }
}

/// The state written as `name`, if any.
pub open spec fn state_named(name: Seq<char>) -> Option<PluginState> {
    if name == state_name(PluginState::NotDownloaded) {
        Some(PluginState::NotDownloaded)
    } else if name == state_name(PluginState::Downloaded) {
        Some(PluginState::Downloaded)
    } else if name == state_name(PluginState::Built) {
        Some(PluginState::Built)
    } else {
        None
    }
}

pub fn state_str(s: PluginState) -> (r: &'static str)
    ensures
        r@ == state_name(s),
{
    match s {
        PluginState::NotDownloaded => {
            proof { reveal_strlit("NotDownloaded"); }
            "NotDownloaded"
        },
        PluginState::Downloaded => {
            proof { reveal_strlit("Downloaded"); }
            "Downloaded"
        },
        PluginState::Built => {
            proof { reveal_strlit("Built"); }
            "Built"
        },
    }
}

pub fn parse_state(name: &str) -> (r: Option<PluginState>)
    ensures
        r == state_named(name@),
{
    let name = String::from_str(name);
    if name == String::from_str(state_str(PluginState::NotDownloaded)) {
        Some(PluginState::NotDownloaded)
    } else if name == String::from_str(state_str(PluginState::Downloaded)) {
        Some(PluginState::Downloaded)
    } else if name == String::from_str(state_str(PluginState::Built)) {
        Some(PluginState::Built)
    } else {
        None
    }
}

/// The mapping that a list of pairs gives, a later pair for a key winning.
pub open spec fn map_of_pairs<V>(s: Seq<(Seq<char>, V)>) -> Map<Seq<char>, V>
    decreases s.len(),
{
    if s.len() == 0 {
        Map::empty()
    } else {
        map_of_pairs(s.drop_last()).insert(s.last().0, s.last().1)
    }
}

pub open spec fn keys_distinct<V>(s: Seq<(Seq<char>, V)>) -> bool {
    forall|i: int, j: int| 0 <= i < j < s.len() ==> s[i].0 != s[j].0
}

pub open spec fn text_pairs(v: Seq<(String, String)>) -> Seq<(Seq<char>, Seq<char>)> {
    v.map_values(|p: (String, String)| (p.0@, p.1@))
}

/// The state of `id` in `m`: a plugin without an entry is not downloaded.
pub open spec fn state_in(m: Map<Seq<char>, PluginState>, id: Seq<char>) -> PluginState {
    if m.contains_key(id) {
        m[id]
    } else {
        PluginState::NotDownloaded
    }
}

/// The text that `serde_yaml` makes of a mapping from strings to strings.
pub uninterp spec fn yaml_of_map(m: Map<Seq<char>, Seq<char>>) -> Seq<char>;

/// The mapping from strings to strings that `serde_yaml` reads in `text`, if
/// it reads one.
pub uninterp spec fn yaml_map_of(text: Seq<char>) -> Option<Map<Seq<char>, Seq<char>>>;

/// Relies on `serde_yaml::to_string` of a `BTreeMap<String, String>`: its
/// text depends on the mapping alone, and it fails only where a value's own
/// `Serialize` fails, which a string's never does.
#[verifier::external_body]
fn map_to_yaml(pairs: &Vec<(String, String)>) -> (r: Option<String>)
    requires
        keys_distinct(text_pairs(pairs@)),
    ensures
        r is Some,
        r matches Some(t) ==> t@ == yaml_of_map(map_of_pairs(text_pairs(pairs@))),
{
    let map: std::collections::BTreeMap<&String, &String> = pairs.iter().map(|p| (&p.0, &p.1)).collect();
    serde_yaml::to_string(&map).ok()
}

/// Relies on `serde_yaml::from_str` into a `BTreeMap<String, String>`, whose
/// entries come out with distinct keys.
#[verifier::external_body]
fn yaml_to_map(text: &str) -> (r: Option<Vec<(String, String)>>)
    ensures
        r is Some <==> yaml_map_of(text@) is Some,
        r matches Some(v) ==> keys_distinct(text_pairs(v@))
            && map_of_pairs(text_pairs(v@)) == yaml_map_of(text@).unwrap(),
{
    let map: Option<std::collections::BTreeMap<String, String>> = serde_yaml::from_str(text).ok();
    map.map(|m| m.into_iter().collect())
}

pub proof fn lemma_map_of_pairs_index<V>(s: Seq<(Seq<char>, V)>, i: int)
    requires
        keys_distinct(s),
        0 <= i < s.len(),
    ensures
        map_of_pairs(s).contains_key(s[i].0),
        map_of_pairs(s)[s[i].0] == s[i].1,
    decreases s.len(),
{
    if i < s.len() - 1 {
        lemma_map_of_pairs_index(s.drop_last(), i);
    }
}

pub proof fn lemma_map_of_pairs_absent<V>(s: Seq<(Seq<char>, V)>, k: Seq<char>)
    requires
        forall|i: int| 0 <= i < s.len() ==> s[i].0 != k,
    ensures
        !map_of_pairs(s).contains_key(k),
    decreases s.len(),
{
    if s.len() > 0 {
        lemma_map_of_pairs_absent(s.drop_last(), k);
    }
}

pub proof fn lemma_map_of_pairs_keys<V>(s: Seq<(Seq<char>, V)>, k: Seq<char>)
    requires
        map_of_pairs(s).contains_key(k),
    ensures
        exists|i: int| 0 <= i < s.len() && s[i].0 == k,
    decreases s.len(),
{
    if s.last().0 != k {
        lemma_map_of_pairs_keys(s.drop_last(), k);
        let i = choose|i: int| 0 <= i < s.drop_last().len() && s.drop_last()[i].0 == k;
        assert(s[i].0 == k);
    }
}

pub proof fn lemma_map_of_pairs_finite<V>(s: Seq<(Seq<char>, V)>)
    ensures
        map_of_pairs(s).dom().finite(),
    decreases s.len(),
{
    if s.len() > 0 {
        lemma_map_of_pairs_finite(s.drop_last());
    }
}

pub proof fn lemma_map_of_pairs_push<V>(s: Seq<(Seq<char>, V)>, k: Seq<char>, v: V)
    ensures
        map_of_pairs(s.push((k, v))) == map_of_pairs(s).insert(k, v),
{
    assert(s.push((k, v)).drop_last() =~= s);
}

pub proof fn lemma_map_of_pairs_update<V>(s: Seq<(Seq<char>, V)>, i: int, v: V)
    requires
        keys_distinct(s),
        0 <= i < s.len(),
    ensures
        map_of_pairs(s.update(i, (s[i].0, v))) == map_of_pairs(s).insert(s[i].0, v),
    decreases s.len(),
{
    let t = s.update(i, (s[i].0, v));
    if i == s.len() - 1 {
        assert(t.drop_last() =~= s.drop_last());
        assert(map_of_pairs(t) =~= map_of_pairs(s).insert(s[i].0, v));
    } else {
        assert(t.drop_last() =~= s.drop_last().update(i, (s[i].0, v)));
        lemma_map_of_pairs_update(s.drop_last(), i, v);
        assert(map_of_pairs(t) =~= map_of_pairs(s).insert(s[i].0, v));
    }
}

/// Mapping each value of the pairs maps each value of the mapping.
pub proof fn lemma_map_of_pairs_values<V, W>(s: Seq<(Seq<char>, V)>, t: Seq<(Seq<char>, W)>, f: spec_fn(V) -> W)
    requires
        s.len() == t.len(),
        forall|i: int| 0 <= i < s.len() ==> t[i].0 == s[i].0 && t[i].1 == f(s[i].1),
    ensures
        map_of_pairs(t) == map_of_pairs(s).map_values(f),
    decreases s.len(),
{
    if s.len() > 0 {
        lemma_map_of_pairs_values(s.drop_last(), t.drop_last(), f);
    }
    assert(map_of_pairs(t) =~= map_of_pairs(s).map_values(f));
}

/// The states of the managed plugins, by id, and the file that holds them.
pub struct StateFile {
    path: String,
    entries: Vec<(String, PluginState)>,
}

impl View for StateFile {
    type V = Map<Seq<char>, PluginState>;

    closed spec fn view(&self) -> Map<Seq<char>, PluginState> {
        map_of_pairs(self.entry_pairs())
    }
}

/// What a state file's text says, if it is a mapping from ids to state names.
pub open spec fn states_of_text(text: Seq<char>) -> Option<Map<Seq<char>, PluginState>> {
    match yaml_map_of(text) {
        Some(m) => if forall|k: Seq<char>| #[trigger] m.contains_key(k) ==> state_named(m[k]) is Some {
            Some(m.map_values(|v: Seq<char>| state_named(v).unwrap()))
        } else {
            None
        },
        None => None,
    }
}

impl StateFile {
    closed spec fn entry_pairs(&self) -> Seq<(Seq<char>, PluginState)> {
        self.entries@.map_values(|e: (String, PluginState)| (e.0@, e.1))
    }

    pub closed spec fn spec_path(&self) -> String {
        self.path
    }

    /// Where the file lies.
    pub fn path(&self) -> (r: &String)
        ensures
            *r == self.spec_path(),
    {
        &self.path
    }

    /// The entries name each id once.
    pub closed spec fn entries_distinct(&self) -> bool {
        keys_distinct(self.entry_pairs())
    }

    /// The entries name each id once, and they are finitely many.
    pub open spec fn wf(&self) -> bool {
        self.entries_distinct() && self@.dom().finite()
    }

    /// A state file without entries, as one that does not exist yet.
    pub fn new(path: String) -> (r: StateFile)
        ensures
            r.wf(),
            r.spec_path() == path,
            r@ == Map::<Seq<char>, PluginState>::empty(),
    {
        let r = StateFile { path, entries: Vec::new() };
        proof {
            assert(r.entry_pairs() =~= Seq::empty());
            lemma_map_of_pairs_finite(r.entry_pairs());
        }
        r
    }

    /// The state file at `path`, given its text where the file exists.
    pub fn init(path: String, text: Option<&str>) -> (r: Result<StateFile, StateError>)
        ensures
            match text {
                None => r matches Ok(f) && f.wf() && f.spec_path() == path && f@ == Map::<Seq<char>, PluginState>::empty(),
                Some(t) => match states_of_text(t@) {
                    Some(m) => r matches Ok(f) && f.wf() && f.spec_path() == path && f@ == m,
                    None => r == Err::<StateFile, StateError>(StateError::Corrupt),
                },
            },
    {
        let mut state = StateFile::new(path);
        match text {
            None => Ok(state),
            Some(t) => match state.read(t) {
                Ok(()) => Ok(state),
                Err(e) => Err(e),
            },
        }
    }

    /// Replaces the entries by those that `text` holds; on an error they
    /// stay as they were.
    pub fn read(&mut self, text: &str) -> (r: Result<(), StateError>)
        requires
            old(self).wf(),
        ensures
            final(self).wf(),
            final(self).spec_path() == old(self).spec_path(),
            match states_of_text(text@) {
                Some(m) => r is Ok && final(self)@ == m,
                None => r == Err::<(), StateError>(StateError::Corrupt) && final(self)@ == old(self)@,
            },
    {
        let pairs = match yaml_to_map(text) {
            Some(p) => p,
            None => return Err(StateError::Corrupt),
        };
        let ghost m = yaml_map_of(text@).unwrap();
        let ghost tp = text_pairs(pairs@);
        let mut entries: Vec<(String, PluginState)> = Vec::new();
        let mut i: usize = 0;
        while i < pairs.len()
            invariant
                i <= pairs.len(),
                tp == text_pairs(pairs@),
                keys_distinct(tp),
                map_of_pairs(tp) == m,
                yaml_map_of(text@) == Some(m),
                old(self).wf(),
                *self == *old(self),
                entries@.len() == i,
                forall|j: int| 0 <= j < i ==> #[trigger] entries@[j].0@ == tp[j].0
                    && state_named(tp[j].1) == Some(entries@[j].1),
            decreases pairs.len() - i,
        {
            match parse_state(pairs[i].1.as_str()) {
                Some(st) => {
                    assert(tp[i as int] == (pairs@[i as int].0@, pairs@[i as int].1@));
                    entries.push((pairs[i].0.clone(), st));
                },
                None => {
                    proof {
                        assert(tp[i as int] == (pairs@[i as int].0@, pairs@[i as int].1@));
                        lemma_map_of_pairs_index(tp, i as int);
                        assert(m.contains_key(tp[i as int].0));
                        assert(!(state_named(m[tp[i as int].0]) is Some));
                    }
                    return Err(StateError::Corrupt);
                },
            }
            i = i + 1;
        }
        let ghost old_self = *self;
        self.entries = entries;
        proof {
            let ep = self.entry_pairs();
            assert forall|k: Seq<char>| #[trigger] m.contains_key(k) implies state_named(m[k]) is Some by {
                lemma_map_of_pairs_keys(tp, k);
                let j = choose|j: int| 0 <= j < tp.len() && tp[j].0 == k;
                lemma_map_of_pairs_index(tp, j);
                assert(entries@[j].0@ == tp[j].0);
            }
            assert forall|a: int, b: int| 0 <= a < b < ep.len() implies ep[a].0 != ep[b].0 by {
                assert(entries@[a].0@ == tp[a].0);
                assert(entries@[b].0@ == tp[b].0);
            }
            let f = |v: Seq<char>| state_named(v).unwrap();
            assert forall|j: int| 0 <= j < tp.len() implies ep[j].0 == tp[j].0 && ep[j].1 == f(tp[j].1) by {
                assert(entries@[j].0@ == tp[j].0);
            }
            lemma_map_of_pairs_values(tp, ep, f);
            lemma_map_of_pairs_finite(ep);
        }
        Ok(())
    }

    /// The text of the file: the whole mapping, by state name.
    pub fn write(&self) -> (r: String)
        requires
            self.wf(),
        ensures
            r@ == yaml_of_map(self@.map_values(|s: PluginState| state_name(s))),
    {
        let ghost ep = self.entry_pairs();
        let mut pairs: Vec<(String, String)> = Vec::new();
        let mut i: usize = 0;
        while i < self.entries.len()
            invariant
                i <= self.entries.len(),
                ep == self.entry_pairs(),
                keys_distinct(ep),
                pairs@.len() == i,
                forall|j: int| 0 <= j < i ==> #[trigger] pairs@[j].0@ == ep[j].0
                    && pairs@[j].1@ == state_name(ep[j].1),
            decreases self.entries.len() - i,
        {
            let key = self.entries[i].0.clone();
            let name = String::from_str(state_str(self.entries[i].1));
            assert(ep[i as int] == (self.entries@[i as int].0@, self.entries@[i as int].1));
            pairs.push((key, name));
            assert(pairs@[i as int].0@ == ep[i as int].0 && pairs@[i as int].1@ == state_name(ep[i as int].1));
            i = i + 1;
        }
        let ghost tp = text_pairs(pairs@);
        proof {
            assert forall|a: int, b: int| 0 <= a < b < tp.len() implies tp[a].0 != tp[b].0 by {
                assert(pairs@[a].0@ == ep[a].0);
                assert(pairs@[b].0@ == ep[b].0);
            }
            let f = |s: PluginState| state_name(s);
            assert forall|j: int| 0 <= j < ep.len() implies tp[j].0 == ep[j].0 && tp[j].1 == f(ep[j].1) by {
                assert(pairs@[j].0@ == ep[j].0);
            }
            lemma_map_of_pairs_values(ep, tp, f);
        }
        match map_to_yaml(&pairs) {
            Some(t) => t,
            // a mapping of strings always serializes
            None => String::new(),
        }
    }

    /// The state recorded for `id`.
    pub fn get(&self, id: &str) -> (r: PluginState)
        requires
            self.wf(),
        ensures
            r == state_in(self@, id@),
    {
        let wanted = String::from_str(id);
        let ghost ep = self.entry_pairs();
        let mut i: usize = 0;
        while i < self.entries.len()
            invariant
                i <= self.entries.len(),
                ep == self.entry_pairs(),
                keys_distinct(ep),
                wanted@ == id@,
                forall|j: int| 0 <= j < i ==> ep[j].0 != id@,
            decreases self.entries.len() - i,
        {
            if self.entries[i].0 == wanted {
                proof { lemma_map_of_pairs_index(ep, i as int); }
                return self.entries[i].1;
            }
            i = i + 1;
        }
        proof { lemma_map_of_pairs_absent(ep, id@); }
        PluginState::NotDownloaded
    }

    /// Records `state` for `id`, in place of any earlier entry.
    pub fn set(&mut self, id: &str, state: PluginState)
        requires
            old(self).wf(),
        ensures
            final(self).wf(),
            final(self).spec_path() == old(self).spec_path(),
            final(self)@ == old(self)@.insert(id@, state),
    {
        let wanted = String::from_str(id);
        let ghost ep = self.entry_pairs();
        let mut i: usize = 0;
        while i < self.entries.len()
            invariant
                i <= self.entries.len(),
                ep == self.entry_pairs(),
                keys_distinct(ep),
                wanted@ == id@,
                *self == *old(self),
                forall|j: int| 0 <= j < i ==> ep[j].0 != id@,
            decreases self.entries.len() - i,
        {
            if self.entries[i].0 == wanted {
                let key = self.entries[i].0.clone();
                self.entries.set(i, (key, state));
                proof {
                    assert(self.entry_pairs() =~= ep.update(i as int, (ep[i as int].0, state)));
                    lemma_map_of_pairs_update(ep, i as int, state);
                    lemma_map_of_pairs_finite(self.entry_pairs());
                }
                return;
            }
            i = i + 1;
        }
        self.entries.push((wanted, state));
        proof {
            assert(self.entry_pairs() =~= ep.push((id@, state)));
            lemma_map_of_pairs_push(ep, id@, state);
            lemma_map_of_pairs_finite(self.entry_pairs());
        }
    }

    /// The state of `plugin`: a local plugin is always built.
    pub fn get_plugin_state(&self, plugin: &Plugin) -> (r: PluginState)
        requires
            self.wf(),
        ensures
            r == plugin_state_in(self@, plugin),
    {
        if plugin.from == PluginSource::Local {
            PluginState::Built
        } else {
            let id = plugin.id();
            self.get(id.as_str())
        }
    }

    /// Records `state` for a managed plugin; a local plugin has no entry.
    pub fn set_plugin_state(&mut self, plugin: &Plugin, state: PluginState)
        requires
            old(self).wf(),
        ensures
            final(self).wf(),
            final(self).spec_path() == old(self).spec_path(),
            final(self)@ == (if plugin.from == PluginSource::Local {
                old(self)@
            } else {
                old(self)@.insert(plugin.spec_id(), state)
            }),
    {
        if plugin.from != PluginSource::Local {
            let id = plugin.id();
            self.set(id.as_str(), state);
        }
    }
}

/// The state of `plugin` under the entries `m`.
pub open spec fn plugin_state_in(m: Map<Seq<char>, PluginState>, plugin: &Plugin) -> PluginState {
    if plugin.from == PluginSource::Local {
        PluginState::Built
    } else {
        state_in(m, plugin.spec_id())
    }
}

} // verus!
