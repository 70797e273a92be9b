use zshrug::config::{default_load_patterns, Plugin, PluginSource};
use zshrug::storage::state::{parse_state, state_str, PluginState, StateError, StateFile};
use zshrug::storage::Storage;

fn plugin(name: &str, from: PluginSource, build: &str) -> Plugin {
    Plugin {
        when: String::new(),
        name: name.to_string(),
        from,
        build: build.to_string(),
        before_load: String::new(),
        after_load: String::new(),
        load: default_load_patterns(),
        ignore: vec![],
        path: vec![],
        fpath: vec![],
        manpath: vec![],
    }
}

#[test]
fn an_absent_file_is_empty() {
    let f = StateFile::init("/s/state.yml".to_string(), None).unwrap();
    assert_eq!(f.get("abc"), PluginState::NotDownloaded);
    assert_eq!(f.path(), "/s/state.yml");
}

#[test]
fn entries_are_read_from_yaml() {
    let f = StateFile::init("s".to_string(), Some("---\nabc: Built\ndef: Downloaded\n")).unwrap();
    assert_eq!(f.get("abc"), PluginState::Built);
    assert_eq!(f.get("def"), PluginState::Downloaded);
    assert_eq!(f.get("ghi"), PluginState::NotDownloaded);
}

#[test]
fn an_unknown_state_is_corrupt() {
    let r = StateFile::init("s".to_string(), Some("abc: Installed\n"));
    assert!(matches!(r, Err(StateError::Corrupt)));
}

#[test]
fn text_that_is_no_mapping_is_corrupt() {
    assert!(matches!(StateFile::init("s".to_string(), Some("- abc\n- def\n")), Err(StateError::Corrupt)));
    assert!(matches!(StateFile::init("s".to_string(), Some("abc: [1, 2")), Err(StateError::Corrupt)));
}

#[test]
fn a_failed_read_keeps_the_entries() {
    let mut f = StateFile::new("s".to_string());
    f.set("abc", PluginState::Built);
    assert_eq!(f.read("abc: Nope\n"), Err(StateError::Corrupt));
    assert_eq!(f.get("abc"), PluginState::Built);
}

#[test]
fn set_overwrites_an_entry() {
    let mut f = StateFile::new("s".to_string());
    f.set("abc", PluginState::Downloaded);
    f.set("def", PluginState::Downloaded);
    f.set("abc", PluginState::Built);
    assert_eq!(f.get("abc"), PluginState::Built);
    assert_eq!(f.get("def"), PluginState::Downloaded);
}

#[test]
fn written_text_reads_back() {
    let mut f = StateFile::new("s".to_string());
    f.set("abc", PluginState::Built);
    f.set("def", PluginState::Downloaded);
    let text = f.write();
    assert!(text.contains("abc: Built"));
    assert!(text.contains("def: Downloaded"));
    let g = StateFile::init("s".to_string(), Some(&text)).unwrap();
    assert_eq!(g.get("abc"), PluginState::Built);
    assert_eq!(g.get("def"), PluginState::Downloaded);
}

#[test]
fn state_names_round_trip() {
    for s in [PluginState::NotDownloaded, PluginState::Downloaded, PluginState::Built] {
        assert_eq!(parse_state(state_str(s)), Some(s));
    }
    assert_eq!(parse_state("built"), None);
}

#[test]
fn local_plugins_are_always_built() {
    let mut storage = Storage::init("/root".to_string(), None).unwrap();
    let local = plugin("/home/u/my-plugin", PluginSource::Local, "make");
    assert_eq!(storage.get_plugin_state(&local), PluginState::Built);
    storage.set_plugin_state(&local, PluginState::NotDownloaded);
    assert_eq!(storage.get_plugin_state(&local), PluginState::Built);
    assert_eq!(storage.state.write(), StateFile::new("x".to_string()).write());
    assert_eq!(storage.plugin_dir(&local), "/home/u/my-plugin");
}

#[test]
fn managed_plugins_live_under_their_id() {
    let mut storage = Storage::init("/root".to_string(), None).unwrap();
    let p = plugin("a/b", PluginSource::Git, "make");
    assert_eq!(storage.plugin_dir(&p), format!("/root/plugins/{}", p.id()));
    assert_eq!(storage.get_plugin_state(&p), PluginState::NotDownloaded);
    storage.set_plugin_state(&p, PluginState::Downloaded);
    assert_eq!(storage.get_plugin_state(&p), PluginState::Downloaded);
    assert_eq!(storage.state.get(&p.id()), PluginState::Downloaded);
    assert_eq!(storage.lock_path(), "/root/lock");
    assert_eq!(Storage::state_path("/root"), "/root/state.yml");
    assert_eq!(storage.state.path(), "/root/state.yml");
}

#[test]
fn storage_init_rejects_a_corrupt_state_file() {
    assert!(matches!(Storage::init("/root".to_string(), Some(":::\n- [")), Err(StateError::Corrupt)));
}
