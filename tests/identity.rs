use zshrug::cli::{command_for, command_str, Command};
use zshrug::config::{default_load_patterns, PathArrayChange, Plugin, PluginSource};
use zshrug::paths::{join, storage_root_from, RootError};

fn plugin(name: &str, from: PluginSource, build: &str) -> Plugin {
    Plugin {
        when: String::new(),
        name: name.to_string(),
        from,
        build: build.to_string(),
        before_load: String::new(),
        after_load: String::new(),
        load: default_load_patterns(),
        ignore: vec![],
        path: vec![],
        fpath: vec![],
        manpath: vec![],
    }
}

#[test]
fn id_is_md5_of_kind_name_and_build() {
    let p = plugin("zsh-users/zsh-autosuggestions", PluginSource::Git, "");
    assert_eq!(p.id(), "ac9b0bbfbf173ead1ca0b3419a044a2f");
    let q = plugin("a/b", PluginSource::Git, "make");
    assert_eq!(q.id(), "9e8e561fbb57711cadf2f7a8a350eb66");
    let u = plugin("https://x/y.zsh", PluginSource::Url, "");
    assert_eq!(u.id(), "d893dd8c9af60dc7d8e39a2ba06f0c18");
}

#[test]
fn id_is_32_lower_hex_digits() {
    let id = plugin("some/repo", PluginSource::Url, "make install").id();
    assert_eq!(id.len(), 32);
    assert!(id.chars().all(|c| c.is_ascii_digit() || ('a'..='f').contains(&c)));
}

#[test]
fn id_ignores_hooks_and_patterns() {
    let a = plugin("a/b", PluginSource::Git, "make");
    let mut b = plugin("a/b", PluginSource::Git, "make");
    b.when = "true".to_string();
    b.before_load = "echo hi".to_string();
    b.load = vec!["*.zsh".to_string()];
    b.path = vec![PathArrayChange::Append("bin".to_string())];
    assert_eq!(a.id(), b.id());
}

#[test]
fn id_depends_on_kind_name_and_build() {
    let a = plugin("a/b", PluginSource::Git, "make");
    assert_ne!(a.id(), plugin("a/b", PluginSource::Url, "make").id());
    assert_ne!(a.id(), plugin("a/c", PluginSource::Git, "make").id());
    assert_ne!(a.id(), plugin("a/b", PluginSource::Git, "").id());
}

#[test]
fn default_patterns_load_the_whole_directory() {
    assert_eq!(default_load_patterns(), vec![".".to_string()]);
    assert_eq!(PluginSource::default(), PluginSource::Git);
}

#[test]
fn join_adds_one_separator() {
    assert_eq!(join("/data", "zshrug"), "/data/zshrug");
    assert_eq!(join("/data/", "zshrug"), "/data/zshrug");
    assert_eq!(join("", "zshrug"), "zshrug");
    assert_eq!(join("/data", "/abs"), "/abs");
}

#[test]
fn storage_root_prefers_the_override() {
    let r = storage_root_from(Some("/custom".to_string()), Some("/xdg".to_string()), None);
    assert_eq!(r, Ok("/custom".to_string()));
}

#[test]
fn storage_root_uses_an_absolute_xdg_data_home() {
    let r = storage_root_from(None, Some("/xdg".to_string()), Some("/home/u".to_string()));
    assert_eq!(r, Ok("/xdg/zshrug".to_string()));
}

#[test]
fn storage_root_ignores_a_relative_xdg_data_home() {
    let r = storage_root_from(None, Some("xdg".to_string()), Some("/home/u".to_string()));
    assert_eq!(r, Ok("/home/u/.local/share/zshrug".to_string()));
    let r = storage_root_from(None, None, Some("/home/u".to_string()));
    assert_eq!(r, Ok("/home/u/.local/share/zshrug".to_string()));
}

#[test]
fn storage_root_needs_a_home_directory() {
    let r = storage_root_from(None, Some("/xdg".to_string()), None);
    assert_eq!(r, Err(RootError::NoHomeDirectory));
}

#[test]
fn commands_are_found_by_name() {
    assert_eq!(command_for("init"), Some(Command::Init));
    assert_eq!(command_for("storage"), Some(Command::Storage));
    assert_eq!(command_for("cleanup"), Some(Command::Cleanup));
    assert_eq!(command_for("completion"), None);
    assert_eq!(command_for(""), None);
    assert_eq!(command_str(Command::Upgrade), "upgrade");
    assert_eq!(command_str(Command::List), "list");
}
