use zshrug::config::{default_load_patterns, PathArrayChange, Plugin, PluginSource};
use zshrug::script::{
    generate, quote_for_shell, write_array, write_array_changes, write_block, write_cleanup_section,
    write_plugin,
};
use zshrug::storage::Storage;

fn plugin(name: &str, from: PluginSource, build: &str) -> Plugin {
    Plugin {
        when: String::new(),
        name: name.to_string(),
        from,
        build: build.to_string(),
        before_load: String::new(),
        after_load: String::new(),
        load: default_load_patterns(),
        ignore: vec![],
        path: vec![],
        fpath: vec![],
        manpath: vec![],
    }
}

#[test]
fn quoting_escapes_single_quotes() {
    assert_eq!(quote_for_shell("abc"), "'abc'");
    assert_eq!(quote_for_shell("it's"), "'it'\\''s'");
    assert_eq!(quote_for_shell(""), "''");
}

#[test]
fn an_empty_block_is_left_out() {
    assert_eq!(write_block("before_load", ""), "");
    assert_eq!(write_block("before_load", "echo hi"), "## before_load\necho hi\n");
}

#[test]
fn arrays_quote_each_value() {
    let values = vec!["*.zsh".to_string(), "a b".to_string()];
    assert_eq!(write_array("v", &values), "v=(\n'*.zsh'\n'a b'\n)\n");
    assert_eq!(write_array("v", &vec![]), "v=(\n)\n");
}

#[test]
fn path_changes_append_and_prepend() {
    let changes = vec![PathArrayChange::Append("bin".to_string()), PathArrayChange::Prepend("sbin".to_string())];
    assert_eq!(
        write_array_changes("path", &changes),
        "path=($path \"$zshrug_plugin_path/\"'bin')\npath=(\"$zshrug_plugin_path/\"'sbin' $path)\n"
    );
    assert_eq!(write_array_changes("path", &vec![]), "");
}

#[test]
fn cleanup_unsets_the_variables() {
    assert_eq!(
        write_cleanup_section(),
        "unset zshrug_plugin_path\nunset zshrug_load_patterns\nunset zshrug_ignore_patterns\n"
    );
}

#[test]
fn a_plugin_section() {
    let mut p = plugin("a/b", PluginSource::Git, "");
    p.when = "[[ -n $X ]]".to_string();
    p.after_load = "x=1".to_string();
    let text = write_plugin(&p, "/d");
    assert_eq!(
        text,
        "### plugin \"a/b\" from Git\nif [[ -n $X ]]; then\nzshrug_plugin_path='/d'\n\n\
         zshrug_load_patterns=(\n'.'\n)\nzshrug_ignore_patterns=(\n)\nzshrug_load_plugin\n\n\
         ## after_load\nx=1\nfi\n\n"
    );
}

#[test]
fn a_plugin_without_patterns_loads_nothing() {
    let mut p = plugin("/l", PluginSource::Local, "");
    p.load = vec![];
    assert_eq!(write_plugin(&p, "/l"), "### plugin \"/l\" from Local\nzshrug_plugin_path='/l'\n\n\n");
}

#[test]
fn the_script_sources_each_plugin_from_its_directory() {
    let storage = Storage::init("/r".to_string(), None).unwrap();
    let a = plugin("/l", PluginSource::Local, "");
    let b = plugin("a/b", PluginSource::Git, "");
    let text = generate(&storage, &[&a, &b]);
    assert!(text.starts_with("\nzshrug_source() {"));
    assert!(text.ends_with("unset zshrug_ignore_patterns\n"));
    let first = text.find("zshrug_plugin_path='/l'").unwrap();
    let second = text.find(&format!("zshrug_plugin_path='/r/plugins/{}'", b.id())).unwrap();
    assert!(first < second);
}
