use zshrug::config::{default_load_patterns, Plugin, PluginSource};
use zshrug::storage::install::{Action, Installation, Stage};
use zshrug::storage::state::{PluginState, StateError, StateFile};
use zshrug::storage::Storage;

fn plugin(name: &str, from: PluginSource, build: &str) -> Plugin {
    Plugin {
        when: String::new(),
        name: name.to_string(),
        from,
        build: build.to_string(),
        before_load: String::new(),
        after_load: String::new(),
        load: default_load_patterns(),
        ignore: vec![],
        path: vec![],
        fpath: vec![],
        manpath: vec![],
    }
}

/// What a run did, as a driver would see it.
#[derive(Default)]
struct Run {
    fetches: Vec<usize>,
    builds: Vec<usize>,
    saves: usize,
    locked: bool,
    installed: Vec<usize>,
}

/// Runs a batch against the state text `disk`, with the fetches and builds
/// of the plugins in `broken_fetch` and `broken_build` failing.
fn run(disk: &mut Option<String>, plugins: &Vec<Plugin>, broken_fetch: &[usize], broken_build: &[usize]) -> Run {
    let storage = Storage::init("/root".to_string(), disk.as_deref()).unwrap();
    let (mut inst, mut action) = Installation::start(storage, plugins);
    let mut out = Run::default();
    loop {
        action = match action {
            Action::Lock => {
                out.locked = true;
                inst.locked(disk.as_deref()).unwrap()
            },
            Action::Fetch(i) => {
                out.fetches.push(i);
                inst.fetched(!broken_fetch.contains(&i))
            },
            Action::Build(i) => {
                out.builds.push(i);
                inst.built(!broken_build.contains(&i))
            },
            Action::Save => {
                out.saves += 1;
                *disk = Some(inst.state_text());
                inst.saved(true)
            },
            Action::Finish => break,
        };
    }
    assert_eq!(inst.stage, Stage::Done);
    out.installed = inst.installed();
    out
}

fn state_on(disk: &Option<String>, p: &Plugin) -> PluginState {
    let f = StateFile::init("s".to_string(), disk.as_deref()).unwrap();
    f.get(&p.id())
}

#[test]
fn a_fresh_plugin_is_fetched_then_built() {
    let plugins = vec![plugin("a/b", PluginSource::Git, "make")];
    let mut disk = None;
    let r = run(&mut disk, &plugins, &[], &[]);
    assert!(r.locked);
    assert_eq!(r.fetches, vec![0]);
    assert_eq!(r.builds, vec![0]);
    assert_eq!(r.saves, 2);
    assert_eq!(r.installed, vec![0]);
    assert_eq!(state_on(&disk, &plugins[0]), PluginState::Built);
}

#[test]
fn a_second_run_does_nothing() {
    let plugins = vec![plugin("a/b", PluginSource::Git, "make"), plugin("c/d", PluginSource::Url, "")];
    let mut disk = None;
    run(&mut disk, &plugins, &[], &[]);
    let r = run(&mut disk, &plugins, &[], &[]);
    assert!(!r.locked);
    assert!(r.fetches.is_empty());
    assert!(r.builds.is_empty());
    assert_eq!(r.saves, 0);
    assert_eq!(r.installed, vec![0, 1]);
}

#[test]
fn an_empty_build_command_builds_nothing() {
    let plugins = vec![plugin("a/b", PluginSource::Git, "")];
    let mut disk = None;
    let r = run(&mut disk, &plugins, &[], &[]);
    assert_eq!(r.fetches, vec![0]);
    assert!(r.builds.is_empty());
    assert_eq!(r.saves, 2);
    assert_eq!(state_on(&disk, &plugins[0]), PluginState::Built);
}

#[test]
fn a_failed_fetch_leaves_the_plugin_not_downloaded() {
    let plugins = vec![plugin("a/b", PluginSource::Git, "make")];
    let mut disk = None;
    let r = run(&mut disk, &plugins, &[0], &[]);
    assert_eq!(r.fetches, vec![0]);
    assert!(r.builds.is_empty());
    assert_eq!(r.saves, 0);
    assert!(r.installed.is_empty());
    assert_eq!(state_on(&disk, &plugins[0]), PluginState::NotDownloaded);
    let again = run(&mut disk, &plugins, &[], &[]);
    assert_eq!(again.fetches, vec![0]);
    assert_eq!(again.builds, vec![0]);
    assert_eq!(again.installed, vec![0]);
}

#[test]
fn a_failed_build_is_retried_without_fetching() {
    let plugins = vec![plugin("a/b", PluginSource::Git, "make")];
    let mut disk = None;
    let r = run(&mut disk, &plugins, &[], &[0]);
    assert_eq!(r.fetches, vec![0]);
    assert_eq!(r.builds, vec![0]);
    assert!(r.installed.is_empty());
    assert_eq!(state_on(&disk, &plugins[0]), PluginState::Downloaded);
    let again = run(&mut disk, &plugins, &[], &[]);
    assert!(again.fetches.is_empty());
    assert_eq!(again.builds, vec![0]);
    assert_eq!(again.installed, vec![0]);
    assert_eq!(state_on(&disk, &plugins[0]), PluginState::Built);
}

#[test]
fn one_broken_plugin_does_not_stop_the_batch() {
    let plugins = vec![
        plugin("a/a", PluginSource::Git, "make"),
        plugin("b/b", PluginSource::Git, "make"),
        plugin("c/c", PluginSource::Git, "make"),
    ];
    let mut disk = None;
    let r = run(&mut disk, &plugins, &[], &[1]);
    assert_eq!(r.fetches, vec![0, 1, 2]);
    assert_eq!(r.builds, vec![0, 1, 2]);
    assert_eq!(r.installed, vec![0, 2]);
}

#[test]
fn work_done_by_another_process_is_not_repeated() {
    let plugins = vec![plugin("a/b", PluginSource::Git, "make")];
    let storage = Storage::init("/root".to_string(), None).unwrap();
    let (mut inst, action) = Installation::start(storage, &plugins);
    assert_eq!(action, Action::Lock);
    let mut other = StateFile::new("s".to_string());
    other.set(&plugins[0].id(), PluginState::Built);
    let text = other.write();
    assert_eq!(inst.locked(Some(&text)), Ok(Action::Finish));
    assert_eq!(inst.installed(), vec![0]);
}

#[test]
fn a_corrupt_state_file_under_the_lock_is_an_error() {
    let plugins = vec![plugin("a/b", PluginSource::Git, "make")];
    let storage = Storage::init("/root".to_string(), None).unwrap();
    let (mut inst, _) = Installation::start(storage, &plugins);
    assert_eq!(inst.locked(Some("a/b: Broken\n")), Err(StateError::Corrupt));
    assert_eq!(inst.stage, Stage::Locking);
}

#[test]
fn local_plugins_need_no_work() {
    let plugins = vec![plugin("/home/u/p", PluginSource::Local, "make")];
    let mut disk = None;
    let r = run(&mut disk, &plugins, &[], &[]);
    assert!(!r.locked);
    assert!(r.fetches.is_empty());
    assert_eq!(r.installed, vec![0]);
    assert_eq!(disk, None);
}

#[test]
fn duplicate_plugins_are_installed_once() {
    let plugins = vec![plugin("a/b", PluginSource::Git, ""), plugin("a/b", PluginSource::Git, "")];
    let mut disk = None;
    let r = run(&mut disk, &plugins, &[], &[]);
    assert_eq!(r.fetches, vec![0]);
    assert!(r.builds.is_empty());
    assert_eq!(r.saves, 2);
    assert_eq!(r.installed, vec![0, 1]);
    let f = StateFile::init("s".to_string(), disk.as_deref()).unwrap();
    assert_eq!(f.get(&plugins[0].id()), PluginState::Built);
}

#[test]
fn a_failed_save_drops_the_plugin() {
    let plugins = vec![plugin("a/b", PluginSource::Git, "make"), plugin("c/d", PluginSource::Git, "")];
    let storage = Storage::init("/root".to_string(), None).unwrap();
    let (mut inst, action) = Installation::start(storage, &plugins);
    assert_eq!(action, Action::Lock);
    assert_eq!(inst.locked(None), Ok(Action::Fetch(0)));
    assert_eq!(inst.fetched(true), Action::Save);
    assert_eq!(inst.saved(false), Action::Fetch(1));
    assert_eq!(inst.fetched(true), Action::Save);
    assert_eq!(inst.saved(true), Action::Save);
    assert_eq!(inst.saved(true), Action::Finish);
    assert_eq!(inst.installed(), vec![1]);
}

#[test]
fn a_failed_id_is_not_retried_in_the_same_batch() {
    let plugins = vec![
        plugin("a/b", PluginSource::Git, "make"),
        plugin("c/d", PluginSource::Git, ""),
        plugin("a/b", PluginSource::Git, "make"),
    ];
    let mut disk = None;
    let r = run(&mut disk, &plugins, &[], &[0, 2]);
    assert_eq!(r.fetches, vec![0, 1]);
    assert_eq!(r.builds, vec![0]);
    assert_eq!(r.installed, vec![1]);
    assert_eq!(state_on(&disk, &plugins[0]), PluginState::Downloaded);
    let again = run(&mut disk, &plugins, &[], &[]);
    assert!(again.fetches.is_empty());
    assert_eq!(again.builds, vec![0]);
    assert_eq!(again.installed, vec![0, 1, 2]);
}
