//! The zsh script that loads the installed plugins.
use vstd::prelude::*;
use vstd::string::*;

use crate::config::{PathArrayChange, Plugin, source_kind_name, source_kind_str};
use crate::storage::{Storage, plugin_dir_of};

verus! {

/// `s` with each single quote written as `'\''`.
pub open spec fn escape_quotes(s: Seq<char>) -> Seq<char>
    decreases s.len(),
{
    if s.len() == 0 {
        Seq::empty()
    } else {
        escape_quotes(s.drop_last()) + (if s.last() == '\'' {
            seq!['\'', '\\', '\'', '\'']
        } else {
            seq![s.last()]
        })
    }
}

/// `s` as one word of the shell, in single quotes.
pub open spec fn shell_quoted(s: Seq<char>) -> Seq<char> {
    seq!['\''] + escape_quotes(s) + seq!['\'']
}

pub fn quote_for_shell(s: &str) -> (r: String)
    ensures
        r@ == shell_quoted(s@),
{
    let n = s.unicode_len();
    proof { reveal_strlit("'"); }
    let mut r = String::from_str("'");
    let mut i: usize = 0;
    while i < n
        invariant
            i <= n,
            n == s@.len(),
            r@ == seq!['\''] + escape_quotes(s@.subrange(0, i as int)),
        decreases n - i,
    {
        let c = s.get_char(i);
        if c == '\'' {
            r.append("'\\''");
        } else {
            r.append(s.substring_char(i, i + 1));
        }
        proof {
            let pre = s@.subrange(0, i as int + 1);
            assert(pre.drop_last() =~= s@.subrange(0, i as int));
            assert(pre.last() == c);
            reveal_strlit("'\\''");
            assert("'\\''"@ =~= seq!['\'', '\\', '\'', '\'']);
            assert(r@ =~= seq!['\''] + escape_quotes(pre));
        }
        i = i + 1;
    }
    r.append("'");
    proof {
        assert(s@.subrange(0, n as int) =~= s@);
        assert("'"@ =~= seq!['\'']);
        assert(r@ =~= shell_quoted(s@));
    }
    r
}

/// The debug form of a string: in double quotes, with escapes.
pub uninterp spec fn debug_str_of(s: Seq<char>) -> Seq<char>;

/// Relies on the `Debug` form of `str`, which depends on the text alone.
#[verifier::external_body]
fn debug_str(s: &str) -> (r: String)
    ensures
        r@ == debug_str_of(s@),
{
    format!("{:?}", s)
}

pub open spec fn nl() -> Seq<char> {
    seq!['\n']
}

pub open spec fn helper_functions_text() -> Seq<char> {
    "
zshrug_source() {
  local file=\"$1\"; shift
  [[ -d \"$file\" ]] && file=$(echo \"$file\"/*.(plugin.zsh|zsh-theme)(N[1]))
  [[ -n \"$file\" ]] && source \"$file\" \"$@\"
}

zshrug_load_plugin() {
  local script_path ignore_pattern
  for script_path in \"$zshrug_plugin_path/\"${^~zshrug_load_patterns}(N); do
    for ignore_pattern in $zshrug_ignore_patterns; do
      [[ \"$script_path\" == \"$zshrug_plugin_path/\"${~ignore_pattern} ]] && continue 2
    done
    zshrug_source \"$script_path\"
  done
}

"@
}

/// The shell functions that the plugins' sections call.
pub fn write_helper_functions() -> (r: String)
    ensures
        r@ == helper_functions_text(),
{
    String::from_str("
zshrug_source() {
  local file=\"$1\"; shift
  [[ -d \"$file\" ]] && file=$(echo \"$file\"/*.(plugin.zsh|zsh-theme)(N[1]))
  [[ -n \"$file\" ]] && source \"$file\" \"$@\"
}

zshrug_load_plugin() {
  local script_path ignore_pattern
  for script_path in \"$zshrug_plugin_path/\"${^~zshrug_load_patterns}(N); do
    for ignore_pattern in $zshrug_ignore_patterns; do
      [[ \"$script_path\" == \"$zshrug_plugin_path/\"${~ignore_pattern} ]] && continue 2
    done
    zshrug_source \"$script_path\"
  done
}

")
}

pub open spec fn cleanup_text() -> Seq<char> {
    "unset zshrug_plugin_path\nunset zshrug_load_patterns\nunset zshrug_ignore_patterns\n"@
}

/// Unsets the variables that the plugins' sections set.
pub fn write_cleanup_section() -> (r: String)
    ensures
        r@ == cleanup_text(),
{
    String::from_str("unset zshrug_plugin_path\nunset zshrug_load_patterns\nunset zshrug_ignore_patterns\n")
}

pub open spec fn block_text(name: Seq<char>, body: Seq<char>) -> Seq<char> {
    if body.len() == 0 {
        Seq::empty()
    } else {
        "## "@ + name + nl() + body + nl()
    }
}

/// A hook's code under a comment that names it; nothing for an empty hook.
pub fn write_block(name: &str, body: &str) -> (r: String)
    ensures
        r@ == block_text(name@, body@),
{
    if body.is_empty() {
        return String::new();
    }
    let mut r = String::from_str("## ");
    r.append(name);
    r.append("\n");
    r.append(body);
    r.append("\n");
    proof {
        reveal_strlit("\n");
        assert(r@ =~= block_text(name@, body@));
    }
    r
}

pub open spec fn array_items_text(values: Seq<String>) -> Seq<char>
    decreases values.len(),
{
    if values.len() == 0 {
        Seq::empty()
    } else {
        array_items_text(values.drop_last()) + shell_quoted(values.last()@) + nl()
    }
}

pub open spec fn array_text(var: Seq<char>, values: Seq<String>) -> Seq<char> {
    var + "=(\n"@ + array_items_text(values) + ")\n"@
}

/// An assignment of the quoted values to an array variable, one per line.
pub fn write_array(variable_name: &str, values: &Vec<String>) -> (r: String)
    ensures
        r@ == array_text(variable_name@, values@),
{
    let mut r = String::from_str(variable_name);
    r.append("=(\n");
    let mut i: usize = 0;
    while i < values.len()
        invariant
            i <= values@.len(),
            r@ == variable_name@ + "=(\n"@ + array_items_text(values@.subrange(0, i as int)),
        decreases values@.len() - i,
    {
        let q = quote_for_shell(values[i].as_str());
        r.append(q.as_str());
        r.append("\n");
        proof {
            reveal_strlit("\n");
            assert(values@.subrange(0, i as int + 1).drop_last() =~= values@.subrange(0, i as int));
            assert(r@ =~= variable_name@ + "=(\n"@ + array_items_text(values@.subrange(0, i as int + 1)));
        }
        i = i + 1;
    }
    r.append(")\n");
    proof {
        assert(values@.subrange(0, values@.len() as int) =~= values@);
        assert(r@ =~= array_text(variable_name@, values@));
    }
    r
}

pub open spec fn change_text(var: Seq<char>, change: PathArrayChange) -> Seq<char> {
    match change {
        PathArrayChange::Append(v) =>
            var + "=($"@ + var + " \"$zshrug_plugin_path/\""@ + shell_quoted(v@) + ")\n"@,
        PathArrayChange::Prepend(v) =>
            var + "=(\"$zshrug_plugin_path/\""@ + shell_quoted(v@) + " $"@ + var + ")\n"@,
    }
}

pub open spec fn changes_text(var: Seq<char>, changes: Seq<PathArrayChange>) -> Seq<char>
    decreases changes.len(),
{
    if changes.len() == 0 {
        Seq::empty()
    } else {
        changes_text(var, changes.drop_last()) + change_text(var, changes.last())
    }
}

/// Edits of a path array by paths relative to the plugin's directory.
pub fn write_array_changes(var: &str, changes: &Vec<PathArrayChange>) -> (r: String)
    ensures
        r@ == changes_text(var@, changes@),
{
    let mut r = String::new();
    let mut i: usize = 0;
    while i < changes.len()
        invariant
            i <= changes@.len(),
            r@ == changes_text(var@, changes@.subrange(0, i as int)),
        decreases changes@.len() - i,
    {
        let ghost before = r@;
        match &changes[i] {
            PathArrayChange::Append(value) => {
                r.append(var);
                r.append("=($");
                r.append(var);
                r.append(" \"$zshrug_plugin_path/\"");
                let q = quote_for_shell(value.as_str());
                r.append(q.as_str());
                r.append(")\n");
            },
            PathArrayChange::Prepend(value) => {
                r.append(var);
                r.append("=(\"$zshrug_plugin_path/\"");
                let q = quote_for_shell(value.as_str());
                r.append(q.as_str());
                r.append(" $");
                r.append(var);
                r.append(")\n");
            },
        }
        proof {
            assert(changes@.subrange(0, i as int + 1).drop_last() =~= changes@.subrange(0, i as int));
            assert(r@ =~= before + change_text(var@, changes@[i as int]));
        }
        i = i + 1;
    }
    proof { assert(changes@.subrange(0, changes@.len() as int) =~= changes@); }
    r
}

pub open spec fn plugin_head_text(plugin: &Plugin, dir: Seq<char>) -> Seq<char> {
    "### plugin "@ + debug_str_of(plugin.name@) + " from "@ + source_kind_name(plugin.from) + nl()
        + (if plugin.when@.len() > 0 { "if "@ + plugin.when@ + "; then\n"@ } else { Seq::empty() })
        + "zshrug_plugin_path="@ + shell_quoted(dir) + nl() + nl()
}

pub open spec fn plugin_load_text(plugin: &Plugin) -> Seq<char> {
    if plugin.load@.len() > 0 {
        array_text("zshrug_load_patterns"@, plugin.load@) + array_text("zshrug_ignore_patterns"@, plugin.ignore@)
            + "zshrug_load_plugin\n\n"@
    } else {
        Seq::empty()
    }
}

pub open spec fn plugin_paths_text(plugin: &Plugin) -> Seq<char> {
    changes_text("path"@, plugin.path@) + changes_text("fpath"@, plugin.fpath@)
        + changes_text("manpath"@, plugin.manpath@)
}

pub open spec fn plugin_text(plugin: &Plugin, dir: Seq<char>) -> Seq<char> {
    plugin_head_text(plugin, dir)
        + block_text("before_load"@, plugin.before_load@)
        + plugin_load_text(plugin)
        + plugin_paths_text(plugin)
        + block_text("after_load"@, plugin.after_load@)
        + (if plugin.when@.len() > 0 { "fi\n"@ } else { Seq::empty() })
        + nl()
}

fn write_plugin_head(plugin: &Plugin, plugin_dir: &str) -> (r: String)
    ensures
        r@ == plugin_head_text(plugin, plugin_dir@),
{
    let mut r = String::from_str("### plugin ");
    let name = debug_str(plugin.name.as_str());
    r.append(name.as_str());
    r.append(" from ");
    r.append(source_kind_str(plugin.from));
    r.append("\n");
    let ghost head = r@;
    if !plugin.when.as_str().is_empty() {
        r.append("if ");
        r.append(plugin.when.as_str());
        r.append("; then\n");
    }
    let ghost with_when = r@;
    r.append("zshrug_plugin_path=");
    let dir = quote_for_shell(plugin_dir);
    r.append(dir.as_str());
    r.append("\n\n");
    proof {
        reveal_strlit("\n");
        reveal_strlit("\n\n");
        assert("\n\n"@ =~= nl() + nl());
        assert(r@ =~= plugin_head_text(plugin, plugin_dir@));
    }
    r
}

fn write_plugin_load(plugin: &Plugin) -> (r: String)
    ensures
        r@ == plugin_load_text(plugin),
{
    let mut r = String::new();
    if plugin.load.len() > 0 {
        let load = write_array("zshrug_load_patterns", &plugin.load);
        r.append(load.as_str());
        let ignore = write_array("zshrug_ignore_patterns", &plugin.ignore);
        r.append(ignore.as_str());
        r.append("zshrug_load_plugin\n\n");
        proof { assert(r@ =~= plugin_load_text(plugin)); }
    }
    r
}

fn write_plugin_paths(plugin: &Plugin) -> (r: String)
    ensures
        r@ == plugin_paths_text(plugin),
{
    let mut r = write_array_changes("path", &plugin.path);
    let fpath = write_array_changes("fpath", &plugin.fpath);
    r.append(fpath.as_str());
    let manpath = write_array_changes("manpath", &plugin.manpath);
    r.append(manpath.as_str());
    r
}

/// The section of one plugin, whose files are in `plugin_dir`.
pub fn write_plugin(plugin: &Plugin, plugin_dir: &str) -> (r: String)
    ensures
        r@ == plugin_text(plugin, plugin_dir@),
{
    let mut r = write_plugin_head(plugin, plugin_dir);
    let before = write_block("before_load", plugin.before_load.as_str());
    r.append(before.as_str());
    let load = write_plugin_load(plugin);
    r.append(load.as_str());
    let paths = write_plugin_paths(plugin);
    r.append(paths.as_str());
    let after = write_block("after_load", plugin.after_load.as_str());
    r.append(after.as_str());
    let ghost body = r@;
    if !plugin.when.as_str().is_empty() {
        r.append("fi\n");
    }
    r.append("\n");
    proof {
        reveal_strlit("\n");
        assert(r@ =~= plugin_text(plugin, plugin_dir@));
    }
    r
}

pub open spec fn plugins_text(root: Seq<char>, plugins: Seq<&Plugin>) -> Seq<char>
    decreases plugins.len(),
{
    if plugins.len() == 0 {
        Seq::empty()
    } else {
        plugins_text(root, plugins.drop_last())
            + plugin_text(plugins.last(), plugin_dir_of(root, plugins.last()))
    }
}

pub open spec fn script_text(root: Seq<char>, plugins: Seq<&Plugin>) -> Seq<char> {
    helper_functions_text() + plugins_text(root, plugins) + cleanup_text()
}

/// The whole script: the helper functions, a section for each plugin in
/// order, and the cleanup.
pub fn generate(storage: &Storage, plugins: &[&Plugin]) -> (r: String)
    ensures
        r@ == script_text(storage.root@, plugins@),
{
    let mut r = write_helper_functions();
    let mut i: usize = 0;
    while i < plugins.len()
        invariant
            i <= plugins@.len(),
            r@ == helper_functions_text() + plugins_text(storage.root@, plugins@.subrange(0, i as int)),
        decreases plugins@.len() - i,
    {
        let plugin: &Plugin = plugins[i];
        let dir = storage.plugin_dir(plugin);
        let section = write_plugin(plugin, dir.as_str());
        r.append(section.as_str());
        proof {
            assert(plugins@.subrange(0, i as int + 1).drop_last() =~= plugins@.subrange(0, i as int));
        }
        i = i + 1;
    }
    let cleanup = write_cleanup_section();
    r.append(cleanup.as_str());
    proof { assert(plugins@.subrange(0, plugins@.len() as int) =~= plugins@); }
    r
}

} // verus!
