//! The plugins that a configuration declares, and their identity.
use vstd::prelude::*;

verus! {

/// Where a plugin's files come from.
#[derive(Debug, Clone, Copy, PartialEq, Eq, Structural)]
pub enum PluginSource {
    /// A git repository, cloned shallowly with its submodules.
    Git,
    /// A single file, downloaded into the plugin's directory.
    Url,
    /// A directory that already exists; it is used as it is.
    Local,
}

impl Default for PluginSource {
    fn default() -> (r: Self)
        ensures
            r == PluginSource::Git,
    {
        PluginSource::Git
    }
}

/// An edit of one of zsh's path arrays, relative to the plugin's directory.
#[derive(Debug, Clone, PartialEq, Eq)]
pub enum PathArrayChange {
    Append(String),
    Prepend(String),
}

/// One declared plugin.
#[derive(Debug, Clone, PartialEq, Eq)]
pub struct Plugin {
    /// A shell condition under which the plugin is loaded; empty for always.
    pub when: String,
    /// The repository, the URL, or the local directory.
    pub name: String,
    pub from: PluginSource,
    /// A shell command run once in the plugin's directory after fetching.
    pub build: String,
    pub before_load: String,
    pub after_load: String,
    /// Glob patterns of the files to source.
    pub load: Vec<String>,
    /// Glob patterns of the files not to source.
    pub ignore: Vec<String>,
    pub path: Vec<PathArrayChange>,
    pub fpath: Vec<PathArrayChange>,
    pub manpath: Vec<PathArrayChange>,
}

/// A whole configuration: the plugins in the order they are loaded.
#[derive(Debug, Clone)]
pub struct Config {
    pub plugins: Vec<Plugin>,
}

/// The name under which a source kind enters a plugin's id.
pub open spec fn source_kind_name(from: PluginSource) -> Seq<char> {
    match from {
        PluginSource::Git => seq!['G', 'i', 't'],
        PluginSource::Url => seq!['U', 'r', 'l'],
        PluginSource::Local => seq!['L', 'o', 'c', 'a', 'l'],
    }
}

/// The text that is hashed into a plugin's id: `<kind>:<name>:<build>`.
pub open spec fn id_text(from: PluginSource, name: Seq<char>, build: Seq<char>) -> Seq<char> {
    source_kind_name(from) + seq![':'] + name + seq![':'] + build
}

/// The lower-case hexadecimal MD5 digest of the UTF-8 encoding of `text`.
pub uninterp spec fn md5_hex_of(text: Seq<char>) -> Seq<char>;

/// A plugin's id: it depends on its source kind, name and build command alone.
pub open spec fn plugin_id(from: PluginSource, name: Seq<char>, build: Seq<char>) -> Seq<char> {
    md5_hex_of(id_text(from, name, build))
}

pub open spec fn is_lower_hex_digit(c: char) -> bool {
    ('0' <= c && c <= '9') || ('a' <= c && c <= 'f')
}

/// Relies on `md5::compute` and the `LowerHex` form of its `Digest`: sixteen
/// bytes written as two lower-case hex digits each, a function of the text
/// alone.
#[verifier::external_body]
fn md5_hex(text: &str) -> (r: String)
    ensures
        r@ == md5_hex_of(text@),
        r@.len() == 32,
        forall|i: int| 0 <= i < r@.len() ==> is_lower_hex_digit(#[trigger] r@[i]),
{
    format!("{:x}", md5::compute(text))
}

pub fn source_kind_str(from: PluginSource) -> (r: &'static str)
    ensures
        r@ == source_kind_name(from),
{
    match from {
        PluginSource::Git => {
            proof { reveal_strlit("Git"); }
            "Git"
        },
        PluginSource::Url => {
            proof { reveal_strlit("Url"); }
            "Url"
        },
        PluginSource::Local => {
            proof { reveal_strlit("Local"); }
            "Local"
        },
    }
}

impl Plugin {
    /// The content hash that names the plugin's directory and its entry in
    /// the state file.
    pub open spec fn spec_id(&self) -> Seq<char> {
        plugin_id(self.from, self.name@, self.build@)
    }

    pub fn id(&self) -> (r: String)
        ensures
            r@ == self.spec_id(),
            r@.len() == 32,
            forall|i: int| 0 <= i < r@.len() ==> is_lower_hex_digit(#[trigger] r@[i]),
    {
        let mut text = String::from_str(source_kind_str(self.from));
        proof { reveal_strlit(":"); }
        text.append(":");
        text.append(self.name.as_str());
        text.append(":");
        text.append(self.build.as_str());
        proof {
            assert(text@ =~= id_text(self.from, self.name@, self.build@));
        }
        md5_hex(text.as_str())
    }
}

/// The load patterns of a plugin that names none: its whole directory.
pub fn default_load_patterns() -> (r: Vec<String>)
    ensures
        r@.len() == 1,
        r@[0]@ == seq!['.'],
{
    let mut r: Vec<String> = Vec::new();
    proof { reveal_strlit("."); }
    r.push(String::from_str("."));
    r
}

} // verus!
