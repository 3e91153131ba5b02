//! The editor extension: which language-server binary fits the host, where it
//! is cached, and the settings it is started with.
use vstd::prelude::*;

use crate::client::{default_base_url, default_base_url_string};
use crate::text::str_equal;

verus! {

/// The host operating system.
#[derive(PartialEq, Eq, Structural, Clone, Copy, Debug)]
pub enum Os {
    Mac,
    Linux,
    Windows,
}

/// The host processor architecture.
#[derive(PartialEq, Eq, Structural, Clone, Copy, Debug)]
pub enum Architecture {
    Aarch64,
    X8664,
    X86,
}

pub open spec fn arch_name(arch: Architecture) -> Seq<char> {
    match arch {
        Architecture::Aarch64 => "aarch64"@,
        Architecture::X8664 => "x86_64"@,
        Architecture::X86 => "x86"@,
    }
}

pub open spec fn os_target(os: Os) -> Seq<char> {
    match os {
        Os::Mac => "apple-darwin"@,
        Os::Linux => "unknown-linux-gnu"@,
        Os::Windows => "pc-windows-msvc"@,
    }
}

/// The target triple of a host, such as `x86_64-unknown-linux-gnu`.
pub open spec fn target_triple_of(os: Os, arch: Architecture) -> Seq<char> {
    arch_name(arch) + "-"@ + os_target(os)
}

/// The name of the release asset built for a host.
pub open spec fn asset_name_of(os: Os, arch: Architecture) -> Seq<char> {
    "codetrackr-ls-"@ + target_triple_of(os, arch)
}

/// The file name the language server is saved under on a host.
pub open spec fn binary_name_of(os: Os) -> Seq<char> {
    match os {
        Os::Windows => "codetrackr-ls.exe"@,
        _ => "codetrackr-ls"@,
    }
}

/// The value of the first entry of `env` named `key`, if there is one.
pub open spec fn first_value(env: Seq<(String, String)>, key: Seq<char>) -> Option<Seq<char>>
    decreases env.len(),
{
    if env.len() == 0 {
        None
    } else if env[0].0@ == key {
        Some(env[0].1@)
    } else {
        first_value(env.drop_first(), key)
    }
}

/// A variable of the shell environment: the value of the first entry named
/// `key`, unless that value is empty.
pub open spec fn env_value(env: Seq<(String, String)>, key: Seq<char>) -> Option<Seq<char>> {
    match first_value(env, key) {
        Some(v) => if v.len() > 0 {
            Some(v)
        } else {
            None
        },
        None => None,
    }
}

/// The target triple of a host, such as `x86_64-unknown-linux-gnu`.
pub fn target_triple(os: Os, arch: Architecture) -> (t: String)
    ensures
        t@ == target_triple_of(os, arch),
{
    let mut t = match arch {
        Architecture::Aarch64 => "aarch64".to_owned(),
        Architecture::X8664 => "x86_64".to_owned(),
        Architecture::X86 => "x86".to_owned(),
    };
    t.append("-");
    match os {
        Os::Mac => t.append("apple-darwin"),
        Os::Linux => t.append("unknown-linux-gnu"),
        Os::Windows => t.append("pc-windows-msvc"),
    }
    t
}

/// The name of the release asset built for a host.
pub fn asset_name(os: Os, arch: Architecture) -> (n: String)
    ensures
        n@ == asset_name_of(os, arch),
{
    let triple = target_triple(os, arch);
    let mut n = "codetrackr-ls-".to_owned();
    n.append(triple.as_str());
    n
}

/// The file name the language server is saved under on a host.
pub fn binary_name(os: Os) -> (n: String)
    ensures
        n@ == binary_name_of(os),
{
    match os {
        Os::Windows => "codetrackr-ls.exe".to_owned(),
        _ => "codetrackr-ls".to_owned(),
    }
}

/// The index of the first asset whose name is `wanted`.
pub fn find_asset(names: &[String], wanted: &str) -> (i: Option<usize>)
    ensures
        match i {
            Some(i) => i < names@.len() && names@[i as int]@ == wanted@ && forall|j: int|
                0 <= j < i ==> (#[trigger] names@[j])@ != wanted@,
            None => forall|j: int| 0 <= j < names@.len() ==> (#[trigger] names@[j])@ != wanted@,
        },
{
    let mut i: usize = 0;
    while i < names.len()
        invariant
            i <= names@.len(),
            forall|j: int| 0 <= j < i ==> (#[trigger] names@[j])@ != wanted@,
        decreases names@.len() - i,
    {
        if str_equal(names[i].as_str(), wanted) {
            return Some(i);
        }
        i = i + 1;
    }
    None
}

/// A variable of the shell environment: the value of the first entry named
/// `key`, unless that value is empty.
pub fn get_env(env: &[(String, String)], key: &str) -> (v: Option<String>)
    ensures
        match v {
            Some(s) => env_value(env@, key@) == Some(s@),
            None => env_value(env@, key@) is None,
        },
{
    let mut i: usize = 0;
    assert(env@.skip(0) == env@);
    while i < env.len()
        invariant
            i <= env@.len(),
            first_value(env@, key@) == first_value(env@.skip(i as int), key@),
        decreases env@.len() - i,
    {
        assert(env@.skip(i as int).drop_first() == env@.skip(i + 1));
        assert(env@.skip(i as int)[0] == env@[i as int]);
        if str_equal(env[i].0.as_str(), key) {
            if env[i].1.as_str().is_empty() {
                return None;
            }
            return Some(env[i].1.clone());
        }
        i = i + 1;
    }
    assert(env@.skip(i as int).len() == 0);
    None
}

/// The settings the language server is started with.
pub struct ServerSettings {
    pub api_key: String,
    pub base_url: String,
}

impl ServerSettings {
    /// Settings from the worktree's shell environment: `CODETRACKR_API_KEY`
    /// (empty when unset) and `CODETRACKR_BASE_URL` (the default server when unset).
    pub fn from_shell_env(env: &[(String, String)]) -> (s: ServerSettings)
        ensures
            s.api_key@ == (match env_value(env@, "CODETRACKR_API_KEY"@) {
                Some(k) => k,
                None => Seq::<char>::empty(),
            }),
            s.base_url@ == (match env_value(env@, "CODETRACKR_BASE_URL"@) {
                Some(u) => u,
                None => default_base_url(),
            }),
    {
        let api_key = match get_env(env, "CODETRACKR_API_KEY") {
            Some(k) => k,
            None => String::new(),
        };
        let base_url = match get_env(env, "CODETRACKR_BASE_URL") {
            Some(u) => u,
            None => default_base_url_string(),
        };
        ServerSettings { api_key, base_url }
    }
}

/// How to start the language server.
pub struct ServerCommand {
    pub command: String,
    pub args: Vec<String>,
    pub env: Vec<(String, String)>,
}

/// The command that starts the binary at `path` with `settings` passed on in
/// its environment.
pub fn server_command(path: String, settings: ServerSettings) -> (c: ServerCommand)
    ensures
        c.command@ == path@,
        c.args@.len() == 0,
        c.env@.len() == 2,
        c.env@[0].0@ == "CODETRACKR_API_KEY"@,
        c.env@[0].1@ == settings.api_key@,
        c.env@[1].0@ == "CODETRACKR_BASE_URL"@,
        c.env@[1].1@ == settings.base_url@,
{
    let mut env: Vec<(String, String)> = Vec::new();
    env.push(("CODETRACKR_API_KEY".to_owned(), settings.api_key));
    env.push(("CODETRACKR_BASE_URL".to_owned(), settings.base_url));
    ServerCommand { command: path, args: Vec::new(), env }
}

/// The extension's state: where the language server was installed, once known.
pub struct CodeTrackrExtension {
    pub cached_binary_path: Option<String>,
}

impl CodeTrackrExtension {
    pub fn new() -> (e: CodeTrackrExtension)
        ensures
            e.cached_binary_path is None,
    {
        CodeTrackrExtension { cached_binary_path: None }
    }

    /// The next step towards a binary to start: the one installed earlier if
    /// there is one, else a search of the PATH.
    pub open spec fn next_step(self) -> BinaryStep {
        match self.cached_binary_path {
            Some(p) => BinaryStep::Use(p),
            None => BinaryStep::SearchPath,
        }
    }

    /// The extension after an attempt to install the binary: a path found or
    /// downloaded is kept for later starts; a failure keeps nothing.
    pub open spec fn after_install(self, outcome: Result<String, String>) -> Self {
        match outcome {
            Ok(p) => CodeTrackrExtension { cached_binary_path: Some(p) },
            Err(_) => self,
        }
    }

    /// The first step towards the binary (see `next_step`).
    pub fn first_step(&self) -> (s: BinaryStep)
        ensures
            s == self.next_step(),
    {
        match &self.cached_binary_path {
            Some(p) => BinaryStep::Use(p.clone()),
            None => BinaryStep::SearchPath,
        }
    }

    /// The step after searching the PATH: a binary found there is used as it
    /// is, otherwise the release is downloaded.
    pub fn after_path_search(found: Option<String>) -> (s: BinaryStep)
        ensures
            match found {
                Some(p) => s == BinaryStep::Use(p),
                None => s == BinaryStep::Download,
            },
    {
        match found {
            Some(p) => BinaryStep::Use(p),
            None => BinaryStep::Download,
        }
    }

    /// Takes the outcome of installing the binary (found on the PATH or
    /// downloaded, or the error that stopped it) and hands it back, keeping a
    /// found path for later starts (see `after_install`).
    pub fn finish_install(&mut self, outcome: Result<String, String>) -> (r: Result<String, String>)
        ensures
            *final(self) == old(self).after_install(outcome),
            r == outcome,
    {
        match outcome {
            Ok(p) => {
                self.cached_binary_path = Some(p.clone());
                Ok(p)
            },
            Err(e) => Err(e),
        }
    }
}

/// Where the path of the language server binary comes from next.
pub enum BinaryStep {
    /// Start the binary at this path.
    Use(String),
    /// Look for `codetrackr-ls` on the user's PATH.
    SearchPath,
    /// Download the release asset for the host.
    Download,
}

/// A fresh extension has no binary yet, so it starts by searching the PATH.
pub proof fn lemma_fresh_extension_searches_path()
    ensures
        (CodeTrackrExtension { cached_binary_path: None }).next_step() == BinaryStep::SearchPath,
{
}

/// Once a binary is installed, every later start uses that path and installs
/// nothing.
pub proof fn lemma_installed_binary_is_reused(e: CodeTrackrExtension, path: String)
    ensures
        e.after_install(Ok(path)).next_step() == BinaryStep::Use(path),
{
}

/// A failed install changes nothing: the next start tries again from the same
/// step.
pub proof fn lemma_failed_install_keeps_nothing(e: CodeTrackrExtension, error: String)
    ensures
        e.after_install(Err(error)) == e,
        e.after_install(Err(error)).next_step() == e.next_step(),
{
}

/// The release asset for a host is named `codetrackr-ls-`, then the
/// architecture (`aarch64`, `x86_64` or `x86`), `-` and the operating system
/// target (`apple-darwin`, `unknown-linux-gnu` or `pc-windows-msvc`), with
/// nothing after it; the target triple is that name without its prefix.
pub proof fn lemma_asset_names(os: Os, arch: Architecture)
    ensures
        target_triple_of(os, arch) == (match arch {
            Architecture::Aarch64 => "aarch64"@,
            Architecture::X8664 => "x86_64"@,
            Architecture::X86 => "x86"@,
        }) + "-"@ + (match os {
            Os::Mac => "apple-darwin"@,
            Os::Linux => "unknown-linux-gnu"@,
            Os::Windows => "pc-windows-msvc"@,
        }),
        asset_name_of(os, arch) == "codetrackr-ls-"@ + (match arch {
            Architecture::Aarch64 => "aarch64"@,
            Architecture::X8664 => "x86_64"@,
            Architecture::X86 => "x86"@,
        }) + "-"@ + (match os {
            Os::Mac => "apple-darwin"@,
            Os::Linux => "unknown-linux-gnu"@,
            Os::Windows => "pc-windows-msvc"@,
        }),
        asset_name_of(Os::Windows, Architecture::X8664) == "codetrackr-ls-x86_64-pc-windows-msvc"@,
        asset_name_of(Os::Linux, Architecture::X8664) == "codetrackr-ls-x86_64-unknown-linux-gnu"@,
        asset_name_of(Os::Mac, Architecture::Aarch64) == "codetrackr-ls-aarch64-apple-darwin"@,
{
    broadcast use vstd::string::group_string_axioms;

    reveal_strlit("codetrackr-ls-");
    reveal_strlit("-");
    reveal_strlit("x86_64");
    reveal_strlit("aarch64");
    reveal_strlit("pc-windows-msvc");
    reveal_strlit("unknown-linux-gnu");
    reveal_strlit("apple-darwin");
    reveal_strlit("codetrackr-ls-x86_64-pc-windows-msvc");
    reveal_strlit("codetrackr-ls-x86_64-unknown-linux-gnu");
    reveal_strlit("codetrackr-ls-aarch64-apple-darwin");
    assert(asset_name_of(Os::Windows, Architecture::X8664) =~= "codetrackr-ls-x86_64-pc-windows-msvc"@);
    assert(asset_name_of(Os::Linux, Architecture::X8664) =~= "codetrackr-ls-x86_64-unknown-linux-gnu"@);
    assert(asset_name_of(Os::Mac, Architecture::Aarch64) =~= "codetrackr-ls-aarch64-apple-darwin"@);
}

/// A shell variable set to the empty string counts as unset.
pub proof fn lemma_env_value_never_empty(env: Seq<(String, String)>, key: Seq<char>)
    ensures
        env_value(env, key) matches Some(v) ==> v.len() > 0,
{
}

/// The language server is always started with a non-empty base URL.
pub proof fn lemma_settings_base_url_nonempty(env: Seq<(String, String)>)
    ensures
        (match env_value(env, "CODETRACKR_BASE_URL"@) {
            Some(u) => u,
            None => default_base_url(),
        }).len() > 0,
{
    reveal_strlit("https://codetrackr.fly.dev");
}

} // verus!
