//! Configuration records, their defaults, validation, and where the state
//! file lives.

use vstd::prelude::*;

use crate::text::{is_blank, trim};

verus! {

/// The whole configuration file.
#[derive(Debug, Clone)]
pub struct Config {
    pub github: GitHubConfig,
    pub ntfy: NtfyConfig,
    pub app: AppConfig,
    pub filters: FiltersConfig,
    pub actions: ActionsConfig,
    pub auto_watch: AutoWatchConfig,
}

/// The `[github]` table.
#[derive(Debug, Clone)]
pub struct GitHubConfig {
    pub token: Option<String>,
    pub api_base: String,
    pub participating: bool,
    pub per_page: u32,
    pub enrich_pull_requests: bool,
    pub enrich_issues: bool,
    pub timeout_secs: u64,
}

/// The `[ntfy]` table.
#[derive(Debug, Clone)]
pub struct NtfyConfig {
    pub publish_url: String,
    pub token: Option<String>,
    pub timeout_secs: u64,
}

/// The `[app]` table.
#[derive(Debug, Clone)]
pub struct AppConfig {
    pub poll_interval_secs: u64,
    pub max_seen: usize,
    pub log_level: String,
    pub state_path: Option<String>,
}

/// The `[filters]` table.
#[derive(Debug, Clone)]
pub struct FiltersConfig {
    pub block: Vec<BlockRule>,
}

/// One `[[filters.block]]` rule; every field that is set must match.
#[derive(Debug, Clone)]
pub struct BlockRule {
    pub name: Option<String>,
    pub repo: Option<String>,
    pub owner: Option<String>,
    pub title: Option<String>,
    pub actor: Option<String>,
    pub actor_is_bot: Option<bool>,
    pub reason: Option<String>,
    pub subject_type: Option<String>,
    pub activity: Option<String>,
}

/// The `[actions]` table: the `Done`, `Read` and `Mute` callback buttons.
#[derive(Debug, Clone)]
pub struct ActionsConfig {
    pub enabled: bool,
    pub listen_addr: String,
    pub public_base_url: String,
    pub token: String,
}

/// The `[auto_watch]` table: which repositories get subscribed to.
#[derive(Debug, Clone)]
pub struct AutoWatchConfig {
    pub enabled: bool,
    pub included: Vec<String>,
    pub exclude: Vec<String>,
}

/// A configuration together with the paths it came from and that state goes to.
#[derive(Debug, Clone)]
pub struct LoadedConfig {
    pub config: Config,
    pub config_path: String,
    pub state_path: String,
}

impl Default for BlockRule {
    fn default() -> (r: Self)
        ensures
            r.name is None && r.repo is None && r.owner is None && r.title is None && r.actor is None
                && r.actor_is_bot is None && r.reason is None && r.subject_type is None
                && r.activity is None,
    {
        BlockRule {
            name: None,
            repo: None,
            owner: None,
            title: None,
            actor: None,
            actor_is_bot: None,
            reason: None,
            subject_type: None,
            activity: None,
        }
    }
}

impl Default for FiltersConfig {
    fn default() -> (r: Self)
        ensures
            r.block@.len() == 0,
    {
        FiltersConfig { block: Vec::new() }
    }
}

impl Default for AppConfig {
    fn default() -> (r: Self)
        ensures
            r.poll_interval_secs == 60,
            r.max_seen == 2000,
            r.log_level@ == "info"@,
            r.state_path is None,
    {
        AppConfig {
            poll_interval_secs: default_poll_interval_secs(),
            max_seen: default_max_seen(),
            log_level: default_log_level(),
            state_path: None,
        }
    }
}

impl Default for ActionsConfig {
    fn default() -> (r: Self)
        ensures
            !r.enabled,
            r.listen_addr@ == "127.0.0.1:8787"@,
            r.public_base_url@ == Seq::<char>::empty(),
            r.token@ == Seq::<char>::empty(),
    {
        ActionsConfig {
            enabled: false,
            listen_addr: String::from_str("127.0.0.1:8787"),
            public_base_url: String::new(),
            token: String::new(),
        }
    }
}

impl Default for AutoWatchConfig {
    fn default() -> (r: Self)
        ensures
            !r.enabled,
            r.included@.len() == 1,
            r.included@[0]@ == "*/*"@,
            r.exclude@.len() == 0,
    {
        let mut included = Vec::new();
        included.push(String::from_str("*/*"));
        AutoWatchConfig { enabled: false, included, exclude: Vec::new() }
    }
}

/// The GitHub API address used when none is configured.
pub fn default_api_base() -> (r: String)
    ensures
        r@ == "https://api.github.com"@,
{
    String::from_str("https://api.github.com")
}

/// The notifications page size used when none is configured.
pub fn default_per_page() -> (r: u32)
    ensures
        r == 100,
{
    100
}

/// The value of switches that are on unless configured off.
pub fn default_true() -> (r: bool)
    ensures
        r,
{
    true
}

/// The HTTP timeout used when none is configured.
pub fn default_timeout_secs() -> (r: u64)
    ensures
        r == 5,
{
    5
}

/// The poll interval used when none is configured.
pub fn default_poll_interval_secs() -> (r: u64)
    ensures
        r == 60,
{
    60
}

/// How many keys and notifications are remembered when not configured.
pub fn default_max_seen() -> (r: usize)
    ensures
        r == 2000,
{
    2000
}

/// The log level used when none is configured.
pub fn default_log_level() -> (r: String)
    ensures
        r@ == "info"@,
{
    String::from_str("info")
}

/// Why a configuration is refused, if it is: the first rule it breaks.
pub open spec fn config_problem(c: Config) -> Option<Seq<char>> {
    if is_blank(c.ntfy.publish_url@) {
        Some("ntfy.publish_url must not be empty"@)
    } else if c.github.per_page == 0 || c.github.per_page > 100 {
        Some("github.per_page must be between 1 and 100"@)
    } else if c.app.poll_interval_secs == 0 {
        Some("app.poll_interval_secs must be greater than zero"@)
    } else if c.app.max_seen == 0 {
        Some("app.max_seen must be greater than zero"@)
    } else {
        None
    }
}

/// Checks a configuration: `Ok` exactly when it breaks no rule, else the
/// message of the first rule it breaks.
pub fn validate(config: &Config) -> (r: Result<(), String>)
    ensures
        r is Ok == (config_problem(*config) is None),
        r matches Err(m) ==> config_problem(*config) == Some(m@),
{
    if trim(config.ntfy.publish_url.as_str()).is_empty() {
        return Err(String::from_str("ntfy.publish_url must not be empty"));
    }
    if config.github.per_page == 0 || config.github.per_page > 100 {
        return Err(String::from_str("github.per_page must be between 1 and 100"));
    }
    if config.app.poll_interval_secs == 0 {
        return Err(String::from_str("app.poll_interval_secs must be greater than zero"));
    }
    if config.app.max_seen == 0 {
        return Err(String::from_str("app.max_seen must be greater than zero"));
    }
    Ok(())
}

/// What `Path::join` gives for a base path and a further component, as text.
pub uninterp spec fn path_join_of(base: Seq<char>, name: Seq<char>) -> Seq<char>;

/// `std::path::Path::join`, on paths held as text.  The result is named
/// `path_join_of` of the arguments; the contract says nothing more of it.
#[verifier::external_body]
fn path_join(base: &str, name: &str) -> (r: String)
    ensures
        r@ == path_join_of(base@, name@),
{
    std::path::Path::new(base).join(name).to_string_lossy().into_owned()
}

/// The platform directories of a program, as text, with the names they were
/// looked up by.
pub struct AppDirs {
    /// The qualifier, organization and application name of the lookup.
    pub names: Ghost<(Seq<char>, Seq<char>, Seq<char>)>,
    /// The configuration directory.
    pub config_dir: String,
    /// The state directory, on platforms that have one.
    pub state_dir: Option<String>,
}

/// `directories::ProjectDirs::from`, with the directories it found
/// (`config_dir`, `state_dir`) taken as text.  Whether the lookup succeeds,
/// and where the directories are, depends on the environment (the home
/// directory and the XDG variables), so of the result only the names it was
/// looked up by are stated.
#[verifier::external_body]
fn project_dirs_from(qualifier: &str, organization: &str, application: &str) -> (r: Option<AppDirs>)
    ensures
        r matches Some(d) ==> d.names@ == (qualifier@, organization@, application@),
{
    let dirs = directories::ProjectDirs::from(qualifier, organization, application)?;
    let state_dir = match dirs.state_dir() {
        Some(p) => Some(p.to_string_lossy().into_owned()),
        None => None,
    };
    Some(AppDirs {
        names: Ghost((qualifier@, organization@, application@)),
        config_dir: dirs.config_dir().to_string_lossy().into_owned(),
        state_dir,
    })
}

/// The names this program's platform directories are looked up by.
pub open spec fn app_names() -> (Seq<char>, Seq<char>, Seq<char>) {
    ("dev"@, "github-ntfy"@, "github-ntfy-agent"@)
}

/// The platform directories of this program, looked up by [`app_names`].
fn project_dirs() -> (r: Result<AppDirs, String>)
    ensures
        r matches Ok(d) ==> d.names@ == app_names(),
        r matches Err(m) ==> m@ == "failed to resolve platform config directories"@,
{
    match project_dirs_from("dev", "github-ntfy", "github-ntfy-agent") {
        Some(d) => Ok(d),
        None => Err(String::from_str("failed to resolve platform config directories")),
    }
}

/// Where the configuration file is looked for when no path is given:
/// `config.toml` in the configuration directory of this program's platform
/// directories.  Whether they are found depends on the environment.
pub fn default_config_path() -> (r: Result<String, String>)
    ensures
        r matches Ok(p) ==> exists|d: AppDirs|
            d.names@ == app_names() && p@ == path_join_of(d.config_dir@, "config.toml"@),
        r matches Err(m) ==> m@ == "failed to resolve platform config directories"@,
{
    let dirs = project_dirs()?;
    let p = path_join(dirs.config_dir.as_str(), "config.toml");
    proof {
        assert(dirs.names@ == app_names() && p@ == path_join_of(dirs.config_dir@, "config.toml"@));
    }
    Ok(p)
}

/// The state file in a program's platform directories: `state.json` in the
/// state directory; an error on platforms without one.
pub fn state_file_in(dirs: &AppDirs) -> (r: Result<String, String>)
    ensures
        dirs.state_dir matches Some(d) ==> (r matches Ok(p) && p@ == path_join_of(d@, "state.json"@)),
        dirs.state_dir is None ==> (r matches Err(m) && m@ == "failed to resolve platform state directory"@),
{
    match &dirs.state_dir {
        Some(dir) => Ok(path_join(dir.as_str(), "state.json")),
        None => Err(String::from_str("failed to resolve platform state directory")),
    }
}

/// Where the state file lives: the configured path; else the state file in
/// this program's platform directories (see [`state_file_in`]).  Where the
/// configuration file itself lies does not matter.
pub fn resolve_state_path(config: &Config, _config_path: &str) -> (r: Result<String, String>)
    ensures
        config.app.state_path matches Some(p) ==> r == Ok::<String, String>(p),
        config.app.state_path is None ==> (match r {
            Ok(p) => exists|d: AppDirs|
                d.names@ == app_names() && d.state_dir is Some && p@ == path_join_of(
                    d.state_dir->0@,
                    "state.json"@,
                ),
            Err(m) => m@ == "failed to resolve platform config directories"@ || exists|d: AppDirs|
                d.names@ == app_names() && d.state_dir is None && m@
                    == "failed to resolve platform state directory"@,
        }),
{
    if let Some(p) = &config.app.state_path {
        return Ok(p.clone());
    }
    let dirs = project_dirs()?;
    let r = state_file_in(&dirs);
    proof {
        assert(r is Ok ==> (dirs.state_dir is Some && r->Ok_0@ == path_join_of(
            dirs.state_dir->0@,
            "state.json"@,
        )));
        assert(r is Err ==> (dirs.state_dir is None && r->Err_0@ == "failed to resolve platform state directory"@));
    }
    r
}

} // verus!
