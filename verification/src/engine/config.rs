//! The user's configuration.
use vstd::prelude::*;
use crate::utils::paths::{home_dir, join, join_of};
use crate::utils::text::{opt_str, strings_view};

verus! {

/// The settings read from `~/.config/scrub/config.toml`.
#[derive(Debug, Clone)]
pub struct Config {
    pub trash: bool,
    pub parallel: bool,
    pub max_threads: usize,
    pub project_roots: Vec<String>,
}

/// Whether deletion goes to the Trash when the file does not say.
pub fn default_trash() -> (r: bool)
    ensures
        r,
{
    true
}

/// Whether scanning runs in parallel when the file does not say.
pub fn default_parallel() -> (r: bool)
    ensures
        r,
{
    true
}

/// The number of scanning threads when the file does not say.
pub fn default_max_threads() -> (r: usize)
    ensures
        r == 8,
{
    8
}

/// The directories searched for projects when the file does not say.
pub open spec fn default_roots() -> Seq<Seq<char>> {
    seq!["~/Projects"@, "~/Code"@, "~/Developer"@]
}

/// The directories searched for projects when the file does not say.
pub fn default_project_roots() -> (r: Vec<String>)
    ensures
        strings_view(r@) == default_roots(),
{
    let r = vec![
        String::from_str("~/Projects"),
        String::from_str("~/Code"),
        String::from_str("~/Developer"),
    ];
    assert(strings_view(r@) =~= default_roots());
    r
}

/// The configuration used when the file is missing or cannot be parsed.
pub open spec fn is_default(c: Config) -> bool {
    &&& c.trash
    &&& c.parallel
    &&& c.max_threads == 8
    &&& strings_view(c.project_roots@) == default_roots()
}

impl Default for Config {
    fn default() -> (r: Self)
        ensures
            is_default(r),
    {
        Self {
            trash: true,
            parallel: true,
            max_threads: 8,
            project_roots: default_project_roots(),
        }
    }
}

/// What reading the configuration file gave.
#[derive(Debug)]
pub enum ConfigRead {
    /// The file could not be read.
    Unreadable,
    /// The file was read but is not a valid configuration.
    Invalid,
    /// The file was read and parsed.
    Parsed(Config),
}

/// The configuration to use after reading the file, and whether the default
/// configuration is to be written out.
pub struct ConfigLoad {
    pub config: Config,
    pub write_default: bool,
}

/// Location of the configuration file below a home directory.
pub open spec fn config_path_of(home: Option<Seq<char>>) -> Seq<char> {
    match home {
        Some(h) => join_of(h, ".config/scrub/config.toml"@),
        None => ".config/scrub/config.toml"@,
    }
}

impl Config {
    /// The configuration a read of the file gives: what it parsed to, or the
    /// default; the default is written out only when the file could not be
    /// read at all.
    pub fn from_read(read: ConfigRead) -> (r: ConfigLoad)
        ensures
            match read {
                ConfigRead::Parsed(c) => r.config == c && !r.write_default,
                ConfigRead::Invalid => is_default(r.config) && !r.write_default,
                ConfigRead::Unreadable => is_default(r.config) && r.write_default,
            },
    {
        match read {
            ConfigRead::Parsed(c) => ConfigLoad { config: c, write_default: false },
            ConfigRead::Invalid => ConfigLoad { config: Config::default(), write_default: false },
            ConfigRead::Unreadable => ConfigLoad { config: Config::default(), write_default: true },
        }
    }

    /// Where the configuration file is, given the home directory.
    pub fn path_for(home: Option<&str>) -> (r: String)
        ensures
            r@ == config_path_of(opt_str(home)),
    {
        match home {
            Some(h) => join(h, ".config/scrub/config.toml"),
            None => String::from_str(".config/scrub/config.toml"),
        }
    }

    /// Where the configuration file of the current user is.
    pub fn path() -> (r: String)
        ensures
            exists|home: Option<Seq<char>>| r@ == config_path_of(home),
    {
        match home_dir() {
            Some(h) => {
                let r = Config::path_for(Some(h.as_str()));
                assert(r@ == config_path_of(Some(h@)));
                r
            },
            None => {
                let r = Config::path_for(None);
                assert(r@ == config_path_of(None));
                r
            },
        }
    }
}

} // verus!
