//! The daemon's configuration: the settings of this computer and of each
//! profile, with the defaults that apply where a setting is left out.
use vstd::prelude::*;

use crate::text::{copy_string, opt_string_view, string_eq};

verus! {

/// The profile used when the configuration names none.
pub open spec fn default_profile_word() -> Seq<char> {
    seq!['d', 'e', 'f', 'a', 'u', 'l', 't']
}

/// Settings of this computer.
#[derive(Clone, Debug)]
pub struct CoreConfig {
    /// Name of this computer.
    pub computer_name: String,
    /// Profile used by default when none is specified.
    pub default_profile_name: Option<String>,
}

impl CoreConfig {
    /// The configured default profile, or `"default"` when none is set.
    pub fn get_default_profile_name(&self) -> (r: String)
        ensures
            r@ == match self.default_profile_name {
                Some(name) => name@,
                None => default_profile_word(),
            },
    {
        match &self.default_profile_name {
            Some(name) => copy_string(name),
            None => {
                proof {
                    reveal_strlit("default");
                }
                String::from_str("default")
            },
        }
    }
}

/// Settings of one profile. The settings that other parts of the
/// configuration file hold for the storage are not read here.
#[derive(Clone, Debug)]
pub struct ProfileConfig {
    /// D-Bus connection name (default: `org.o324.Service`).
    pub dbus_connection_name: Option<String>,
    /// D-Bus object path (default: `/org/o324/Service`).
    pub dbus_service_path: Option<String>,
    /// Where the database lives (default: `~/.local/share/o324`).
    pub storage_location: Option<String>,
}

/// `r` is a result that tilde expansion may give for `path`: a path that
/// starts with `~` alone or `~/` has its tilde replaced by the home directory
/// (or is left as it is when no home directory is known), so what follows the
/// tilde ends the result; any other path is left as it is.
pub open spec fn tilde_expansion(path: Seq<char>, r: Seq<char>) -> bool {
    if path.len() > 0 && path[0] == '~' && (path.len() == 1 || path[1] == '/') {
        let rest = path.skip(1);
        r.len() >= rest.len() && r.skip(r.len() - rest.len()) == rest
    } else {
        r == path
    }
}

/// The result of tilde expansion of `path` with the home directory `home`: a
/// path that starts with `~` alone or `~/` has its tilde replaced by the home
/// directory, or is left as it is when no home directory is known; any other
/// path is left as it is.
pub open spec fn tilde_expanded(path: Seq<char>, home: Option<Seq<char>>) -> Seq<char> {
    if path.len() > 0 && path[0] == '~' && (path.len() == 1 || path[1] == '/') {
        match home {
            Some(h) => h + path.skip(1),
            None => path,
        }
    } else {
        path
    }
}

/// An expansion with any home directory is a result that tilde expansion may give.
proof fn lemma_tilde_expanded_is_an_expansion(path: Seq<char>, home: Option<Seq<char>>)
    ensures
        tilde_expansion(path, tilde_expanded(path, home)),
{
    if path.len() > 0 && path[0] == '~' && (path.len() == 1 || path[1] == '/') {
        if let Some(h) = home {
            let r = h + path.skip(1);
            assert(r.skip(r.len() - path.skip(1).len()) =~= path.skip(1));
        } else {
            assert(path.skip(path.len() - path.skip(1).len()) =~= path.skip(1));
        }
    }
}

/// `shellexpand::tilde_with_context` with the home directory `home` handed
/// in: on Unix, a path that starts with `~` alone or `~/` has the tilde
/// replaced by `home`, or is returned unchanged when `home` is `None`; any
/// other path (`~user/..` among them) is returned unchanged.
#[verifier::external_body]
fn expand_tilde_with(path: &str, home: Option<String>) -> (r: String)
    ensures
        r@ == tilde_expanded(path@, opt_string_view(home)),
{
    shellexpand::tilde_with_context(path, move || home).into_owned()
}

/// The user's home directory, as `directories_next::BaseDirs` finds it (on
/// Linux `$HOME` when set and not empty, else the password database; the
/// same rule `shellexpand::tilde` follows through `dirs::home_dir`); none
/// when it is unknown or not valid Unicode. It comes from the environment,
/// so nothing is stated of it.
#[verifier::external_body]
fn home_directory() -> Option<String> {
    directories_next::BaseDirs::new().and_then(|d| d.home_dir().to_str().map(|s| s.to_string()))
}

/// The storage location used when a profile sets none.
pub open spec fn default_storage_location() -> Seq<char> {
    seq!['~', '/', '.', 'l', 'o', 'c', 'a', 'l', '/', 's', 'h', 'a', 'r', 'e', '/', 'o', '3', '2', '4']
}

/// The D-Bus object path used when a profile sets none.
pub open spec fn default_dbus_service_path() -> Seq<char> {
    seq!['/', 'o', 'r', 'g', '/', 'o', '3', '2', '4', '/', 'S', 'e', 'r', 'v', 'i', 'c', 'e']
}

/// The D-Bus connection name used when a profile sets none.
pub open spec fn default_dbus_connection_name() -> Seq<char> {
    seq!['o', 'r', 'g', '.', 'o', '3', '2', '4', '.', 'S', 'e', 'r', 'v', 'i', 'c', 'e']
}

/// The configured value, or the default when none is set.
pub open spec fn or_default(o: Option<String>, default: Seq<char>) -> Seq<char> {
    match o {
        Some(s) => s@,
        None => default,
    }
}

impl ProfileConfig {
    /// The storage location of this profile, its leading tilde replaced by
    /// the home directory `home` (left as it is when `home` is `None`).
    pub fn storage_location_in(&self, home: Option<String>) -> (r: String)
        ensures
            r@ == tilde_expanded(
                or_default(self.storage_location, default_storage_location()),
                opt_string_view(home),
            ),
    {
        match &self.storage_location {
            Some(location) => expand_tilde_with(location.as_str(), home),
            None => {
                proof {
                    reveal_strlit("~/.local/share/o324");
                    assert("~/.local/share/o324"@ =~= default_storage_location());
                }
                expand_tilde_with("~/.local/share/o324", home)
            },
        }
    }

    /// The storage location of this profile, its leading tilde replaced by
    /// the user's home directory as the environment gives it.
    pub fn get_storage_location(&self) -> (r: String)
        ensures
            exists|home: Option<Seq<char>>|
                r@ == tilde_expanded(or_default(self.storage_location, default_storage_location()), home),
            tilde_expansion(or_default(self.storage_location, default_storage_location()), r@),
    {
        let home = home_directory();
        let ghost h = opt_string_view(home);
        let r = self.storage_location_in(home);
        proof {
            lemma_tilde_expanded_is_an_expansion(
                or_default(self.storage_location, default_storage_location()),
                h,
            );
        }
        r
    }

    /// The D-Bus object path of this profile.
    pub fn get_dbus_service_path(&self) -> (r: String)
        ensures
            r@ == or_default(self.dbus_service_path, default_dbus_service_path()),
    {
        match &self.dbus_service_path {
            Some(path) => copy_string(path),
            None => {
                proof {
                    reveal_strlit("/org/o324/Service");
                }
                String::from_str("/org/o324/Service")
            },
        }
    }

    /// The D-Bus connection name of this profile.
    pub fn get_dbus_connection_name(&self) -> (r: String)
        ensures
            r@ == or_default(self.dbus_connection_name, default_dbus_connection_name()),
    {
        match &self.dbus_connection_name {
            Some(name) => copy_string(name),
            None => {
                proof {
                    reveal_strlit("org.o324.Service");
                }
                String::from_str("org.o324.Service")
            },
        }
    }
}

/// The whole configuration: this computer's settings and the profiles by name.
#[derive(Clone, Debug)]
pub struct ConfigInner {
    pub core: CoreConfig,
    pub profile: Vec<(String, ProfileConfig)>,
}

/// A loaded configuration.
#[derive(Clone, Debug)]
pub struct Config(pub ConfigInner);

/// Why a configuration could not be used.
#[derive(Clone, Debug)]
pub enum ConfigError {
    /// The profile to use is not in the configuration.
    ProfileNotFound(String),
    /// No configuration path was given and the platform's directories are unknown.
    ProjectDirsNotFound,
}

impl ConfigError {
    /// The error's message.
    pub fn message(&self) -> (r: String)
        ensures
            r@ == match *self {
                ConfigError::ProfileNotFound(name) => "Profile '"@ + name@ + "' not found in config"@,
                ConfigError::ProjectDirsNotFound => "Project directories could not be found."@,
            },
    {
        match self {
            ConfigError::ProfileNotFound(name) => {
                let mut m = String::from_str("Profile '");
                m.append(name.as_str());
                m.append("' not found in config");
                m
            },
            ConfigError::ProjectDirsNotFound => String::from_str(
                "Project directories could not be found.",
            ),
        }
    }
}

/// The index of the first profile named `name`, if any.
pub open spec fn profile_position(profiles: Seq<(String, ProfileConfig)>, name: Seq<char>, i: int) -> bool {
    &&& 0 <= i < profiles.len()
    &&& profiles[i].0@ == name
    &&& forall|j: int| 0 <= j < i ==> profiles[j].0@ != name
}

impl Config {
    /// The configuration itself.
    pub fn inner(&self) -> (r: &ConfigInner)
        ensures
            *r == self.0,
    {
        &self.0
    }

    /// The profile named by the core configuration's default profile name:
    /// the first profile with that name, or `ProfileNotFound` with the name
    /// when there is none.
    pub fn get_current_profile(&self) -> (r: Result<&ProfileConfig, ConfigError>)
        ensures
            match r {
                Ok(p) => exists|i: int|
                    profile_position(self.0.profile@, or_default(self.0.core.default_profile_name, default_profile_word()), i)
                        && *p == #[trigger] self.0.profile@[i].1,
                Err(ConfigError::ProfileNotFound(name)) => {
                    &&& name@ == or_default(self.0.core.default_profile_name, default_profile_word())
                    &&& forall|j: int| 0 <= j < self.0.profile@.len() ==> #[trigger] self.0.profile@[j].0@ != name@
                },
                Err(ConfigError::ProjectDirsNotFound) => false,
            },
    {
        let name = self.0.core.get_default_profile_name();
        let profiles = &self.0.profile;
        let mut i: usize = 0;
        while i < profiles.len()
            invariant
                i <= profiles@.len(),
                profiles@ == self.0.profile@,
                name@ == or_default(self.0.core.default_profile_name, default_profile_word()),
                forall|j: int| 0 <= j < i ==> #[trigger] profiles@[j].0@ != name@,
            decreases profiles@.len() - i,
        {
            if string_eq(&profiles[i].0, &name) {
                assert(profile_position(profiles@, name@, i as int));
                assert(self.0.profile@[i as int].1 == profiles@[i as int].1);
                return Ok(&profiles[i].1);
            }
            i = i + 1;
        }
        Err(ConfigError::ProfileNotFound(name))
    }
}

/// The name of the configuration file inside the configuration directory.
pub open spec fn config_file_name() -> Seq<char> {
    seq!['c', 'o', 'n', 'f', 'i', 'g', '.', 't', 'o', 'm', 'l']
}

/// `dir` joined with the configuration file's name, as a path joins a
/// relative name: with a `/` between them unless `dir` is empty or already
/// ends with one.
pub open spec fn config_file_in(dir: Seq<char>) -> Seq<char> {
    if dir.len() == 0 || dir.last() == '/' {
        dir + config_file_name()
    } else {
        dir.push('/') + config_file_name()
    }
}

/// The configuration file to read: the path given on the command line, or
/// `config.toml` in the platform's configuration directory for the daemon
/// (`config_dir`, as the platform reports it), or `ProjectDirsNotFound` when
/// neither is known. Variables and a leading tilde are expanded afterwards.
pub fn get_config_path(explicit: &Option<String>, config_dir: Option<String>) -> (r: Result<
    String,
    ConfigError,
>)
    ensures
        explicit is Some ==> (r matches Ok(p) && p@ == explicit->0@),
        explicit is None ==> match config_dir {
            Some(d) => r matches Ok(p) && p@ == config_file_in(d@),
            None => r matches Err(ConfigError::ProjectDirsNotFound),
        },
{
    match explicit {
        Some(path) => Ok(copy_string(path)),
        None => match config_dir {
            Some(dir) => {
                let n = dir.as_str().unicode_len();
                let mut path = dir;
                if n > 0 && path.as_str().get_char(n - 1) != '/' {
                    path.append("/");
                }
                proof {
                    reveal_strlit("/");
                    reveal_strlit("config.toml");
                }
                path.append("config.toml");
                Ok(path)
            },
            None => Err(ConfigError::ProjectDirsNotFound),
        },
    }
}

} // verus!
