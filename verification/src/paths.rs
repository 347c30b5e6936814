//! Where the player keeps its database, settings and logs.

use std::path::PathBuf;
use vstd::prelude::*;

use crate::discovery::{joined_under, path_from, path_join, path_view};

verus! {

/// Resolved filesystem locations of the player's files.
#[derive(Debug, Clone)]
pub struct AppPaths {
    pub data_dir: PathBuf,
    pub config_dir: PathBuf,
    pub log_dir: PathBuf,
    pub state_file: PathBuf,
    pub db_file: PathBuf,
}

/// Qualifier, organization and application under which the platform's
/// per-user directories are looked up.
pub const QUALIFIER: &'static str = "com";

pub const ORGANIZATION: &'static str = "taggedzi";

pub const APPLICATION: &'static str = "tz-player-rs";

/// Folder under the home directory used when the platform has no per-user
/// application directories.
pub const FALLBACK_DIR_NAME: &'static str = ".tz-player-rs";

/// The platform's data and config directories for this application
/// (`directories::ProjectDirs::from`, then `data_dir` and `config_dir`).
/// They depend on the user's environment, so nothing is promised of them.
#[verifier::external_body]
fn project_dirs(qualifier: &str, organization: &str, application: &str) -> Option<(PathBuf, PathBuf)> {
    match directories::ProjectDirs::from(qualifier, organization, application) {
        Some(project) => Some((project.data_dir().to_path_buf(), project.config_dir().to_path_buf())),
        None => None,
    }
}

/// The user's home directory (`directories::BaseDirs::new`, then
/// `home_dir`). It depends on the user's environment, so nothing is promised
/// of it.
#[verifier::external_body]
fn home_dir() -> Option<PathBuf> {
    match directories::BaseDirs::new() {
        Some(base) => Some(base.home_dir().to_path_buf()),
        None => None,
    }
}

/// Whether the files lie where the player keeps them: logs and the database
/// in the data directory, settings in the config directory, each adjoined as
/// one component (wherever adjoining appends).
pub open spec fn layout_holds(p: AppPaths) -> bool {
    &&& joined_under(p.log_dir, p.data_dir, "logs"@)
    &&& joined_under(p.db_file, p.data_dir, "tz-player.sqlite3"@)
    &&& joined_under(p.state_file, p.config_dir, "state.json"@)
}

/// The layout below a data and a config directory: logs and the database in
/// the data directory, settings in the config directory.
pub fn layout(data_dir: PathBuf, config_dir: PathBuf) -> (p: AppPaths)
    ensures
        p.data_dir == data_dir,
        p.config_dir == config_dir,
        layout_holds(p),
{
    proof {
        reveal_strlit("logs");
        reveal_strlit("state.json");
        reveal_strlit("tz-player.sqlite3");
        assert("logs"@ =~= seq!['l', 'o', 'g', 's']);
        assert("state.json"@ =~= seq!['s', 't', 'a', 't', 'e', '.', 'j', 's', 'o', 'n']);
        assert("tz-player.sqlite3"@ =~= seq![
            't', 'z', '-', 'p', 'l', 'a', 'y', 'e', 'r', '.', 's', 'q', 'l', 'i', 't', 'e', '3',
        ]);
    }
    let log_dir = path_join(path_view(&data_dir), "logs");
    let state_file = path_join(path_view(&config_dir), "state.json");
    let db_file = path_join(path_view(&data_dir), "tz-player.sqlite3");
    AppPaths { data_dir, config_dir, log_dir, state_file, db_file }
}

/// The player's locations for the current user, when the platform has
/// per-user application directories. Those directories come from the user's
/// environment; the files are laid out below them.
pub fn app_paths() -> (r: Option<AppPaths>)
    ensures
        r matches Some(p) ==> layout_holds(p),
{
    match project_dirs(QUALIFIER, ORGANIZATION, APPLICATION) {
        Some((data_dir, config_dir)) => Some(layout(data_dir, config_dir)),
        None => None,
    }
}

/// The player's locations, falling back to one folder under the home
/// directory (or the working directory) that holds everything.
pub fn app_paths_or_cwd() -> (r: AppPaths)
    ensures
        layout_holds(r),
{
    if let Some(paths) = app_paths() {
        return paths;
    }
    let base = match home_dir() {
        Some(home) => path_join(path_view(&home), FALLBACK_DIR_NAME),
        None => path_from(FALLBACK_DIR_NAME),
    };
    let config_dir = base.clone();
    layout(base, config_dir)
}

} // verus!
