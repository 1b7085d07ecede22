//! A Steam game as the first generation of the helpers saw it.
use vstd::prelude::*;

use crate::command::{env_pair, string_views, LaunchCommand};
use crate::library_scan::{scan, scan_libraries, LibraryRecord, ScanStop};
use crate::pattern::{compile, regex_compiles, regex_replace_first, replace_first, Pattern};
use crate::steam_helper::game::{
    game_dir, localconfig_glob_in, prefix_dir, prefix_marked, prefix_marker, rungameid_command,
    rungameid_url,
};
use crate::text::{concat, decimal, decimal_string, has_infix, join};

verus! {

/// A game installed through Steam: its app id and name, its install directory, its
/// Proton prefix and the Steam directory.
#[derive(Debug)]
pub struct SteamGame {
    pub app_id: u32,
    pub name: String,
    pub path: String,
    pub prefix: String,
    pub client_path: String,
}

/// Why a game could not be found.
#[derive(Debug, PartialEq, Eq)]
pub enum GameError {
    /// A library could not be read (the reason).
    Library(String),
    /// An app of a library could not be read (the reason).
    App(String),
    /// The app was found but its manifest has no name.
    NoAppName,
    /// No library holds the app.
    NotFound(u32),
}

/// The game `app_id` as found in the Steam libraries `libs` of the Steam directory
/// `steam_path`. Libraries and apps are searched in order; the first library or app
/// that could not be read ends the search with its error; the first app with the id is
/// the game, with its directory `steamapps/common/<name>` and its prefix
/// `steamapps/compatdata/<id>/pfx` in its library.
pub fn get_game(app_id: u32, steam_path: &str, libs: &Vec<Result<LibraryRecord, String>>) -> (r: Result<SteamGame, GameError>)
    ensures
        match scan(libs@, app_id, false) {
            ScanStop::Found(i, j) => {
                let lib = libs@[i as int]->Ok_0;
                match lib.apps@[j as int]->Ok_0.name {
                    None => r == Err::<SteamGame, GameError>(GameError::NoAppName),
                    Some(n) => r matches Ok(g) && {
                        &&& g.app_id == app_id
                        &&& g.name@ == n@
                        &&& g.path@ == game_dir(lib.path@, n@)
                        &&& g.prefix@ == prefix_dir(lib.path@, app_id)
                        &&& g.client_path@ == steam_path@
                    },
                }
            },
            ScanStop::LibraryFailed(i) => r == Err::<SteamGame, GameError>(GameError::Library(libs@[i as int]->Err_0)),
            ScanStop::AppFailed(i, j) => r == Err::<SteamGame, GameError>(
                GameError::App(libs@[i as int]->Ok_0.apps@[j as int]->Err_0)),
            ScanStop::Missing => r == Err::<SteamGame, GameError>(GameError::NotFound(app_id)),
        },
{
    match scan_libraries(libs, app_id, false) {
        ScanStop::Found(i, j) => {
            let lib = match &libs[i] {
                Ok(lib) => lib,
                Err(e) => { return Err(GameError::Library(e.clone())); },
            };
            let app = match &lib.apps[j] {
                Ok(app) => app,
                Err(e) => { return Err(GameError::App(e.clone())); },
            };
            let name = match &app.name {
                Some(n) => n.clone(),
                None => { return Err(GameError::NoAppName); },
            };
            let id = decimal_string(app_id);
            let common = concat("steamapps/common/", name.as_str());
            let path = join(lib.path.as_str(), common.as_str());
            let compat = concat(concat("steamapps/compatdata/", id.as_str()).as_str(), "/pfx");
            let prefix = join(lib.path.as_str(), compat.as_str());
            Ok(SteamGame { app_id, name, path, prefix, client_path: steam_path.to_string() })
        },
        ScanStop::LibraryFailed(i) => match &libs[i] {
            Err(e) => Err(GameError::Library(e.clone())),
            Ok(_) => Err(GameError::NotFound(app_id)),
        },
        ScanStop::AppFailed(i, j) => match &libs[i] {
            Ok(lib) => match &lib.apps[j] {
                Err(e) => Err(GameError::App(e.clone())),
                Ok(_) => Err(GameError::NotFound(app_id)),
            },
            Err(_) => Err(GameError::NotFound(app_id)),
        },
        ScanStop::Missing => Err(GameError::NotFound(app_id)),
    }
}

/// Running `exe_to_launch` with the Proton launcher `proton_path` in the game's prefix:
/// `<proton> waitforexitandrun <exe> <args...>`, with the Steam directory, the prefix
/// as data directory, and native-first DirectInput in the environment, output
/// discarded.
pub fn launch_exe_in_prefix(exe_to_launch: &str, game: &SteamGame, proton_path: &str, args: &Vec<String>) -> (c: LaunchCommand)
    ensures
        c.program@ == proton_path@,
        c.envs@.len() == 3,
        c.envs@[0].0@ == "STEAM_COMPAT_CLIENT_INSTALL_PATH"@,
        c.envs@[0].1@ == game.client_path@,
        c.envs@[1].0@ == "STEAM_COMPAT_DATA_PATH"@,
        c.envs@[1].1@ == game.prefix@,
        c.envs@[2].0@ == "WINEDLLOVERRIDES"@,
        c.envs@[2].1@ == "dinput.dll=n,b"@,
        string_views(c.args@) == seq!["waitforexitandrun"@, exe_to_launch@] + string_views(args@),
        c.discard_output,
{
    let mut envs: Vec<(String, String)> = Vec::new();
    envs.push(env_pair("STEAM_COMPAT_CLIENT_INSTALL_PATH", game.client_path.as_str()));
    envs.push(env_pair("STEAM_COMPAT_DATA_PATH", game.prefix.as_str()));
    envs.push(env_pair("WINEDLLOVERRIDES", "dinput.dll=n,b"));
    let mut all: Vec<String> = Vec::new();
    all.push("waitforexitandrun".to_string());
    all.push(exe_to_launch.to_string());
    let ghost head = seq!["waitforexitandrun"@, exe_to_launch@];
    let ghost extra = string_views(args@);
    proof {
        assert(string_views(all@) =~= head + extra.take(0));
    }
    let mut k: usize = 0;
    while k < args.len()
        invariant
            k <= args@.len(),
            extra == string_views(args@),
            string_views(all@) == head + extra.take(k as int),
        decreases args.len() - k,
    {
        let ghost prev = all@;
        let item = args[k].clone();
        all.push(item);
        proof {
            assert(all@ == prev.push(item));
            assert(item@ == extra[k as int]);
            assert(string_views(all@) =~= string_views(prev).push(extra[k as int]));
            assert(head + extra.take(k + 1) =~= (head + extra.take(k as int)).push(extra[k as int]));
        }
        k = k + 1;
    }
    proof {
        assert(extra.take(args@.len() as int) =~= extra);
    }
    LaunchCommand { program: proton_path.to_string(), envs, args: all, discard_output: true }
}

/// Whether the game's prefix path contains `compatdata/<id>/pfx`, the guard that must
/// hold before the prefix is deleted.
pub fn prefix_wipe_allowed(game: &SteamGame) -> (b: bool)
    ensures
        b == has_infix(game.prefix@, prefix_marker(game.app_id)),
{
    prefix_marked(game.prefix.as_str(), game.app_id)
}

/// The pattern this generation used for the game's entry in `localconfig.vdf`:
/// `("<id>")\s*\{)`.
pub open spec fn launch_options_regex(app_id: u32) -> Seq<char> {
    "(\""@ + decimal(app_id as nat) + "\")\\s*\\{)"@
}

/// Its replacement: the matched id, then the launch options line.
pub open spec fn launch_options_replacement() -> Seq<char> {
    "$1\n    \"LaunchOptions\"\t\t\"echo \\\"%command%\\\" | sed 's/waitforexitandrun/run/g' | env WINEDLLOVERRIDES=\\\"dinput=n,b\\\" sh\"\n    "@
}

/// Why the launch options could not be set.
#[derive(Debug, PartialEq, Eq)]
pub enum PatchError {
    /// The search pattern was refused by the regular-expression compiler.
    InvalidPattern,
}

/// The pattern for the game's entry, compiled.
pub fn launch_options_pattern(app_id: u32) -> (r: Result<Pattern, PatchError>)
    ensures
        r is Ok <==> regex_compiles(launch_options_regex(app_id)),
        r matches Ok(p) ==> p@ == launch_options_regex(app_id),
        r is Err ==> r == Err::<Pattern, PatchError>(PatchError::InvalidPattern),
{
    let id = decimal_string(app_id);
    let src = concat(concat("(\"", id.as_str()).as_str(), "\")\\s*\\{)");
    match compile(src.as_str()) {
        Ok(p) => Ok(p),
        Err(_) => Err(PatchError::InvalidPattern),
    }
}

/// The glob that matches every user's `localconfig.vdf` under the Steam directory.
pub fn localconfig_glob(game: &SteamGame) -> (s: String)
    ensures
        s@ == game.client_path@ + "/userdata/*/config/localconfig.vdf"@,
{
    localconfig_glob_in(game.client_path.as_str())
}

/// `localconfig.vdf` text with the launch options line after the game's entry (the
/// first match of `pattern`, which must be [`launch_options_regex`]).
pub fn set_launch_options(pattern: &Pattern, content: &str, app_id: u32) -> (r: String)
    requires
        pattern@ == launch_options_regex(app_id),
    ensures
        r@ == regex_replace_first(launch_options_regex(app_id), content@, launch_options_replacement()),
{
    replace_first(
        pattern,
        content,
        "$1\n    \"LaunchOptions\"\t\t\"echo \\\"%command%\\\" | sed 's/waitforexitandrun/run/g' | env WINEDLLOVERRIDES=\\\"dinput=n,b\\\" sh\"\n    ",
    )
}

/// Starting the game through Steam: `steam steam://rungameid/<id>`, output discarded.
pub fn launch_game(game: &SteamGame) -> (c: LaunchCommand)
    ensures
        c.program@ == "steam"@,
        c.envs@.len() == 0,
        string_views(c.args@) == seq![rungameid_url(game.app_id)],
        c.discard_output,
{
    rungameid_command(game.app_id)
}

} // verus!
