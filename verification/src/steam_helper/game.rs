//! A Steam game: finding it, launching programs in its Proton prefix, wiping the
//! prefix, and patching Steam's configuration for it.
use vstd::prelude::*;

use super::proton::{copy_runner, Runner};
use crate::command::{env_pair, string_views, LaunchCommand};
use crate::library_scan::{scan, scan_libraries, LibraryRecord, ScanStop};
use crate::pattern::{compile, regex_compiles, regex_replace_first, replace_first, Pattern};
use crate::text::{concat, contains_str, decimal, decimal_string, has_infix, join, join_path, parent_path, path_parent};

verus! {

/// A game installed through Steam: its app id and name, its install directory, its
/// Proton prefix, the Steam directory, and the Proton runner assigned to it, if any.
#[derive(Debug)]
pub struct SteamGame {
    pub app_id: u32,
    pub name: String,
    pub path: String,
    pub prefix: String,
    pub client_path: String,
    pub runner: Option<Runner>,
}

/// Why a game could not be found.
#[derive(Debug, PartialEq, Eq)]
pub enum GameError {
    /// An app of a library could not be read (the reason).
    App(String),
    /// The app was found but its manifest has no name.
    NoAppName,
    /// No library holds the app.
    NotFound(u32),
}

/// The install directory of the game `name` in the library at `library`.
pub open spec fn game_dir(library: Seq<char>, name: Seq<char>) -> Seq<char> {
    join_path(library, "steamapps/common/"@ + name)
}

/// The Proton prefix of `app_id` in the library at `library`.
pub open spec fn prefix_dir(library: Seq<char>, app_id: u32) -> Seq<char> {
    join_path(library, "steamapps/compatdata/"@ + decimal(app_id as nat) + "/pfx"@)
}

/// The first runner whose setting name is `tool` (none when there is none).
pub open spec fn runner_named(runners: Seq<Runner>, tool: Seq<char>, from: int) -> Option<Runner>
    decreases runners.len() - from,
{
    if from < 0 || from >= runners.len() {
        None
    } else if runners[from].name@ == tool {
        Some(runners[from])
    } else {
        runner_named(runners, tool, from + 1)
    }
}

/// The runner of a game: the first listed runner named by the game's compatibility
/// tool setting; none without a setting or without a runner list.
pub open spec fn assigned_runner(compat_tool: Option<String>, runners: Option<Vec<Runner>>) -> Option<Runner> {
    match (compat_tool, runners) {
        (Some(t), Some(rs)) => runner_named(rs@, t@, 0),
        _ => None,
    }
}

proof fn lemma_runner_named(runners: Seq<Runner>, tool: Seq<char>, from: int)
    requires
        0 <= from <= runners.len(),
    ensures
        (exists|k: int| from <= k < runners.len() && (#[trigger] runners[k]).name@ == tool) ==> {
            exists|m: int| {
                &&& from <= m < runners.len()
                &&& runner_named(runners, tool, from) == Some(#[trigger] runners[m])
                &&& runners[m].name@ == tool
                &&& forall|k: int| from <= k < m ==> (#[trigger] runners[k]).name@ != tool
            }
        },
        (forall|k: int| from <= k < runners.len() ==> (#[trigger] runners[k]).name@ != tool)
            ==> runner_named(runners, tool, from) is None,
    decreases runners.len() - from,
{
    if from < runners.len() {
        lemma_runner_named(runners, tool, from + 1);
        if runners[from].name@ == tool {
            assert(runner_named(runners, tool, from) == Some(runners[from]));
        } else {
            if exists|k: int| from <= k < runners.len() && (#[trigger] runners[k]).name@ == tool {
                let k = choose|k: int| from <= k < runners.len() && (#[trigger] runners[k]).name@ == tool;
                assert(from + 1 <= k);
                let m = choose|m: int| {
                    &&& from + 1 <= m < runners.len()
                    &&& runner_named(runners, tool, from + 1) == Some(#[trigger] runners[m])
                    &&& runners[m].name@ == tool
                    &&& forall|k: int| from + 1 <= k < m ==> (#[trigger] runners[k]).name@ != tool
                };
                assert forall|k2: int| from <= k2 < m implies (#[trigger] runners[k2]).name@ != tool by {
                    if k2 > from {
                    }
                }
            }
        }
    }
}

/// The runner assigned to a game is the first runner of the list whose setting name is
/// the game's compatibility tool: when some runner has that name, the result is the
/// runner at the least such position; when none has it, or the game has no tool or
/// there is no runner list, there is none.
pub proof fn law_assigned_runner_is_first_named(compat_tool: Option<String>, runners: Option<Vec<Runner>>)
    ensures
        compat_tool is None || runners is None ==> assigned_runner(compat_tool, runners) is None,
        compat_tool is Some && runners is Some ==> ({
            let t = compat_tool->0;
            let rs = runners->0;
            &&& (exists|k: int| 0 <= k < rs@.len() && (#[trigger] rs@[k]).name@ == t@) ==> exists|m: int| {
                &&& 0 <= m < rs@.len()
                &&& assigned_runner(compat_tool, runners) == Some(#[trigger] rs@[m])
                &&& rs@[m].name@ == t@
                &&& forall|k: int| 0 <= k < m ==> (#[trigger] rs@[k]).name@ != t@
            }
            &&& (forall|k: int| 0 <= k < rs@.len() ==> (#[trigger] rs@[k]).name@ != t@)
                ==> assigned_runner(compat_tool, runners) is None
        }),
{
    match (compat_tool, runners) {
        (Some(t), Some(rs)) => {
            lemma_runner_named(rs@, t@, 0);
        },
        _ => {},
    }
}

fn find_runner(runners: &Vec<Runner>, tool: &String) -> (r: Option<Runner>)
    ensures
        r == runner_named(runners@, tool@, 0),
{
    let mut k: usize = 0;
    while k < runners.len()
        invariant
            k <= runners@.len(),
            runner_named(runners@, tool@, k as int) == runner_named(runners@, tool@, 0),
        decreases runners.len() - k,
    {
        if runners[k].name == *tool {
            return Some(copy_runner(&runners[k]));
        }
        k = k + 1;
    }
    None
}

/// The game `app_id` as found in the Steam libraries `libs` of the Steam directory
/// `steam_path`. Libraries and apps are searched in order; a library that could not be
/// read is skipped, an app that could not be read ends the search with its error, the
/// first app with the id is the game. Its directory is `steamapps/common/<name>` and its
/// prefix `steamapps/compatdata/<id>/pfx` in its library; its runner is the first of
/// `runners` whose name is `compat_tool` (the tool Steam assigns to the app).
pub fn get_game(
    app_id: u32,
    steam_path: &str,
    libs: &Vec<Result<LibraryRecord, String>>,
    compat_tool: Option<String>,
    runners: Option<Vec<Runner>>,
) -> (r: Result<SteamGame, GameError>)
    ensures
        match scan(libs@, app_id, true) {
            ScanStop::Found(i, j) => {
                let lib = libs@[i as int]->Ok_0;
                match lib.apps@[j as int]->Ok_0.name {
                    None => r == Err::<SteamGame, GameError>(GameError::NoAppName),
                    Some(n) => r matches Ok(g) && {
                        &&& g.app_id == app_id
                        &&& g.name@ == n@
                        &&& g.path@ == game_dir(lib.path@, n@)
                        &&& g.prefix@ == prefix_dir(lib.path@, app_id)
                        &&& g.client_path@ == steam_path@
                        &&& g.runner == assigned_runner(compat_tool, runners)
                    },
                }
            },
            ScanStop::AppFailed(i, j) => r == Err::<SteamGame, GameError>(
                GameError::App(libs@[i as int]->Ok_0.apps@[j as int]->Err_0)),
            _ => r == Err::<SteamGame, GameError>(GameError::NotFound(app_id)),
        },
{
    match scan_libraries(libs, app_id, true) {
        ScanStop::Found(i, j) => {
            let lib = match &libs[i] {
                Ok(lib) => lib,
                Err(_) => { return Err(GameError::NotFound(app_id)); },
            };
            let app = match &lib.apps[j] {
                Ok(app) => app,
                Err(e) => { return Err(GameError::App(e.clone())); },
            };
            let name = match &app.name {
                Some(n) => n.clone(),
                None => { return Err(GameError::NoAppName); },
            };
            let id = decimal_string(app_id);
            let common = concat("steamapps/common/", name.as_str());
            let path = join(lib.path.as_str(), common.as_str());
            let compat = concat(concat("steamapps/compatdata/", id.as_str()).as_str(), "/pfx");
            let prefix = join(lib.path.as_str(), compat.as_str());
            let runner = match (&compat_tool, &runners) {
                (Some(t), Some(rs)) => find_runner(rs, t),
                _ => None,
            };
            Ok(SteamGame { app_id, name, path, prefix, client_path: steam_path.to_string(), runner })
        },
        ScanStop::AppFailed(i, j) => {
            match &libs[i] {
                Ok(lib) => match &lib.apps[j] {
                    Err(e) => Err(GameError::App(e.clone())),
                    Ok(_) => Err(GameError::NotFound(app_id)),
                },
                Err(_) => Err(GameError::NotFound(app_id)),
            }
        },
        _ => Err(GameError::NotFound(app_id)),
    }
}

/// The arguments that follow the program when launching in a prefix.
pub open spec fn extra_args(args: Option<Vec<String>>) -> Seq<Seq<char>> {
    match args {
        Some(v) => string_views(v@),
        None => seq![],
    }
}

/// `c` runs `exe` with the game's runner in the prefix whose data directory is `data`:
/// `<runner> waitforexitandrun <exe> <args...>`, with the Steam directory, the data
/// directory and native-first DirectInput in the environment, output discarded.
pub open spec fn is_prefix_launch(
    c: LaunchCommand,
    exe: Seq<char>,
    game: SteamGame,
    args: Option<Vec<String>>,
    data: Seq<char>,
) -> bool {
    &&& c.program@ == game.runner->0.path@
    &&& c.envs@.len() == 3
    &&& c.envs@[0].0@ == "STEAM_COMPAT_CLIENT_INSTALL_PATH"@
    &&& c.envs@[0].1@ == game.client_path@
    &&& c.envs@[1].0@ == "STEAM_COMPAT_DATA_PATH"@
    &&& c.envs@[1].1@ == data
    &&& c.envs@[2].0@ == "WINEDLLOVERRIDES"@
    &&& c.envs@[2].1@ == "dinput.dll=n,b"@
    &&& string_views(c.args@) == seq!["waitforexitandrun"@, exe] + extra_args(args)
    &&& c.discard_output
}

/// The launch of `exe` in the game's prefix with the data directory `data` (see
/// [`is_prefix_launch`]).
pub fn prefix_launch_command(exe: &str, game: &SteamGame, args: Option<Vec<String>>, data: &str) -> (c: LaunchCommand)
    requires
        game.runner is Some,
    ensures
        is_prefix_launch(c, exe@, *game, args, data@),
{
    let program = match &game.runner {
        Some(r) => r.path.clone(),
        None => String::new(),
    };
    let mut envs: Vec<(String, String)> = Vec::new();
    envs.push(env_pair("STEAM_COMPAT_CLIENT_INSTALL_PATH", game.client_path.as_str()));
    envs.push(env_pair("STEAM_COMPAT_DATA_PATH", data));
    envs.push(env_pair("WINEDLLOVERRIDES", "dinput.dll=n,b"));
    let mut all: Vec<String> = Vec::new();
    all.push("waitforexitandrun".to_string());
    all.push(exe.to_string());
    let ghost head = seq!["waitforexitandrun"@, exe@];
    proof {
        assert(string_views(all@) =~= head);
    }
    let ghost extra = extra_args(args);
    match args {
        Some(v) => {
            let mut k: usize = 0;
            while k < v.len()
                invariant
                    k <= v@.len(),
                    extra == string_views(v@),
                    string_views(all@) == head + extra.take(k as int),
                decreases v.len() - k,
            {
                let ghost prev = all@;
                let item = v[k].clone();
                all.push(item);
                proof {
                    assert(all@ == prev.push(item));
                    assert(item@ == extra[k as int]);
                    assert(string_views(all@) =~= string_views(prev).push(extra[k as int]));
                    assert(head + extra.take(k + 1) =~= (head + extra.take(k as int)).push(extra[k as int]));
                }
                k = k + 1;
            }
            proof {
                assert(extra.take(v@.len() as int) =~= extra);
            }
        },
        None => {
            proof {
                assert(head + extra =~= head);
            }
        },
    }
    LaunchCommand { program, envs, args: all, discard_output: true }
}

/// Launching `exe` in the game's prefix with `args` (none when `None`): the data
/// directory is the parent of the prefix; `None` when the prefix has no parent.
pub fn launch_exe_in_prefix(exe: &str, game: &SteamGame, args: Option<Vec<String>>) -> (r: Option<LaunchCommand>)
    requires
        game.runner is Some,
    ensures
        r is Some <==> parent_path(game.prefix@) is Some,
        r matches Some(c) ==> is_prefix_launch(c, exe@, *game, args, parent_path(game.prefix@)->0),
{
    match path_parent(game.prefix.as_str()) {
        Some(data) => Some(prefix_launch_command(exe, game, args, data.as_str())),
        None => None,
    }
}

/// The part of a prefix path that must be present before the prefix may be deleted.
pub open spec fn prefix_marker(app_id: u32) -> Seq<char> {
    "compatdata/"@ + decimal(app_id as nat) + "/pfx"@
}

/// Whether the game's prefix path contains `compatdata/<id>/pfx`, the guard that must
/// hold before the prefix is deleted.
pub fn prefix_wipe_allowed(game: &SteamGame) -> (b: bool)
    ensures
        b == has_infix(game.prefix@, prefix_marker(game.app_id)),
{
    prefix_marked(game.prefix.as_str(), game.app_id)
}

/// Whether `prefix` contains `compatdata/<app_id>/pfx`.
pub fn prefix_marked(prefix: &str, app_id: u32) -> (b: bool)
    ensures
        b == has_infix(prefix@, prefix_marker(app_id)),
{
    let id = decimal_string(app_id);
    let marker = concat(concat("compatdata/", id.as_str()).as_str(), "/pfx");
    contains_str(prefix, marker.as_str())
}

/// What wiping the prefix does.
#[derive(Debug, PartialEq, Eq)]
pub enum WipeAction {
    /// The prefix is not a directory: nothing to do.
    Skip,
    /// Delete the prefix directory.
    Delete,
}

/// Wiping the game's prefix: delete it when it is a directory, skip it otherwise. A
/// prefix that is a directory must pass [`prefix_wipe_allowed`].
pub fn wipe_prefix(game: &SteamGame, prefix_is_dir: bool) -> (a: WipeAction)
    requires
        prefix_is_dir ==> has_infix(game.prefix@, prefix_marker(game.app_id)),
    ensures
        a == (if prefix_is_dir { WipeAction::Delete } else { WipeAction::Skip }),
{
    if prefix_is_dir { WipeAction::Delete } else { WipeAction::Skip }
}

/// Why a Steam configuration file could not be patched.
#[derive(Debug, PartialEq, Eq)]
pub enum PatchError {
    /// The search pattern was refused by the regular-expression compiler.
    InvalidPattern,
}

/// The pattern of the game's entry in `localconfig.vdf`: `"<id>"`, white space, `{`.
pub open spec fn launch_options_regex(app_id: u32) -> Seq<char> {
    "\""@ + decimal(app_id as nat) + "\"\\s*\\{"@
}

/// The entry opening with the launch options that inject 7th Heaven.
pub open spec fn launch_options_entry(app_id: u32) -> Seq<char> {
    "\""@ + decimal(app_id as nat) + "\"\n\t\t\t\t\t{\n\t\t\t\t\t\t\"LaunchOptions\"\t\t\"echo \\\"%command%\\\" | sed 's/waitforexitandrun/run/g' | env WINEDLLOVERRIDES=\\\"dinput=n,b\\\" sh\""@
}

/// The pattern that finds the game's entry in `localconfig.vdf`, compiled.
pub fn launch_options_pattern(app_id: u32) -> (r: Result<Pattern, PatchError>)
    ensures
        r is Ok <==> regex_compiles(launch_options_regex(app_id)),
        r matches Ok(p) ==> p@ == launch_options_regex(app_id),
        r is Err ==> r == Err::<Pattern, PatchError>(PatchError::InvalidPattern),
{
    let id = decimal_string(app_id);
    let src = concat(concat("\"", id.as_str()).as_str(), "\"\\s*\\{");
    match compile(src.as_str()) {
        Ok(p) => Ok(p),
        Err(_) => Err(PatchError::InvalidPattern),
    }
}

/// The glob that matches every user's `localconfig.vdf` under the Steam directory.
pub fn localconfig_glob(game: &SteamGame) -> (s: String)
    ensures
        s@ == game.client_path@ + "/userdata/*/config/localconfig.vdf"@,
{
    localconfig_glob_in(game.client_path.as_str())
}

/// The glob that matches every user's `localconfig.vdf` under the Steam directory
/// `client_path`.
pub fn localconfig_glob_in(client_path: &str) -> (s: String)
    ensures
        s@ == client_path@ + "/userdata/*/config/localconfig.vdf"@,
{
    concat(client_path, "/userdata/*/config/localconfig.vdf")
}

/// `localconfig.vdf` text with the game's entry opened by the 7th Heaven launch options
/// (the first match of `pattern`, which must be [`launch_options_regex`]).
pub fn set_launch_options(pattern: &Pattern, content: &str, app_id: u32) -> (r: String)
    requires
        pattern@ == launch_options_regex(app_id),
    ensures
        r@ == regex_replace_first(launch_options_regex(app_id), content@, launch_options_entry(app_id)),
{
    let id = decimal_string(app_id);
    let entry = concat(
        concat("\"", id.as_str()).as_str(),
        "\"\n\t\t\t\t\t{\n\t\t\t\t\t\t\"LaunchOptions\"\t\t\"echo \\\"%command%\\\" | sed 's/waitforexitandrun/run/g' | env WINEDLLOVERRIDES=\\\"dinput=n,b\\\" sh\"",
    );
    replace_first(pattern, content, entry.as_str())
}

/// The pattern of the compatibility-tool table in `config.vdf`.
pub open spec fn compat_mapping_regex() -> Seq<char> {
    "\"CompatToolMapping\"\\s*\\{"@
}

/// The table opening with an entry that assigns `runner` to the game.
pub open spec fn compat_mapping_entry(app_id: u32, runner: Seq<char>) -> Seq<char> {
    "\"CompatToolMapping\"\n\t\t\t\t{\n\t\t\t\t\t\""@ + decimal(app_id as nat)
        + "\"\n\t\t\t\t\t{\n\t\t\t\t\t\t\"name\"\t\t\""@ + runner
        + "\"\n\t\t\t\t\t\t\"config\"\t\t\"\"\n\t\t\t\t\t\t\"priority\"\t\t\"250\"\n\t\t\t\t\t}"@
}

/// The path of Steam's `config.vdf`.
pub fn config_vdf_path(game: &SteamGame) -> (s: String)
    ensures
        s@ == join_path(game.client_path@, "config/config.vdf"@),
{
    join(game.client_path.as_str(), "config/config.vdf")
}

/// `config.vdf` text with the runner `runner` assigned to the game: the first
/// compatibility-tool table opening gains the game's entry. Fails only when the
/// pattern does not compile.
pub fn set_runner(content: &str, app_id: u32, runner: &str) -> (r: Result<String, PatchError>)
    ensures
        r is Ok <==> regex_compiles(compat_mapping_regex()),
        r matches Ok(s) ==> s@ == regex_replace_first(compat_mapping_regex(), content@, compat_mapping_entry(app_id, runner@)),
        r is Err ==> r == Err::<String, PatchError>(PatchError::InvalidPattern),
{
    let pattern = match compile("\"CompatToolMapping\"\\s*\\{") {
        Ok(p) => p,
        Err(_) => { return Err(PatchError::InvalidPattern); },
    };
    let id = decimal_string(app_id);
    let a = concat("\"CompatToolMapping\"\n\t\t\t\t{\n\t\t\t\t\t\"", id.as_str());
    let b = concat(a.as_str(), "\"\n\t\t\t\t\t{\n\t\t\t\t\t\t\"name\"\t\t\"");
    let c = concat(b.as_str(), runner);
    let entry = concat(c.as_str(), "\"\n\t\t\t\t\t\t\"config\"\t\t\"\"\n\t\t\t\t\t\t\"priority\"\t\t\"250\"\n\t\t\t\t\t}");
    Ok(replace_first(&pattern, content, entry.as_str()))
}

/// The Steam URL that starts the game.
pub open spec fn rungameid_url(app_id: u32) -> Seq<char> {
    "steam://rungameid/"@ + decimal(app_id as nat)
}

/// Starting the app `app_id` through Steam: `steam steam://rungameid/<id>`, output
/// discarded.
pub fn rungameid_command(app_id: u32) -> (c: LaunchCommand)
    ensures
        c.program@ == "steam"@,
        c.envs@.len() == 0,
        string_views(c.args@) == seq![rungameid_url(app_id)],
        c.discard_output,
{
    let id = decimal_string(app_id);
    let url = concat("steam://rungameid/", id.as_str());
    let mut args: Vec<String> = Vec::new();
    args.push(url);
    proof {
        assert(string_views(args@) =~= seq![rungameid_url(app_id)]);
    }
    LaunchCommand { program: "steam".to_string(), envs: Vec::new(), args, discard_output: true }
}

/// Starting the game through Steam (see [`rungameid_command`]).
pub fn launch_game(game: &SteamGame) -> (c: LaunchCommand)
    ensures
        c.program@ == "steam"@,
        c.envs@.len() == 0,
        string_views(c.args@) == seq![rungameid_url(game.app_id)],
        c.discard_output,
{
    rungameid_command(game.app_id)
}

/// The prefix of every game found in a library passes the guard of the prefix wipe:
/// it always contains `compatdata/<id>/pfx`.
pub proof fn law_found_prefix_may_be_wiped(library: Seq<char>, app_id: u32)
    ensures
        has_infix(prefix_dir(library, app_id), prefix_marker(app_id)),
{
    let rel = "steamapps/compatdata/"@ + decimal(app_id as nat) + "/pfx"@;
    let p = prefix_dir(library, app_id);
    reveal_strlit("steamapps/compatdata/");
    reveal_strlit("compatdata/");
    crate::text::law_join_ends_with(library, rel);
    let marker = prefix_marker(app_id);
    assert(rel =~= "steamapps/"@ + marker) by {
        reveal_strlit("steamapps/");
        assert("steamapps/compatdata/"@ =~= "steamapps/"@ + "compatdata/"@);
    }
    let start = p.len() - marker.len();
    assert(p.subrange(start, start + marker.len()) =~= marker) by {
        assert(p.subrange(p.len() - rel.len(), p.len() as int) == rel);
        assert(rel.subrange(rel.len() - marker.len(), rel.len() as int) =~= marker);
    }
    assert(crate::text::occurs_at(p, marker, start));
}

} // verus!
