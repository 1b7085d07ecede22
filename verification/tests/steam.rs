use seventh_deck::command::LaunchCommand;
use seventh_deck::library_scan::{scan_libraries, AppRecord, LibraryRecord, ScanStop};
use seventh_deck::proton::{find_prefix, launch_exe, ProtonError};
use seventh_deck::steam_helper::game::{
    config_vdf_path, get_game, launch_exe_in_prefix, launch_game, launch_options_pattern,
    localconfig_glob, prefix_launch_command, prefix_wipe_allowed, set_launch_options, set_runner,
    wipe_prefix, GameError, SteamGame, WipeAction,
};
use seventh_deck::steam_helper::proton::Runner;
use seventh_deck::steam_helper::{
    add_nonsteam_game, choose_library, library_candidates, KillAction, LibraryChoice,
    NonSteamError, ProcessKiller,
};
use seventh_deck::steamhelper::game as first_gen;

fn lib(path: &str, apps: Vec<Result<(u32, Option<&str>), &str>>) -> Result<LibraryRecord, String> {
    Ok(LibraryRecord {
        path: path.to_string(),
        apps: apps
            .into_iter()
            .map(|a| match a {
                Ok((id, name)) => Ok(AppRecord { app_id: id, name: name.map(|s| s.to_string()) }),
                Err(e) => Err(e.to_string()),
            })
            .collect(),
    })
}

fn runner(name: &str, path: &str) -> Runner {
    Runner { name: name.to_string(), pretty_name: format!("Pretty {name}"), path: path.to_string() }
}

#[test]
fn scan_visits_in_order() {
    let libs = vec![
        lib("/a", vec![Ok((10, Some("Ten"))), Ok((39140, Some("FINAL FANTASY VII")))]),
        lib("/b", vec![Ok((39140, Some("Other")))]),
    ];
    assert_eq!(scan_libraries(&libs, 39140, true), ScanStop::Found(0, 1));
    assert_eq!(scan_libraries(&libs, 5, true), ScanStop::Missing);
    let libs = vec![Err("unreadable".to_string()), lib("/b", vec![Err("bad manifest"), Ok((1, None))])];
    assert_eq!(scan_libraries(&libs, 1, true), ScanStop::AppFailed(1, 0));
    assert_eq!(scan_libraries(&libs, 1, false), ScanStop::LibraryFailed(0));
}

#[test]
fn get_game_builds_paths() {
    let libs = vec![
        Err("unreadable".to_string()),
        lib("/games/steam", vec![Ok((10, Some("Ten"))), Ok((39140, Some("FINAL FANTASY VII")))]),
    ];
    let runners = vec![runner("proton_8", "/p8/proton"), runner("proton_9", "/p9/proton")];
    let g = get_game(39140, "/home/u/.steam/root", &libs, Some("proton_9".to_string()), Some(runners)).unwrap();
    assert_eq!(g.app_id, 39140);
    assert_eq!(g.name, "FINAL FANTASY VII");
    assert_eq!(g.path, "/games/steam/steamapps/common/FINAL FANTASY VII");
    assert_eq!(g.prefix, "/games/steam/steamapps/compatdata/39140/pfx");
    assert_eq!(g.client_path, "/home/u/.steam/root");
    assert_eq!(g.runner.as_ref().unwrap().path, "/p9/proton");
    assert!(prefix_wipe_allowed(&g));
}

#[test]
fn get_game_runner_and_errors() {
    let libs = vec![lib("/s/", vec![Ok((39140, Some("FF7")))])];
    let g = get_game(39140, "/s", &libs, Some("proton_7".to_string()), Some(vec![runner("proton_8", "/p8")])).unwrap();
    assert!(g.runner.is_none());
    assert_eq!(g.path, "/s/steamapps/common/FF7");
    let g = get_game(39140, "/s", &libs, None, None).unwrap();
    assert!(g.runner.is_none());
    assert_eq!(get_game(7, "/s", &libs, None, None).unwrap_err(), GameError::NotFound(7));
    let libs = vec![lib("/s", vec![Err("broken"), Ok((39140, Some("FF7")))])];
    assert_eq!(get_game(39140, "/s", &libs, None, None).unwrap_err(), GameError::App("broken".to_string()));
    let libs = vec![lib("/s", vec![Ok((39140, None))])];
    assert_eq!(get_game(39140, "/s", &libs, None, None).unwrap_err(), GameError::NoAppName);
}

#[test]
fn old_get_game_stops_at_unreadable_library() {
    let libs = vec![Err("unreadable".to_string()), lib("/s", vec![Ok((39140, Some("FF7")))])];
    assert_eq!(first_gen::get_game(39140, "/s", &libs).unwrap_err(), first_gen::GameError::Library("unreadable".to_string()));
    let libs = vec![lib("/s", vec![Ok((39140, Some("FF7")))])];
    let g = first_gen::get_game(39140, "/c", &libs).unwrap();
    assert_eq!(g.prefix, "/s/steamapps/compatdata/39140/pfx");
    assert!(first_gen::prefix_wipe_allowed(&g));
}

#[test]
fn find_prefix_returns_library() {
    let libs = vec![lib("/a", vec![Ok((1, None))]), lib("/b", vec![Ok((39140, None))])];
    assert_eq!(find_prefix(&libs, 39140).unwrap(), "/b");
    assert_eq!(find_prefix(&libs, 2).unwrap_err(), ProtonError::PrefixNotFound);
    let libs = vec![Err("nope".to_string())];
    assert_eq!(find_prefix(&libs, 2).unwrap_err(), ProtonError::Library("nope".to_string()));
}

fn game(prefix: &str, runner_path: Option<&str>) -> SteamGame {
    SteamGame {
        app_id: 39140,
        name: "FF7".to_string(),
        path: "/s/steamapps/common/FF7".to_string(),
        prefix: prefix.to_string(),
        client_path: "/home/u/.steam/root".to_string(),
        runner: runner_path.map(|p| runner("proton_9", p)),
    }
}

fn env_of(c: &LaunchCommand, k: &str) -> Option<String> {
    c.envs.iter().find(|(n, _)| n == k).map(|(_, v)| v.clone())
}

#[test]
fn launch_in_prefix_command() {
    let g = game("/s/steamapps/compatdata/39140/pfx", Some("/p9/proton"));
    let args = Some(vec!["/VERYSILENT".to_string(), "/LOG=x".to_string()]);
    let c = launch_exe_in_prefix("/tmp/7th.exe", &g, args).unwrap();
    assert_eq!(c.program, "/p9/proton");
    assert_eq!(c.args, vec!["waitforexitandrun", "/tmp/7th.exe", "/VERYSILENT", "/LOG=x"]);
    assert_eq!(env_of(&c, "STEAM_COMPAT_DATA_PATH").unwrap(), "/s/steamapps/compatdata/39140");
    assert_eq!(env_of(&c, "STEAM_COMPAT_CLIENT_INSTALL_PATH").unwrap(), "/home/u/.steam/root");
    assert_eq!(env_of(&c, "WINEDLLOVERRIDES").unwrap(), "dinput.dll=n,b");
    assert!(c.discard_output);
    let c = launch_exe_in_prefix("a.exe", &g, None).unwrap();
    assert_eq!(c.args.len(), 2);
    let g = game("", Some("/p9/proton"));
    assert!(launch_exe_in_prefix("a.exe", &g, None).is_none());
    let c = prefix_launch_command("a.exe", &g, None, "/data");
    assert_eq!(env_of(&c, "STEAM_COMPAT_DATA_PATH").unwrap(), "/data");
}

#[test]
fn old_launch_in_prefix_uses_prefix_itself() {
    let g = first_gen::SteamGame {
        app_id: 39140,
        name: "FF7".to_string(),
        path: "/s/common/FF7".to_string(),
        prefix: "/s/compatdata/39140/pfx".to_string(),
        client_path: "/c".to_string(),
    };
    let c = first_gen::launch_exe_in_prefix("x.exe", &g, "/proton", &vec!["a".to_string()]);
    assert_eq!(c.program, "/proton");
    assert_eq!(c.args, vec!["waitforexitandrun", "x.exe", "a"]);
    assert_eq!(env_of(&c, "STEAM_COMPAT_DATA_PATH").unwrap(), "/s/compatdata/39140/pfx");
    assert_eq!(first_gen::launch_game(&g).args, vec!["steam://rungameid/39140"]);
    assert_eq!(first_gen::localconfig_glob(&g), "/c/userdata/*/config/localconfig.vdf");
}

#[test]
fn legacy_launch_exe_command() {
    let c = launch_exe("/x/7th.exe", "/p/proton", "/steam");
    assert_eq!(c.program, "/p/proton");
    assert_eq!(c.args, vec!["run", "/x/7th.exe"]);
    assert_eq!(env_of(&c, "STEAM_COMPAT_CLIENT_INSTALL_PATH").unwrap(), "/steam");
    assert!(!c.discard_output);
}

#[test]
fn wipe_guard() {
    let g = game("/s/steamapps/compatdata/39140/pfx", None);
    assert!(prefix_wipe_allowed(&g));
    assert_eq!(wipe_prefix(&g, true), WipeAction::Delete);
    assert_eq!(wipe_prefix(&g, false), WipeAction::Skip);
    let g = game("/home/u", None);
    assert!(!prefix_wipe_allowed(&g));
    assert_eq!(wipe_prefix(&g, false), WipeAction::Skip);
}

#[test]
fn launch_options_patch() {
    let g = game("/p", None);
    let content = "\"UserLocalConfigStore\"\n{\n\t\"apps\"\n\t{\n\t\t\"39140\"\n\t\t{\n\t\t\t\"LastPlayed\"\t\t\"1\"\n\t\t}\n\t}\n}\n";
    let p = launch_options_pattern(39140).unwrap();
    let patched = set_launch_options(&p, content, 39140);
    let expected = "\"UserLocalConfigStore\"\n{\n\t\"apps\"\n\t{\n\t\t\"39140\"\n\t\t\t\t\t{\n\t\t\t\t\t\t\"LaunchOptions\"\t\t\"echo \\\"%command%\\\" | sed 's/waitforexitandrun/run/g' | env WINEDLLOVERRIDES=\\\"dinput=n,b\\\" sh\"\n\t\t\t\"LastPlayed\"\t\t\"1\"\n\t\t}\n\t}\n}\n";
    assert_eq!(patched, expected);
    assert_eq!(set_launch_options(&p, "nothing here", 39140), "nothing here");
    assert_eq!(localconfig_glob(&g), "/home/u/.steam/root/userdata/*/config/localconfig.vdf");
}

#[test]
fn old_launch_options_pattern_is_refused() {
    assert_eq!(first_gen::launch_options_pattern(39140).err(), Some(first_gen::PatchError::InvalidPattern));
}

#[test]
fn runner_patch() {
    let content = "\"InstallConfigStore\"\n{\n\t\"CompatToolMapping\"\n\t{\n\t}\n}";
    let patched = set_runner(content, 39140, "proton_9").unwrap();
    let expected = "\"InstallConfigStore\"\n{\n\t\"CompatToolMapping\"\n\t\t\t\t{\n\t\t\t\t\t\"39140\"\n\t\t\t\t\t{\n\t\t\t\t\t\t\"name\"\t\t\"proton_9\"\n\t\t\t\t\t\t\"config\"\t\t\"\"\n\t\t\t\t\t\t\"priority\"\t\t\"250\"\n\t\t\t\t\t}\n\t}\n}";
    assert_eq!(patched, expected);
    let g = game("/p", None);
    assert_eq!(config_vdf_path(&g), "/home/u/.steam/root/config/config.vdf");
}

#[test]
fn rungameid() {
    let g = game("/p", None);
    let c = launch_game(&g);
    assert_eq!(c.program, "steam");
    assert_eq!(c.args, vec!["steam://rungameid/39140"]);
    assert!(c.discard_output);
}

#[test]
fn library_choice() {
    assert_eq!(
        library_candidates("/home/u"),
        vec!["/home/u/.steam/root", "/home/u/.var/app/com.valvesoftware.Steam/.steam/root"]
    );
    assert_eq!(choose_library("/home/u", true, false), LibraryChoice::Use("/home/u/.steam/root".to_string()));
    assert_eq!(
        choose_library("/home/u/", false, true),
        LibraryChoice::Use("/home/u/.var/app/com.valvesoftware.Steam/.steam/root".to_string())
    );
    assert_eq!(
        choose_library("/h", true, true),
        LibraryChoice::Ask("/h/.steam/root".to_string(), "/h/.var/app/com.valvesoftware.Steam/.steam/root".to_string())
    );
}

#[test]
fn steam_killer_kills_first_steam() {
    let mut k = ProcessKiller::steam();
    let names = vec!["bash".to_string(), "steam".to_string(), "steamwebhelper".to_string(), "steam".to_string()];
    assert_eq!(k.on_scan(names), KillAction::Kill(1));
    assert_eq!(k.on_kill_result(false), KillAction::WaitForUser);
    assert_eq!(k.on_user_continue(), KillAction::Kill(3));
    assert_eq!(k.on_kill_result(false), KillAction::WaitForUser);
    assert_eq!(k.on_user_continue(), KillAction::Scan);
    assert_eq!(k.on_scan(vec!["steam".to_string()]), KillAction::Kill(0));
    assert_eq!(k.on_kill_result(true), KillAction::Finish);
}

#[test]
fn steam_killer_finishes_when_absent() {
    let mut k = ProcessKiller::steam();
    assert_eq!(k.on_scan(vec!["bash".to_string(), "steamwebhelper".to_string()]), KillAction::Finish);
}

#[test]
fn pattern_killer_keeps_looking() {
    let mut k = ProcessKiller::containing("FF7_Launcher");
    assert_eq!(k.on_scan(vec!["bash".to_string()]), KillAction::Scan);
    assert_eq!(k.on_scan(vec!["x".to_string(), "FF7_Launcher.exe".to_string()]), KillAction::Kill(1));
    assert_eq!(k.on_kill_result(true), KillAction::Finish);
}

#[test]
fn nonsteam_plan_native() {
    let p = add_nonsteam_game("/games/7th Heaven/Launch 7th Heaven", "/home/u/.steam/root", 1000).unwrap();
    assert_eq!(p.launch.program, "steam");
    assert_eq!(p.launch.args, vec![p.url.clone()]);
    assert!(p.launch.envs.is_empty());
    assert!(p.launch.discard_output);
    assert!(p.flatpak_override.is_none());
    assert_eq!(p.marker_file, "/tmp/addnonsteamgamefile");
    assert_eq!(p.url, "steam://addnonsteamgame/%2Fgames%2F7th%20Heaven%2FLaunch%207th%20Heaven");
}

#[test]
fn nonsteam_plan_flatpak() {
    let p = add_nonsteam_game("/g/Launch", "/home/u/.var/app/com.valvesoftware.Steam/.steam/root", 1000).unwrap();
    assert_eq!(p.launch.program, "flatpak");
    assert_eq!(p.launch.args, vec!["run".to_string(), "com.valvesoftware.Steam".to_string(), "steam://addnonsteamgame/%2Fg%2FLaunch".to_string()]);
    assert!(p.launch.discard_output);
    assert_eq!(
        p.flatpak_override.unwrap(),
        vec!["override", "--user", "--filesystem=/g", "com.valvesoftware.Steam"]
    );
    assert_eq!(p.marker_file, "/run/user/1000/.flatpak/com.valvesoftware.Steam/tmp/addnonsteamgamefile");
    assert_eq!(add_nonsteam_game("", "/s", 1).unwrap_err(), NonSteamError::NoParent);
}

#[test]
fn nonsteam_url_encodes_utf8() {
    let p = add_nonsteam_game("/é~a.b-c_d", "/s", 0).unwrap();
    assert_eq!(p.url, "steam://addnonsteamgame/%2F%C3%A9~a.b-c_d");
}
