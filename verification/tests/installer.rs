use seventh_deck::config_handler::{lookup_string, read_value, ConfigError, TomlEntry};
use seventh_deck::dialog::{prompt_ok, which_dialog};
use seventh_deck::installer::{
    banner, center_exec, install_args, InstallPathPicker, InstallPathStep, lines_of, pad_right_exec, patch_settings, release_url,
    select_download, DownloadError, ReleaseAsset,
};
use seventh_deck::resource_handler::{as_bytes, as_str};
use seventh_deck::steam_helper::proton::runner_name_of;
use seventh_deck::steam_helper::{add_nonsteam_game, NonSteamError};
use seventh_deck::text::{before_first_exec, decimal_string, join, replace_str, str_eq, words_exec};

#[test]
fn text_helpers() {
    assert_eq!(decimal_string(0), "0");
    assert_eq!(decimal_string(39140), "39140");
    assert_eq!(decimal_string(u32::MAX), "4294967295");
    assert_eq!(join("/a", "b"), "/a/b");
    assert_eq!(join("/a/", "b"), "/a/b");
    assert_eq!(join("", "b"), "b");
    assert_eq!(join("/a", "/b"), "/b");
    assert_eq!(replace_str("a/b/c", "/", "\\"), "a\\b\\c");
    assert_eq!(replace_str("aaa", "aa", "b"), "ba");
    let ws = words_exec(&" Proton\t9.0  x ".chars().collect::<Vec<_>>());
    assert_eq!(ws.len(), 3);
    assert_eq!(ws[1], vec!['9', '.', '0']);
    assert_eq!(before_first_exec(&['8', '.', '0', '-', '5'], '-'), vec!['8', '.', '0']);
    assert_eq!(runner_name_of("Proton EXP"), "proton_exp");
    assert!(str_eq("abc", "abc"));
    assert!(!str_eq("abc", "abd"));
}

fn filesystem_arg(file: &str) -> Result<String, NonSteamError> {
    add_nonsteam_game(file, "/h/.var/app/com.valvesoftware.Steam/.steam/root", 0)
        .map(|p| p.flatpak_override.unwrap()[2].clone())
}

#[test]
fn parent_and_url_encoding() {
    assert_eq!(filesystem_arg("/a/b/pfx"), Ok("--filesystem=/a/b".to_string()));
    assert_eq!(filesystem_arg("pfx"), Ok("--filesystem=".to_string()));
    assert_eq!(filesystem_arg("/").unwrap_err(), NonSteamError::NoParent);
    assert_eq!(filesystem_arg("").unwrap_err(), NonSteamError::NoParent);
    assert_eq!(add_nonsteam_game("A b", "/s", 0).unwrap().url, "steam://addnonsteamgame/A%20b");
}

#[test]
fn config_lookup() {
    let text = "steam_dir = \"/home/u/.steam/root\"\nrunner = \"proton_9\"\ncount = 3\n";
    assert_eq!(read_value(text, "steam_dir").unwrap(), "/home/u/.steam/root");
    assert_eq!(read_value(text, "runner").unwrap(), "proton_9");
    assert_eq!(read_value(text, "count").unwrap_err(), ConfigError::NotString("count".to_string()));
    assert_eq!(read_value(text, "missing").unwrap_err(), ConfigError::KeyMissing("missing".to_string()));
    assert_eq!(read_value("= not toml", "x").unwrap_err(), ConfigError::Deserialize);
    let entries = vec![
        TomlEntry { key: "a".to_string(), text: None },
        TomlEntry { key: "b".to_string(), text: Some("B".to_string()) },
    ];
    assert_eq!(lookup_string(&entries, "b").unwrap(), "B");
    assert_eq!(lookup_string(&entries, "a").unwrap_err(), ConfigError::NotString("a".to_string()));
}

#[test]
fn config_round_trip() {
    let settings = vec![
        ("steam_dir".to_string(), "/home/u/.steam/root".to_string()),
        ("runner".to_string(), "proton_9".to_string()),
    ];
    let text = seventh_deck::config_handler::write(&settings).unwrap();
    assert_eq!(read_value(&text, "steam_dir").unwrap(), "/home/u/.steam/root");
    assert_eq!(read_value(&text, "runner").unwrap(), "proton_9");
}

#[test]
fn dialogs() {
    assert_eq!(prompt_ok("kdialog", "Hi"), vec!["--msgbox", "Hi"]);
    assert_eq!(prompt_ok("zenity", "Hi"), vec!["--info", "--text=Hi"]);
    assert_eq!(prompt_ok("dialog", "Hi"), vec!["--msgbox", "Hi", "10", "60"]);
    assert_eq!(which_dialog(true, true), "kdialog");
    assert_eq!(which_dialog(false, true), "zenity");
    assert_eq!(which_dialog(false, false), "dialog");
}

#[test]
fn resource_files() {
    let f = as_str("settings.xml".to_string(), "/i/7thWorkshop", "<x/>");
    assert_eq!(f.destination, "/i/7thWorkshop/settings.xml");
    assert_eq!(f.contents, "<x/>");
    let b = as_bytes("timeout.exe".to_string(), "/p/drive_c/windows/system32", &[1, 2, 3]);
    assert_eq!(b.destination, "/p/drive_c/windows/system32/timeout.exe");
    assert_eq!(b.contents, vec![1, 2, 3]);
    assert_eq!(b.name, "timeout.exe");
}

#[test]
fn padding_and_lines() {
    assert_eq!(pad_right_exec("ab", 5), "ab   ");
    assert_eq!(pad_right_exec("abcdef", 3), "abcdef");
    assert_eq!(center_exec("ab", 7), "  ab   ");
    assert_eq!(center_exec("abc", 7), "  abc  ");
    assert_eq!(lines_of("a\nb\r\nc"), vec!["a", "b", "c"]);
    assert_eq!(lines_of("a\n"), vec!["a"]);
    assert_eq!(lines_of("a\n\nb\r"), vec!["a", "", "b\r"]);
    assert!(lines_of("").is_empty());
}

#[test]
fn welcome_banner() {
    let description = vec!["This script will:".to_string(), "1. Do things".to_string()];
    let b = banner("Welcome", &description, "For support, ask in the channel of the Discord");
    assert_eq!(b.width, 25);
    assert_eq!(b.description[0], "    This script will:    ");
    assert_eq!(b.description[1], "    1. Do things         ");
    assert_eq!(b.title, "         Welcome         ");
    assert_eq!(b.top.chars().count(), 29);
    assert!(b.top.starts_with('┏') && b.top.ends_with('┓'));
    assert!(b.middle.starts_with('┣'));
    assert!(b.bottom.ends_with('┛'));
    assert_eq!(b.footer.len(), 2);
    assert_eq!(b.footer[0], "For support, ask in the  ");
    assert_eq!(b.footer[1], "channel of the Discord   ");
    for line in b.description.iter().chain(b.footer.iter()) {
        assert_eq!(line.chars().count(), 25);
    }
}

#[test]
fn release_download() {
    assert_eq!(release_url("tsunamods-codes/7th-Heaven"), "https://api.github.com/repos/tsunamods-codes/7th-Heaven/releases/latest");
    let assets = Some(vec![
        ReleaseAsset { name: Some("notes.txt".to_string()), download_url: Some("u1".to_string()), size: Some(1) },
        ReleaseAsset { name: None, download_url: Some("u2".to_string()), size: Some(2) },
        ReleaseAsset { name: Some("7thHeaven.exe".to_string()), download_url: Some("u3".to_string()), size: None },
        ReleaseAsset { name: Some("other.exe".to_string()), download_url: Some("u4".to_string()), size: Some(4) },
    ]);
    let d = select_download(&assets, "/home/u/.cache").unwrap();
    assert_eq!(d.name, "7thHeaven.exe");
    assert_eq!(d.url, "u3");
    assert_eq!(d.size, 0);
    assert_eq!(d.file_path, "/home/u/.cache/7thHeaven.exe");
    assert_eq!(select_download(&None, "/c").unwrap_err(), DownloadError::NoAssets);
    let none = Some(vec![ReleaseAsset { name: Some("a.zip".to_string()), download_url: None, size: None }]);
    assert_eq!(select_download(&none, "/c").unwrap_err(), DownloadError::NoExeAsset);
    let nourl = Some(vec![ReleaseAsset { name: Some("a.exe".to_string()), download_url: None, size: Some(3) }]);
    assert_eq!(select_download(&nourl, "/c").unwrap_err(), DownloadError::NoDownloadUrl);
}

#[test]
fn setup_arguments() {
    assert_eq!(
        install_args("/home/u/Games/7th Heaven", "7thHeaven.log"),
        vec!["/VERYSILENT", "/DIR=Z:\\home\\u\\Games\\7th Heaven", "/LOG=7thHeaven.log"]
    );
}

#[test]
fn settings_patch() {
    let template = "<Library>LIBRARY_LOCATION</Library><Exe>FF7_EXE</Exe><Again>FF7_EXE</Again>";
    let out = patch_settings(template, "/home/u/7th", "/s/steamapps/common/FINAL FANTASY VII");
    assert_eq!(
        out,
        "<Library>Z:\\home\\u\\7th\\mods</Library><Exe>Z:\\s\\steamapps\\common\\FINAL FANTASY VII\\ff7_en.exe</Exe><Again>Z:\\s\\steamapps\\common\\FINAL FANTASY VII\\ff7_en.exe</Again>"
    );
}

#[test]
fn install_path_picker_loop() {
    let mut p = InstallPathPicker::new();
    assert_eq!(p.on_folder(None), InstallPathStep::PickFolder);
    assert_eq!(p.on_folder(Some("/games/7th".to_string())), InstallPathStep::Confirm("/games/7th".to_string()));
    assert_eq!(p.on_answer(1), InstallPathStep::PickFolder);
    // Nothing is pending after an answer: a stray answer opens the dialog again.
    assert_eq!(p.on_answer(0), InstallPathStep::PickFolder);
    assert_eq!(p.on_folder(Some("/mnt/7th".to_string())), InstallPathStep::Confirm("/mnt/7th".to_string()));
    assert_eq!(p.on_answer(0), InstallPathStep::Install("/mnt/7th".to_string()));
}
