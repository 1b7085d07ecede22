use seventh_deck::library_scan::InstalledApp;
use seventh_deck::proton::{self as legacy, ProtonVersion};
use seventh_deck::steam_helper::proton::{
    find_all_versions, find_highest_version, runner_name_of, runner_rank_of, runner_version_word_of,
    special_rank_of,
    RunnerError, Runner,
};

fn runner_number(pretty: &str) -> Option<i64> {
    runner_version_word_of(pretty).and_then(|w| w.parse::<f64>().ok()).map(|n| (n * 1000.0) as i64)
}

fn rank(pretty: &str) -> (i64, i64) {
    runner_rank_of(pretty, runner_number(pretty))
}

fn highest(vs: &[Runner]) -> Option<&Runner> {
    let numbers: Vec<Option<i64>> = vs.iter().map(|r| runner_number(&r.pretty_name)).collect();
    find_highest_version(vs, &numbers)
}

fn legacy_number(name: &str) -> Option<i64> {
    legacy::version_word_of(name).and_then(|w| w.parse::<f64>().ok()).map(|n| n as i64)
}

fn legacy_rank(name: &str) -> (i64, i64) {
    legacy::version_rank_of(name, legacy_number(name))
}

fn legacy_highest(vs: &[ProtonVersion]) -> Option<&ProtonVersion> {
    let numbers: Vec<Option<i64>> = vs.iter().map(|v| legacy_number(&v.name)).collect();
    legacy::find_highest_version(vs, &numbers)
}

fn pv(name: &str) -> ProtonVersion {
    ProtonVersion { name: name.to_string(), path: format!("/p/{name}/proton") }
}

#[test]
fn legacy_highest_version_prefers_largest_number() {
    let vs = vec![pv("Proton 7.0"), pv("Proton 8.0"), pv("Proton Experimental"), pv("Proton 5.13")];
    let best = legacy_highest(&vs).unwrap();
    assert_eq!(best.name, "Proton 8.0");
}

#[test]
fn legacy_highest_version_last_of_equal() {
    let vs = vec![pv("Proton 8.0"), pv("Proton 8.9"), pv("Proton 7.0")];
    // 8.0 and 8.9 both truncate to 8: the later one is chosen.
    let best = legacy_highest(&vs).unwrap();
    assert_eq!(best.name, "Proton 8.9");
}

#[test]
fn legacy_highest_version_special_words() {
    let vs = vec![pv("Proton Hotfix"), pv("Proton Experimental"), pv("Proton")];
    assert_eq!(legacy_highest(&vs).unwrap().name, "Proton Experimental");
    let vs = vec![pv("Proton Experimental"), pv("Proton 1.5")];
    // Experimental ranks as 2, above 1.
    assert_eq!(legacy_highest(&vs).unwrap().name, "Proton Experimental");
    assert!(legacy_highest(&[]).is_none());
}

#[test]
fn legacy_version_rank_values() {
    assert_eq!(legacy_rank("Proton 9.0"), (9, 0));
    assert_eq!(legacy_rank("Proton Experimental"), (2, 0));
    assert_eq!(legacy_rank("Proton Hotfix"), (1, 0));
    assert_eq!(legacy_rank("Proton"), (0, 0));
    assert_eq!(legacy_rank("Proton  8.0\tBeta"), (8, 0));
    assert_eq!(legacy_rank("Steam Linux Runtime"), (0, 0));
}

fn runner(pretty: &str) -> Runner {
    Runner { name: runner_name_of(pretty), pretty_name: pretty.to_string(), path: format!("/r/{pretty}/proton") }
}

#[test]
fn runner_rank_values() {
    assert_eq!(rank("Proton 9.0 (Beta)"), (9000, 0));
    assert_eq!(rank("Proton 8.0-5"), (8000, 0));
    assert_eq!(rank("Proton 5.13"), (5130, 0));
    assert_eq!(rank("Proton Experimental"), (0, 2));
    assert_eq!(rank("Proton Hotfix"), (0, 1));
    assert_eq!(rank("Proton EXPERIMENTAL-1"), (0, 2));
    assert_eq!(rank("GE-Proton 9.0"), (0, 0));
    assert_eq!(rank("Proton"), (0, 0));
    assert_eq!(special_rank_of("next-experimental"), (0, 2));
    assert_eq!(special_rank_of("hotfix"), (0, 1));
    assert_eq!(special_rank_of("beta"), (0, 0));
}

#[test]
fn runner_highest_version() {
    let vs = vec![
        runner("Proton Experimental"),
        runner("Proton 9.0 (Beta)"),
        runner("Proton 8.0"),
        runner("Proton Hotfix"),
    ];
    assert_eq!(highest(&vs).unwrap().pretty_name, "Proton 9.0 (Beta)");
    let vs = vec![runner("Proton Hotfix"), runner("Proton Experimental")];
    assert_eq!(highest(&vs).unwrap().pretty_name, "Proton Experimental");
    let vs = vec![runner("Proton 9.0"), runner("Proton 9.0-2")];
    assert_eq!(highest(&vs).unwrap().pretty_name, "Proton 9.0-2");
    assert!(highest(&[]).is_none());
}

#[test]
fn runner_names() {
    assert_eq!(runner_name_of("Proton 9.0 (Beta)"), "proton_9");
    assert_eq!(runner_name_of("Proton Experimental"), "proton_experimental");
    assert_eq!(runner_name_of("Proton 8.0"), "proton_8");
    assert_eq!(runner_name_of("Proton Hotfix"), "proton_hotfix");
}

fn app(name: Option<&str>, bin: bool) -> InstalledApp {
    InstalledApp {
        name: name.map(|s| s.to_string()),
        proton_path: format!("/lib/{}/proton", name.unwrap_or("?")),
        has_proton_bin: bin,
    }
}

#[test]
fn runners_listed_in_order() {
    let apps = vec![
        app(Some("Proton 8.0"), true),
        app(Some("Final Fantasy VII"), false),
        app(Some("Proton 7.0"), false),
        app(Some("Proton Experimental"), true),
    ];
    let (missing, found) = find_all_versions(&apps);
    assert_eq!(missing, vec!["/lib/Proton 7.0/proton".to_string()]);
    let found = found.unwrap();
    assert_eq!(found.len(), 2);
    assert_eq!(found[0].name, "proton_8");
    assert_eq!(found[0].pretty_name, "Proton 8.0");
    assert_eq!(found[0].path, "/lib/Proton 8.0/proton");
    assert_eq!(found[1].name, "proton_experimental");
}

#[test]
fn runners_errors() {
    let apps = vec![app(Some("Proton 7.0"), false), app(None, true), app(Some("Proton 8.0"), true)];
    let (missing, found) = find_all_versions(&apps);
    assert_eq!(missing.len(), 1);
    assert_eq!(found.unwrap_err(), RunnerError::AppNameMissing);
    let apps = vec![app(Some("Half-Life"), true)];
    assert_eq!(find_all_versions(&apps).1.unwrap_err(), RunnerError::NoProtonVersions);
}

#[test]
fn legacy_versions_listed() {
    let apps = vec![app(Some("Proton 8.0"), true), app(Some("Proton 7.0"), false)];
    let (missing, found) = legacy::find_all_versions(&apps);
    assert_eq!(missing, vec!["/lib/Proton 7.0/proton".to_string()]);
    let found = found.unwrap();
    assert_eq!(found.len(), 1);
    assert_eq!(found[0].name, "Proton 8.0");
    let apps = vec![app(Some("Portal"), true)];
    assert_eq!(legacy::find_all_versions(&apps).1.unwrap_err(), legacy::ProtonError::NoProtonVersions);
}

#[test]
fn numeric_versions_rank_first() {
    let small = rank("Proton 0.001");
    assert!(small > rank("Proton Experimental"));
    assert!(small > rank("Proton Hotfix"));
    assert!(rank("Proton 0.0") < rank("Proton Experimental"));
    assert!(rank("Proton 7.0") < rank("Proton 7.01"));
}

#[test]
fn version_words() {
    assert_eq!(runner_version_word_of("Proton 8.0-5 (Beta)"), Some("8.0".to_string()));
    assert_eq!(runner_version_word_of("GE-Proton 9.0"), None);
    assert_eq!(runner_version_word_of("Proton"), None);
    assert_eq!(legacy::version_word_of("Proton  8.0\tBeta"), Some("8.0".to_string()));
    assert_eq!(legacy::version_word_of("Proton"), None);
    assert_eq!(runner_rank_of("Proton 8.0", Some(7999)), (7999, 0));
    assert_eq!(runner_rank_of("Proton Experimental", None), (0, 2));
    assert_eq!(legacy::version_rank_of("Proton 1.0", Some(1)), (1, 0));
}

#[test]
fn ranks_follow_float_reading() {
    // 1.005 * 1000 is 1004.999... as an f64, so both truncate to 1004 and the later wins.
    let vs = vec![runner("Proton 1.005"), runner("Proton 1.0049")];
    assert_eq!(highest(&vs).unwrap().pretty_name, "Proton 1.0049");
    // 0.99999999999999999 reads as the f64 1.0: a tie, and the later wins.
    let vs = vec![pv("Proton 1.0"), pv("Proton 0.99999999999999999")];
    assert_eq!(legacy_highest(&vs).unwrap().name, "Proton 0.99999999999999999");
    assert_eq!(rank("Proton inf"), (i64::MAX, 0));
    assert_eq!(rank("Proton NaN"), (0, 0));
    assert_eq!(rank("Proton 1e1"), (10000, 0));
}

#[test]
fn highest_rank_ignores_order() {
    let a = vec![runner("Proton 8.0"), runner("Proton Experimental"), runner("Proton 9.0")];
    let b = vec![runner("Proton 9.0"), runner("Proton 8.0"), runner("Proton Experimental")];
    assert_eq!(rank(&highest(&a).unwrap().pretty_name), rank(&highest(&b).unwrap().pretty_name));
}

#[test]
fn newest_ignores_name_and_path() {
    let a = vec![runner("Proton 8.0"), runner("Proton 9.0")];
    let b = vec![
        Runner { name: "x".to_string(), pretty_name: "Proton 8.0".to_string(), path: "/a".to_string() },
        Runner { name: "y".to_string(), pretty_name: "Proton 9.0".to_string(), path: "/b".to_string() },
    ];
    assert_eq!(highest(&a).unwrap().pretty_name, highest(&b).unwrap().pretty_name);
    assert_eq!(highest(&b).unwrap().path, "/b");
}

#[test]
fn newest_after_append() {
    let mut v = vec![runner("Proton 9.0"), runner("Proton 8.0")];
    assert_eq!(highest(&v).unwrap().pretty_name, "Proton 9.0");
    v.push(runner("Proton Experimental"));
    assert_eq!(highest(&v).unwrap().pretty_name, "Proton 9.0");
    v.push(runner("Proton 9.0-3"));
    assert_eq!(highest(&v).unwrap().pretty_name, "Proton 9.0-3");
    let single = vec![runner("Proton Hotfix")];
    assert_eq!(highest(&single).unwrap().pretty_name, "Proton Hotfix");
}
