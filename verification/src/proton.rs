//! Proton builds installed through Steam: choosing the newest, listing them, and
//! launching a program with one.
use vstd::prelude::*;

use crate::command::{env_pair, LaunchCommand};
use crate::library_scan::{
    proton_apps, scan, scan_libraries, select_proton_apps, InstalledApp, LibraryRecord, ScanStop,
};
use crate::text::{chars_of, contains_str, has_infix, string_of, words, words_exec};

verus! {

/// A Proton build: its name as shown in Steam and the path of its `proton` launcher.
#[derive(Debug)]
pub struct ProtonVersion {
    pub name: String,
    pub path: String,
}

/// Why no Proton build could be listed, or no library found.
#[derive(Debug, PartialEq, Eq)]
pub enum ProtonError {
    /// No installed app is a Proton build with a launcher.
    NoProtonVersions,
    /// A library could not be read (the reason).
    Library(String),
    /// An app of a library could not be read (the reason).
    App(String),
    /// No library holds the app.
    PrefixNotFound,
}

// ---------------------------------------------------------------------------
// Ranking
// ---------------------------------------------------------------------------

/// `a` is not above `b` in the lexicographic order of pairs.
pub open spec fn rank_le(a: (int, int), b: (int, int)) -> bool {
    a.0 < b.0 || (a.0 == b.0 && a.1 <= b.1)
}

/// Position `i` holds a greatest rank and every later rank is strictly smaller: the
/// element that std's `max_by_key` returns (the last of the greatest).
pub open spec fn is_last_max(ranks: Seq<(int, int)>, i: int) -> bool {
    &&& 0 <= i < ranks.len()
    &&& forall|j: int| 0 <= j < ranks.len() ==> rank_le(#[trigger] ranks[j], ranks[i])
    &&& forall|j: int| i < j < ranks.len() ==> !rank_le(ranks[i], #[trigger] ranks[j])
}

/// The ranks as pairs of mathematical integers.
pub open spec fn widen(rs: Seq<(i64, i64)>) -> Seq<(int, int)> {
    Seq::new(rs.len(), |k: int| (rs[k].0 as int, rs[k].1 as int))
}

/// The position of the last greatest rank.
pub fn last_max_index(ranks: &Vec<(i64, i64)>) -> (r: Option<usize>)
    ensures
        r is None <==> ranks@.len() == 0,
        r matches Some(i) ==> is_last_max(widen(ranks@), i as int),
{
    if ranks.len() == 0 {
        return None;
    }
    let ghost w = widen(ranks@);
    let mut best: usize = 0;
    let mut k: usize = 1;
    while k < ranks.len()
        invariant
            w == widen(ranks@),
            1 <= k <= ranks@.len(),
            best < k,
            forall|j: int| 0 <= j < k ==> rank_le(#[trigger] w[j], w[best as int]),
            forall|j: int| best < j < k ==> !rank_le(w[best as int], #[trigger] w[j]),
        decreases ranks.len() - k,
    {
        let (b0, b1) = ranks[best];
        let (c0, c1) = ranks[k];
        if b0 < c0 || (b0 == c0 && b1 <= c1) {
            best = k;
        }
        k = k + 1;
    }
    Some(best)
}

/// The version word of a Proton build name: its second white-space separated word;
/// `None` when the name has fewer than two words.
pub open spec fn version_word(name: Seq<char>) -> Option<Seq<char>> {
    let ws = words(name);
    if ws.len() >= 2 { Some(ws[1]) } else { None }
}

/// The version word of a build name (see [`version_word`]). What reading it as a
/// number gives is the caller's part: std's `f64` parse, truncated toward zero to an
/// integer (saturating), `None` when the word is not a float literal.
pub fn version_word_of(name: &str) -> (r: Option<String>)
    ensures
        r is Some <==> version_word(name@) is Some,
        r matches Some(w) ==> w@ == version_word(name@)->0,
{
    let cs = chars_of(name);
    let ws = words_exec(cs.as_slice());
    if ws.len() >= 2 {
        Some(string_of(ws[1].as_slice()))
    } else {
        None
    }
}

/// How a Proton build name ranks, given `number`, its version word read as a number
/// (see [`version_word_of`]): that number when there is one; otherwise a version word
/// containing `Experimental` ranks as 2 and one containing `Hotfix` as 1; every other
/// name ranks 0.
pub open spec fn version_rank(name: Seq<char>, number: Option<int>) -> (int, int) {
    match version_word(name) {
        Some(w) => match number {
            Some(n) => (n, 0),
            None => {
                if has_infix(w, "Experimental"@) {
                    (2, 0)
                } else if has_infix(w, "Hotfix"@) {
                    (1, 0)
                } else {
                    (0, 0)
                }
            },
        },
        None => (0, 0),
    }
}

/// The number of an optional machine integer, as a mathematical integer.
pub open spec fn widen_number(number: Option<i64>) -> Option<int> {
    match number {
        Some(n) => Some(n as int),
        None => None,
    }
}

/// The rank of a Proton build name whose version word reads as `number` (see
/// [`version_rank`]).
pub fn version_rank_of(name: &str, number: Option<i64>) -> (r: (i64, i64))
    ensures
        (r.0 as int, r.1 as int) == version_rank(name@, widen_number(number)),
{
    match version_word_of(name) {
        None => (0, 0),
        Some(w) => match number {
            Some(n) => (n, 0),
            None => {
                if contains_str(w.as_str(), "Experimental") {
                    (2, 0)
                } else if contains_str(w.as_str(), "Hotfix") {
                    (1, 0)
                } else {
                    (0, 0)
                }
            },
        },
    }
}

/// The ranks of the builds, in order, the version word of `vs[k]` reading as
/// `numbers[k]`.
pub open spec fn version_ranks(vs: Seq<ProtonVersion>, numbers: Seq<Option<i64>>) -> Seq<(int, int)> {
    Seq::new(vs.len(), |k: int| version_rank(vs[k].name@, widen_number(numbers[k])))
}

/// The newest build: the last of those whose name ranks highest (see [`version_rank`]),
/// where `numbers[k]` is what the version word of `versions[k]` reads as; `None` when
/// there are none.
pub fn find_highest_version<'a>(versions: &'a [ProtonVersion], numbers: &Vec<Option<i64>>) -> (r: Option<&'a ProtonVersion>)
    requires
        numbers@.len() == versions@.len(),
    ensures
        r is None <==> versions@.len() == 0,
        r matches Some(v) ==> exists|i: int|
            is_last_max(version_ranks(versions@, numbers@), i) && *v == #[trigger] versions@[i],
{
    let mut ranks: Vec<(i64, i64)> = Vec::new();
    let mut k: usize = 0;
    while k < versions.len()
        invariant
            k <= versions@.len(),
            numbers@.len() == versions@.len(),
            ranks@.len() == k,
            forall|j: int| 0 <= j < k ==> ((#[trigger] ranks@[j]).0 as int, ranks@[j].1 as int)
                == version_rank(versions@[j].name@, widen_number(numbers@[j])),
        decreases versions.len() - k,
    {
        let rk = version_rank_of(versions[k].name.as_str(), numbers[k]);
        ranks.push(rk);
        k = k + 1;
    }
    proof {
        assert(widen(ranks@) =~= version_ranks(versions@, numbers@));
    }
    match last_max_index(&ranks) {
        None => None,
        Some(i) => Some(&versions[i]),
    }
}

/// The last greatest rank is unique: two positions that both hold it are the same.
pub proof fn law_last_max_unique(r: Seq<(int, int)>, i: int, j: int)
    requires
        is_last_max(r, i),
        is_last_max(r, j),
    ensures
        i == j,
{
    if i < j {
        assert(rank_le(r[i], r[j]));
    } else if j < i {
        assert(rank_le(r[j], r[i]));
    }
}

/// Appending a rank `x`: it becomes the last greatest when the list was empty or when it
/// is at least the previous last greatest; otherwise the previous one stays.
pub proof fn law_last_max_after_push(r: Seq<(int, int)>, x: (int, int), i: int)
    requires
        r.len() > 0 ==> is_last_max(r, i),
    ensures
        r.len() == 0 || rank_le(r[i], x) ==> is_last_max(r.push(x), r.len() as int),
        r.len() > 0 && !rank_le(r[i], x) ==> is_last_max(r.push(x), i),
{
    let q = r.push(x);
    if r.len() > 0 && rank_le(r[i], x) {
        assert forall|j: int| 0 <= j < q.len() implies rank_le(#[trigger] q[j], q[r.len() as int]) by {
            if j < r.len() {
                assert(rank_le(r[j], r[i]));
            }
        }
    }
    if r.len() > 0 && !rank_le(r[i], x) {
        assert forall|j: int| 0 <= j < q.len() implies rank_le(#[trigger] q[j], q[i]) by {
            if j < r.len() {
                assert(rank_le(r[j], r[i]));
            }
        }
    }
}

/// The rank that the newest pick finds does not depend on the order of the input: for
/// two orderings of the same ranks, the last greatest ranks of both are equal (so the
/// newest build of a reordered list ranks as the newest build of the list).
pub proof fn law_highest_rank_ignores_order(a: Seq<(int, int)>, b: Seq<(int, int)>, i: int, j: int)
    requires
        a.to_multiset() == b.to_multiset(),
        is_last_max(a, i),
        is_last_max(b, j),
    ensures
        a[i] == b[j],
{
    broadcast use vstd::seq_lib::group_to_multiset_ensures;
    assert(a.contains(a[i]));
    assert(b.to_multiset().count(a[i]) > 0);
    let k = choose|k: int| 0 <= k < b.len() && b[k] == a[i];
    assert(rank_le(b[k], b[j]));
    assert(b.contains(b[j]));
    assert(a.to_multiset().count(b[j]) > 0);
    let m = choose|m: int| 0 <= m < a.len() && a[m] == b[j];
    assert(rank_le(a[m], a[i]));
}

// ---------------------------------------------------------------------------
// Listing and launching
// ---------------------------------------------------------------------------

/// The Proton builds among the installed apps: every app whose name contains `Proton`
/// and whose `proton` launcher exists, in order. Also returns, in order, the launcher
/// paths of the Proton apps whose launcher is missing (they are reported, not listed).
/// Fails with `NoProtonVersions` when no build is found.
pub fn find_all_versions(apps: &Vec<InstalledApp>) -> (r: (Vec<String>, Result<Vec<ProtonVersion>, ProtonError>))
    requires
        forall|k: int| 0 <= k < apps@.len() ==> (#[trigger] apps@[k]).name is Some,
    ensures
        ({
            let missing = proton_apps(apps@, apps@.len() as int, false);
            &&& r.0@.len() == missing.len()
            &&& forall|k: int| 0 <= k < missing.len()
                ==> (#[trigger] r.0@[k])@ == apps@[missing[k]].proton_path@
        }),
        ({
            let found = proton_apps(apps@, apps@.len() as int, true);
            &&& (r.1 is Err <==> found.len() == 0)
            &&& r.1 is Err ==> r.1 == Err::<Vec<ProtonVersion>, ProtonError>(ProtonError::NoProtonVersions)
            &&& r.1 matches Ok(vs) ==> {
                &&& vs@.len() == found.len()
                &&& forall|k: int| 0 <= k < found.len() ==> {
                    &&& (#[trigger] vs@[k]).name@ == apps@[found[k]].name->0@
                    &&& vs@[k].path@ == apps@[found[k]].proton_path@
                }
            }
        }),
{
    let missing_idx = select_proton_apps(apps, apps.len(), false);
    let found_idx = select_proton_apps(apps, apps.len(), true);
    let mut missing: Vec<String> = Vec::new();
    let mut k: usize = 0;
    while k < missing_idx.len()
        invariant
            k <= missing_idx@.len(),
            missing@.len() == k,
            forall|m: int| 0 <= m < missing_idx@.len() ==> #[trigger] missing_idx@[m] < apps@.len(),
            forall|m: int| 0 <= m < k ==> (#[trigger] missing@[m])@ == apps@[missing_idx@[m] as int].proton_path@,
        decreases missing_idx.len() - k,
    {
        missing.push(apps[missing_idx[k]].proton_path.clone());
        k = k + 1;
    }
    let mut found: Vec<ProtonVersion> = Vec::new();
    let mut k: usize = 0;
    while k < found_idx.len()
        invariant
            k <= found_idx@.len(),
            found@.len() == k,
            forall|m: int| 0 <= m < apps@.len() ==> (#[trigger] apps@[m]).name is Some,
            forall|m: int| 0 <= m < found_idx@.len() ==> #[trigger] found_idx@[m] < apps@.len(),
            forall|m: int| 0 <= m < k ==> {
                &&& (#[trigger] found@[m]).name@ == apps@[found_idx@[m] as int].name->0@
                &&& found@[m].path@ == apps@[found_idx@[m] as int].proton_path@
            },
        decreases found_idx.len() - k,
    {
        let app = &apps[found_idx[k]];
        let name = match &app.name {
            Some(n) => n.clone(),
            None => String::new(),
        };
        found.push(ProtonVersion { name, path: app.proton_path.clone() });
        k = k + 1;
    }
    if found.len() == 0 {
        (missing, Err(ProtonError::NoProtonVersions))
    } else {
        (missing, Ok(found))
    }
}

/// The directory of the library that holds `app_id`: libraries and apps are searched in
/// order and the first library or app that could not be read is the error.
pub fn find_prefix(libs: &Vec<Result<LibraryRecord, String>>, app_id: u32) -> (r: Result<String, ProtonError>)
    ensures
        match scan(libs@, app_id, false) {
            ScanStop::Found(i, _) => r matches Ok(p) && p@ == libs@[i as int]->Ok_0.path@,
            ScanStop::LibraryFailed(i) => r == Err::<String, ProtonError>(ProtonError::Library(libs@[i as int]->Err_0)),
            ScanStop::AppFailed(i, j) => r == Err::<String, ProtonError>(
                ProtonError::App(libs@[i as int]->Ok_0.apps@[j as int]->Err_0)),
            ScanStop::Missing => r == Err::<String, ProtonError>(ProtonError::PrefixNotFound),
        },
{
    match scan_libraries(libs, app_id, false) {
        ScanStop::Found(i, _) => match &libs[i] {
            Ok(lib) => Ok(lib.path.clone()),
            Err(e) => Err(ProtonError::Library(e.clone())),
        },
        ScanStop::LibraryFailed(i) => match &libs[i] {
            Ok(_) => Err(ProtonError::PrefixNotFound),
            Err(e) => Err(ProtonError::Library(e.clone())),
        },
        ScanStop::AppFailed(i, j) => match &libs[i] {
            Ok(lib) => match &lib.apps[j] {
                Ok(_) => Err(ProtonError::PrefixNotFound),
                Err(e) => Err(ProtonError::App(e.clone())),
            },
            Err(e) => Err(ProtonError::Library(e.clone())),
        },
        ScanStop::Missing => Err(ProtonError::PrefixNotFound),
    }
}

/// Running `exe_path` with the Proton launcher `proton_path`: `proton run <exe>`, with
/// `STEAM_COMPAT_CLIENT_INSTALL_PATH` set to the Steam directory and DirectInput
/// loaded natively first.
pub fn launch_exe(exe_path: &str, proton_path: &str, steam_path: &str) -> (c: LaunchCommand)
    ensures
        c.program@ == proton_path@,
        c.envs@.len() == 2,
        c.envs@[0].0@ == "STEAM_COMPAT_CLIENT_INSTALL_PATH"@,
        c.envs@[0].1@ == steam_path@,
        c.envs@[1].0@ == "WINEDLLOVERRIDES"@,
        c.envs@[1].1@ == "dinput.dll=n,b"@,
        c.args@.len() == 2,
        c.args@[0]@ == "run"@,
        c.args@[1]@ == exe_path@,
        !c.discard_output,
{
    let mut envs: Vec<(String, String)> = Vec::new();
    envs.push(env_pair("STEAM_COMPAT_CLIENT_INSTALL_PATH", steam_path));
    envs.push(env_pair("WINEDLLOVERRIDES", "dinput.dll=n,b"));
    let mut args: Vec<String> = Vec::new();
    args.push("run".to_string());
    args.push(exe_path.to_string());
    LaunchCommand { program: proton_path.to_string(), envs, args, discard_output: false }
}

} // verus!
