//! Searching the Steam libraries, as they were listed from disk, for an installed app.
use vstd::prelude::*;

use crate::text::{contains_str, has_infix};

verus! {

/// An installed app as listed in a library: its id and, when the manifest has one,
/// its name.
#[derive(Debug)]
pub struct AppRecord {
    pub app_id: u32,
    pub name: Option<String>,
}

/// A Steam library: its directory and its apps, each either read or failed (with the
/// reason).
#[derive(Debug)]
pub struct LibraryRecord {
    pub path: String,
    pub apps: Vec<Result<AppRecord, String>>,
}

/// Where a search of the libraries stopped.
#[derive(Debug, Clone, Copy, PartialEq, Eq)]
pub enum ScanStop {
    /// The app was found: library index, app index.
    Found(usize, usize),
    /// A library could not be read: its index.
    LibraryFailed(usize),
    /// An app of a library could not be read: library index, app index.
    AppFailed(usize, usize),
    /// Every library was searched without finding the app.
    Missing,
}

/// The number of apps listed for library `i` (zero when it failed or is out of range).
pub open spec fn app_count(libs: Seq<Result<LibraryRecord, String>>, i: int) -> int {
    if 0 <= i < libs.len() {
        match libs[i] {
            Ok(lib) => lib.apps@.len() as int,
            Err(_) => 0,
        }
    } else {
        0
    }
}

/// The search for `app_id` from library `i`, app `j` on: libraries and apps are visited
/// in order; a failed library is skipped when `skip_failed_libraries` holds and stops
/// the search otherwise; a failed app stops it; the first app with the id is found.
pub open spec fn scan_from(
    libs: Seq<Result<LibraryRecord, String>>,
    app_id: u32,
    skip_failed_libraries: bool,
    i: int,
    j: int,
) -> ScanStop
    decreases libs.len() - i, app_count(libs, i) - j,
{
    if i < 0 || j < 0 || i >= libs.len() {
        ScanStop::Missing
    } else {
        match libs[i] {
            Err(_) => {
                if skip_failed_libraries {
                    scan_from(libs, app_id, skip_failed_libraries, i + 1, 0)
                } else {
                    ScanStop::LibraryFailed(i as usize)
                }
            },
            Ok(lib) => {
                if j >= lib.apps@.len() {
                    scan_from(libs, app_id, skip_failed_libraries, i + 1, 0)
                } else {
                    match lib.apps@[j] {
                        Err(_) => ScanStop::AppFailed(i as usize, j as usize),
                        Ok(app) => {
                            if app.app_id == app_id {
                                ScanStop::Found(i as usize, j as usize)
                            } else {
                                scan_from(libs, app_id, skip_failed_libraries, i, j + 1)
                            }
                        },
                    }
                }
            },
        }
    }
}

/// The whole search (see [`scan_from`]).
pub open spec fn scan(libs: Seq<Result<LibraryRecord, String>>, app_id: u32, skip_failed_libraries: bool) -> ScanStop {
    scan_from(libs, app_id, skip_failed_libraries, 0, 0)
}

/// Searches `libs` for `app_id` (see [`scan_from`]).
pub fn scan_libraries(libs: &Vec<Result<LibraryRecord, String>>, app_id: u32, skip_failed_libraries: bool) -> (r: ScanStop)
    ensures
        r == scan(libs@, app_id, skip_failed_libraries),
        r matches ScanStop::Found(i, j) ==> {
            &&& i < libs@.len()
            &&& libs@[i as int] is Ok
            &&& j < libs@[i as int]->Ok_0.apps@.len()
            &&& libs@[i as int]->Ok_0.apps@[j as int] is Ok
            &&& libs@[i as int]->Ok_0.apps@[j as int]->Ok_0.app_id == app_id
        },
        r matches ScanStop::LibraryFailed(i) ==> i < libs@.len() && libs@[i as int] is Err,
        r matches ScanStop::AppFailed(i, j) ==> {
            &&& i < libs@.len()
            &&& libs@[i as int] is Ok
            &&& j < libs@[i as int]->Ok_0.apps@.len()
            &&& libs@[i as int]->Ok_0.apps@[j as int] is Err
        },
{
    let mut i: usize = 0;
    while i < libs.len()
        invariant
            i <= libs@.len(),
            scan_from(libs@, app_id, skip_failed_libraries, i as int, 0) == scan(libs@, app_id, skip_failed_libraries),
        decreases libs.len() - i,
    {
        match &libs[i] {
            Err(_) => {
                if !skip_failed_libraries {
                    return ScanStop::LibraryFailed(i);
                }
            },
            Ok(lib) => {
                let mut j: usize = 0;
                while j < lib.apps.len()
                    invariant
                        i < libs@.len(),
                        libs@[i as int] == Ok::<LibraryRecord, String>(*lib),
                        j <= lib.apps@.len(),
                        scan_from(libs@, app_id, skip_failed_libraries, i as int, j as int) == scan(libs@, app_id, skip_failed_libraries),
                    decreases lib.apps.len() - j,
                {
                    match &lib.apps[j] {
                        Err(_) => {
                            return ScanStop::AppFailed(i, j);
                        },
                        Ok(app) => {
                            if app.app_id == app_id {
                                return ScanStop::Found(i, j);
                            }
                        },
                    }
                    j = j + 1;
                }
            },
        }
        i = i + 1;
    }
    ScanStop::Missing
}

/// Position `(i, j)` comes before `(i2, j2)`: an earlier library, or an earlier app of
/// the same library.
pub open spec fn before(i: int, j: int, i2: int, j2: int) -> bool {
    i < i2 || (i == i2 && j < j2)
}

/// Position `(i, j)` is where a search for `app_id` must stop: app `j` of the readable
/// library `i` has the id or could not be read, or (`j` being 0) library `i` could not
/// be read and failed libraries are not skipped.
pub open spec fn stops_search(libs: Seq<Result<LibraryRecord, String>>, app_id: u32, skip_failed_libraries: bool, i: int, j: int) -> bool {
    &&& 0 <= i < libs.len()
    &&& match libs[i] {
        Err(_) => !skip_failed_libraries && j == 0,
        Ok(lib) => 0 <= j < lib.apps@.len() && match lib.apps@[j] {
            Err(_) => true,
            Ok(app) => app.app_id == app_id,
        },
    }
}

/// App `j` of library `i` is readable and has the id `app_id`.
pub open spec fn holds_app(libs: Seq<Result<LibraryRecord, String>>, app_id: u32, i: int, j: int) -> bool {
    &&& 0 <= i < libs.len()
    &&& libs[i] is Ok
    &&& 0 <= j < libs[i]->Ok_0.apps@.len()
    &&& libs[i]->Ok_0.apps@[j] is Ok
    &&& libs[i]->Ok_0.apps@[j]->Ok_0.app_id == app_id
}

/// No position from `(i, j)` on and before `(a, b)` stops the search.
pub open spec fn no_stop_between(
    libs: Seq<Result<LibraryRecord, String>>,
    app_id: u32,
    skip_failed_libraries: bool,
    i: int,
    j: int,
    a: int,
    b: int,
) -> bool {
    forall|i2: int, j2: int|
        #[trigger] stops_search(libs, app_id, skip_failed_libraries, i2, j2) && !before(i2, j2, i, j)
            ==> !before(i2, j2, a, b)
}

/// The outcome of a search from `(i, j)` is the first position from there on that
/// stops it, or `Missing` when there is none.
pub open spec fn first_stop_outcome(
    libs: Seq<Result<LibraryRecord, String>>,
    app_id: u32,
    skip_failed_libraries: bool,
    i: int,
    j: int,
    r: ScanStop,
) -> bool {
    match r {
        ScanStop::Found(a, b) => {
            &&& holds_app(libs, app_id, a as int, b as int)
            &&& !before(a as int, b as int, i, j)
            &&& no_stop_between(libs, app_id, skip_failed_libraries, i, j, a as int, b as int)
        },
        ScanStop::AppFailed(a, b) => {
            &&& stops_search(libs, app_id, skip_failed_libraries, a as int, b as int)
            &&& libs[a as int] is Ok
            &&& libs[a as int]->Ok_0.apps@[b as int] is Err
            &&& !before(a as int, b as int, i, j)
            &&& no_stop_between(libs, app_id, skip_failed_libraries, i, j, a as int, b as int)
        },
        ScanStop::LibraryFailed(a) => {
            &&& stops_search(libs, app_id, skip_failed_libraries, a as int, 0)
            &&& libs[a as int] is Err
            &&& !before(a as int, 0, i, j)
            &&& no_stop_between(libs, app_id, skip_failed_libraries, i, j, a as int, 0)
        },
        ScanStop::Missing => forall|i2: int, j2: int|
            #[trigger] stops_search(libs, app_id, skip_failed_libraries, i2, j2) ==> before(i2, j2, i, j),
    }
}

proof fn lemma_scan_from_first_stop(
    libs: Seq<Result<LibraryRecord, String>>,
    app_id: u32,
    skip_failed_libraries: bool,
    i: int,
    j: int,
)
    requires
        0 <= i,
        0 <= j,
        i < libs.len() && libs[i] is Err ==> j == 0,
        libs.len() <= usize::MAX,
        forall|k: int| 0 <= k < libs.len() && #[trigger] libs[k] is Ok ==> libs[k]->Ok_0.apps@.len() <= usize::MAX,
    ensures
        first_stop_outcome(libs, app_id, skip_failed_libraries, i, j, scan_from(libs, app_id, skip_failed_libraries, i, j)),
    decreases libs.len() - i, app_count(libs, i) - j,
{
    if i >= libs.len() {
        return;
    }
    match libs[i] {
        Err(_) => {
            if skip_failed_libraries {
                lemma_scan_from_first_stop(libs, app_id, skip_failed_libraries, i + 1, 0);
            }
        },
        Ok(lib) => {
            if j >= lib.apps@.len() {
                lemma_scan_from_first_stop(libs, app_id, skip_failed_libraries, i + 1, 0);
            } else {
                match lib.apps@[j] {
                    Err(_) => {},
                    Ok(app) => {
                        if app.app_id != app_id {
                            lemma_scan_from_first_stop(libs, app_id, skip_failed_libraries, i, j + 1);
                        }
                    },
                }
            }
        },
    }
}

/// The search for an app stops at the first position, in library order and then app
/// order, where it must stop: it finds the first readable app with the id unless an
/// unreadable app (or, when failed libraries are not skipped, an unreadable library)
/// comes before it; a readable library without the app never ends the search; and it
/// reports `Missing` only when no library holds the app and nothing failed on the way.
/// In particular, when a readable app with the id comes before every other stop, the
/// search finds exactly that app.
pub proof fn law_scan_finds_first_stop(libs: Seq<Result<LibraryRecord, String>>, app_id: u32, skip_failed_libraries: bool)
    requires
        libs.len() <= usize::MAX,
        forall|k: int| 0 <= k < libs.len() && #[trigger] libs[k] is Ok ==> libs[k]->Ok_0.apps@.len() <= usize::MAX,
    ensures
        first_stop_outcome(libs, app_id, skip_failed_libraries, 0, 0, scan(libs, app_id, skip_failed_libraries)),
        forall|a: int, b: int| #[trigger] holds_app(libs, app_id, a, b)
            && no_stop_between(libs, app_id, skip_failed_libraries, 0, 0, a, b)
            ==> scan(libs, app_id, skip_failed_libraries) == ScanStop::Found(a as usize, b as usize),
{
    lemma_scan_from_first_stop(libs, app_id, skip_failed_libraries, 0, 0);
    let r = scan(libs, app_id, skip_failed_libraries);
    assert forall|a: int, b: int| #[trigger] holds_app(libs, app_id, a, b)
        && no_stop_between(libs, app_id, skip_failed_libraries, 0, 0, a, b)
        implies r == ScanStop::Found(a as usize, b as usize) by {
        assert(stops_search(libs, app_id, skip_failed_libraries, a, b));
        match r {
            ScanStop::Found(a2, b2) => {
                assert(stops_search(libs, app_id, skip_failed_libraries, a2 as int, b2 as int));
                assert(!before(a2 as int, b2 as int, a, b));
                assert(!before(a, b, a2 as int, b2 as int));
            },
            ScanStop::AppFailed(a2, b2) => {
                assert(!before(a2 as int, b2 as int, a, b));
                assert(!before(a, b, a2 as int, b2 as int));
            },
            ScanStop::LibraryFailed(a2) => {
                assert(!before(a2 as int, 0, a, b));
                assert(!before(a, b, a2 as int, 0));
            },
            ScanStop::Missing => {
                assert(before(a, b, 0, 0));
            },
        }
    }
}

/// An installed app as seen when looking for Proton builds: its name (when the
/// manifest has one), the path of the `proton` launcher in its directory, and whether
/// that launcher exists as a file.
#[derive(Debug)]
pub struct InstalledApp {
    pub name: Option<String>,
    pub proton_path: String,
    pub has_proton_bin: bool,
}

/// The app is named and its name contains `Proton`.
pub open spec fn is_proton_app(a: InstalledApp) -> bool {
    a.name matches Some(n) && has_infix(n@, "Proton"@)
}

/// The indices, in order, of the first `n` apps that are Proton apps whose launcher
/// exists (`with_bin`) or is missing (`!with_bin`).
pub open spec fn proton_apps(apps: Seq<InstalledApp>, n: int, with_bin: bool) -> Seq<int>
    decreases n,
{
    if n <= 0 || n > apps.len() {
        seq![]
    } else {
        let s = proton_apps(apps, n - 1, with_bin);
        if is_proton_app(apps[n - 1]) && apps[n - 1].has_proton_bin == with_bin {
            s.push(n - 1)
        } else {
            s
        }
    }
}

proof fn lemma_proton_apps_bounds(apps: Seq<InstalledApp>, n: int, with_bin: bool)
    requires
        0 <= n <= apps.len(),
    ensures
        forall|k: int| 0 <= k < proton_apps(apps, n, with_bin).len()
            ==> 0 <= #[trigger] proton_apps(apps, n, with_bin)[k] < n,
    decreases n,
{
    if n > 0 {
        lemma_proton_apps_bounds(apps, n - 1, with_bin);
        let s = proton_apps(apps, n - 1, with_bin);
        assert forall|k: int| 0 <= k < proton_apps(apps, n, with_bin).len()
            implies 0 <= #[trigger] proton_apps(apps, n, with_bin)[k] < n by {
            if k < s.len() {
                assert(s[k] < n - 1);
            }
        }
    }
}

/// The indices, among the first `upto` apps, of the Proton apps whose launcher exists
/// (`with_bin`) or is missing.
pub fn select_proton_apps(apps: &Vec<InstalledApp>, upto: usize, with_bin: bool) -> (r: Vec<usize>)
    requires
        upto <= apps@.len(),
    ensures
        r@.len() == proton_apps(apps@, upto as int, with_bin).len(),
        forall|k: int| 0 <= k < r@.len()
            ==> #[trigger] r@[k] as int == proton_apps(apps@, upto as int, with_bin)[k],
        forall|k: int| 0 <= k < r@.len() ==> #[trigger] r@[k] < upto,
{
    let mut r: Vec<usize> = Vec::new();
    let mut i: usize = 0;
    while i < upto
        invariant
            i <= upto <= apps@.len(),
            r@.len() == proton_apps(apps@, i as int, with_bin).len(),
            forall|k: int| 0 <= k < r@.len()
                ==> #[trigger] r@[k] as int == proton_apps(apps@, i as int, with_bin)[k],
        decreases upto - i,
    {
        let pick = match &apps[i].name {
            Some(n) => contains_str(n.as_str(), "Proton") && apps[i].has_proton_bin == with_bin,
            None => false,
        };
        if pick {
            r.push(i);
        }
        i = i + 1;
    }
    proof {
        lemma_proton_apps_bounds(apps@, upto as int, with_bin);
    }
    r
}

} // verus!
