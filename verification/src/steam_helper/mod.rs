//! Steam: finding the installation, stopping it, and adding a non-Steam game.
use vstd::prelude::*;

use crate::command::{string_views, LaunchCommand};
use crate::text::{
    concat, contains_str, decimal, decimal_string, has_infix, join, join_path, parent_path,
    path_parent, percent_encode, url_encode,
};

pub mod game;
pub mod proton;

verus! {

// ---------------------------------------------------------------------------
// The Steam installation
// ---------------------------------------------------------------------------

/// The native Steam directory under the home directory.
pub open spec fn native_library(home: Seq<char>) -> Seq<char> {
    join_path(home, ".steam/root"@)
}

/// The Flatpak Steam directory under the home directory.
pub open spec fn flatpak_library(home: Seq<char>) -> Seq<char> {
    join_path(home, ".var/app/com.valvesoftware.Steam/.steam/root"@)
}

/// The Steam directories that may exist, in order: native, then Flatpak.
pub fn library_candidates(home: &str) -> (v: Vec<String>)
    ensures
        string_views(v@) == seq![native_library(home@), flatpak_library(home@)],
{
    let mut v: Vec<String> = Vec::new();
    v.push(join(home, ".steam/root"));
    v.push(join(home, ".var/app/com.valvesoftware.Steam/.steam/root"));
    proof {
        assert(string_views(v@) =~= seq![native_library(home@), flatpak_library(home@)]);
    }
    v
}

/// Which Steam directory to use.
#[derive(Debug, PartialEq, Eq)]
pub enum LibraryChoice {
    /// The only one that exists.
    Use(String),
    /// Both exist: the user picks the native (first) or the Flatpak (second) one.
    Ask(String, String),
}

/// The Steam directory to use, given which of the two candidates exist: the one that
/// exists, or a choice between both. At least one must exist.
pub fn choose_library(home: &str, native_exists: bool, flatpak_exists: bool) -> (c: LibraryChoice)
    requires
        native_exists || flatpak_exists,
    ensures
        native_exists && !flatpak_exists ==> (c matches LibraryChoice::Use(p) && p@ == native_library(home@)),
        !native_exists && flatpak_exists ==> (c matches LibraryChoice::Use(p) && p@ == flatpak_library(home@)),
        native_exists && flatpak_exists ==> (c matches LibraryChoice::Ask(a, b)
            && a@ == native_library(home@) && b@ == flatpak_library(home@)),
{
    let native = join(home, ".steam/root");
    let flatpak = join(home, ".var/app/com.valvesoftware.Steam/.steam/root");
    if native_exists && flatpak_exists {
        LibraryChoice::Ask(native, flatpak)
    } else if native_exists {
        LibraryChoice::Use(native)
    } else {
        LibraryChoice::Use(flatpak)
    }
}

// ---------------------------------------------------------------------------
// Stopping processes
// ---------------------------------------------------------------------------

/// What the process-stopping loop asks its driver to do next.
#[derive(Debug, PartialEq, Eq)]
pub enum KillAction {
    /// List the running processes and report their names with `on_scan`.
    Scan,
    /// Kill the process at this position of the last listing and report with
    /// `on_kill_result`.
    Kill(usize),
    /// Ask the user to stop the process by hand and report with `on_user_continue`.
    WaitForUser,
    /// Done.
    Finish,
}

/// The loop that stops a process: each listing of the running processes is searched in
/// order for processes whose name is `target` (`exact`) or contains it; each match is
/// killed in turn; a successful kill ends the loop; after a failed kill the user is
/// asked to stop it and the search goes on. When a listing is exhausted the processes
/// are listed again, unless no process matched and `stop_when_absent` holds, which ends
/// the loop.
#[derive(Debug)]
pub struct ProcessKiller {
    pub target: String,
    pub exact: bool,
    pub stop_when_absent: bool,
    pub names: Vec<String>,
    pub next: usize,
    pub seen: bool,
}

/// Whether a process name is a target of the loop.
pub open spec fn is_target(name: Seq<char>, target: Seq<char>, exact: bool) -> bool {
    if exact { name == target } else { has_infix(name, target) }
}

/// The first position at or after `from` of a target process (or the count of names).
pub open spec fn next_target(names: Seq<String>, from: int, target: Seq<char>, exact: bool) -> int
    decreases names.len() - from,
{
    if from < 0 || from >= names.len() {
        names.len() as int
    } else if is_target(names[from]@, target, exact) {
        from
    } else {
        next_target(names, from + 1, target, exact)
    }
}

proof fn lemma_next_target(names: Seq<String>, from: int, target: Seq<char>, exact: bool)
    requires
        0 <= from <= names.len(),
    ensures
        from <= next_target(names, from, target, exact) <= names.len(),
    decreases names.len() - from,
{
    if from < names.len() && !is_target(names[from]@, target, exact) {
        lemma_next_target(names, from + 1, target, exact);
    }
}

/// The step taken from position `from` of the listing: kill the next target, or, when
/// none is left, list again or finish.
pub open spec fn advance_ok(old: ProcessKiller, new: ProcessKiller, a: KillAction) -> bool {
    let k = next_target(old.names@, old.next as int, old.target@, old.exact);
    &&& new.target == old.target
    &&& new.exact == old.exact
    &&& new.stop_when_absent == old.stop_when_absent
    &&& new.names == old.names
    &&& if k < old.names@.len() {
        &&& a == KillAction::Kill(k as usize)
        &&& new.next == k + 1
        &&& new.seen
    } else {
        &&& a == (if old.seen || !old.stop_when_absent { KillAction::Scan } else { KillAction::Finish })
        &&& new.next == old.next
        &&& new.seen == old.seen
    }
}

impl ProcessKiller {
    /// The loop that stops Steam: processes named exactly `steam`, finishing when none
    /// is running.
    pub fn steam() -> (k: ProcessKiller)
        ensures
            k.target@ == "steam"@,
            k.exact,
            k.stop_when_absent,
            k.names@.len() == 0,
            k.next == 0,
            !k.seen,
    {
        ProcessKiller {
            target: "steam".to_string(),
            exact: true,
            stop_when_absent: true,
            names: Vec::new(),
            next: 0,
            seen: false,
        }
    }

    /// The loop that stops a process whose name contains `pattern`, listing the
    /// processes again until one is stopped.
    pub fn containing(pattern: &str) -> (k: ProcessKiller)
        ensures
            k.target@ == pattern@,
            !k.exact,
            !k.stop_when_absent,
            k.names@.len() == 0,
            k.next == 0,
            !k.seen,
    {
        ProcessKiller {
            target: pattern.to_string(),
            exact: false,
            stop_when_absent: false,
            names: Vec::new(),
            next: 0,
            seen: false,
        }
    }

    fn advance(&mut self) -> (a: KillAction)
        requires
            old(self).next <= old(self).names@.len(),
        ensures
            advance_ok(*old(self), *final(self), a),
            final(self).next <= final(self).names@.len(),
    {
        let mut k = self.next;
        proof {
            lemma_next_target(self.names@, k as int, self.target@, self.exact);
        }
        while k < self.names.len()
            invariant
                *self == *old(self),
                self.next <= k <= self.names@.len(),
                next_target(self.names@, k as int, self.target@, self.exact)
                    == next_target(self.names@, self.next as int, self.target@, self.exact),
            decreases self.names.len() - k,
        {
            let hit = if self.exact {
                self.names[k] == self.target
            } else {
                contains_str(self.names[k].as_str(), self.target.as_str())
            };
            if hit {
                self.next = k + 1;
                self.seen = true;
                return KillAction::Kill(k);
            }
            k = k + 1;
        }
        if self.seen || !self.stop_when_absent {
            KillAction::Scan
        } else {
            KillAction::Finish
        }
    }

    /// A new listing of the running process names: the search starts over on it.
    pub fn on_scan(&mut self, names: Vec<String>) -> (a: KillAction)
        ensures
            ({
                let fresh = ProcessKiller {
                    target: old(self).target,
                    exact: old(self).exact,
                    stop_when_absent: old(self).stop_when_absent,
                    names: names,
                    next: 0,
                    seen: false,
                };
                advance_ok(fresh, *final(self), a)
            }),
    {
        self.names = names;
        self.next = 0;
        self.seen = false;
        self.advance()
    }

    /// The outcome of the last kill: success finishes, failure asks the user.
    pub fn on_kill_result(&mut self, killed: bool) -> (a: KillAction)
        ensures
            a == (if killed { KillAction::Finish } else { KillAction::WaitForUser }),
            *final(self) == *old(self),
    {
        if killed { KillAction::Finish } else { KillAction::WaitForUser }
    }

    /// The user has been asked to stop the process by hand: the search goes on.
    pub fn on_user_continue(&mut self) -> (a: KillAction)
        ensures
            old(self).next <= old(self).names@.len() ==> advance_ok(*old(self), *final(self), a),
            old(self).next > old(self).names@.len() ==> a == KillAction::Scan && *final(self) == *old(self),
    {
        if self.next > self.names.len() {
            return KillAction::Scan;
        }
        self.advance()
    }
}

/// When no target lies at or after `from`, none of the names from `from` on is a target.
proof fn lemma_no_target_left(names: Seq<String>, from: int, target: Seq<char>, exact: bool)
    requires
        0 <= from <= names.len(),
        next_target(names, from, target, exact) == names.len(),
    ensures
        forall|i: int| from <= i < names.len() ==> !is_target(#[trigger] names[i]@, target, exact),
    decreases names.len() - from,
{
    if from < names.len() {
        lemma_no_target_left(names, from + 1, target, exact);
    }
}

/// The process-stopping loop never gives up on a process that is running: a step of the
/// search ends the loop only for a loop that stops when the process is absent, only when
/// no process of the current listing has matched, and only when none of the names left
/// to search is a target. (Otherwise it kills a target or lists the processes again;
/// after a kill it ends only on success, see `on_kill_result`.)
pub proof fn law_kill_loop_finishes_only_when_absent(old: ProcessKiller, new: ProcessKiller)
    requires
        old.next <= old.names@.len(),
        advance_ok(old, new, KillAction::Finish),
    ensures
        old.stop_when_absent,
        !old.seen,
        forall|i: int| old.next <= i < old.names@.len()
            ==> !is_target(#[trigger] old.names@[i]@, old.target@, old.exact),
{
    lemma_next_target(old.names@, old.next as int, old.target@, old.exact);
    let k = next_target(old.names@, old.next as int, old.target@, old.exact);
    if k < old.names@.len() {
        assert(KillAction::Finish != KillAction::Kill(k as usize));
    } else {
        lemma_no_target_left(old.names@, old.next as int, old.target@, old.exact);
    }
}

// ---------------------------------------------------------------------------
// Adding a non-Steam game
// ---------------------------------------------------------------------------

/// How to add a program to Steam as a non-Steam game.
#[derive(Debug)]
pub struct NonSteamPlan {
    /// For Flatpak Steam, the arguments of `flatpak` that give Steam access to the
    /// program's directory (Steam must be stopped afterwards).
    pub flatpak_override: Option<Vec<String>>,
    /// The file Steam looks for while adding the game.
    pub marker_file: String,
    /// The Steam URL that adds the game.
    pub url: String,
    /// Starting Steam with the URL: `steam <url>`, or for Flatpak Steam
    /// `flatpak run com.valvesoftware.Steam <url>`, output discarded.
    pub launch: LaunchCommand,
}

/// Why a program cannot be added to Steam.
#[derive(Debug, PartialEq, Eq)]
pub enum NonSteamError {
    /// The program's path has no parent directory.
    NoParent,
}

/// The Steam directory is the Flatpak one.
pub open spec fn is_flatpak(steam_path: Seq<char>) -> bool {
    has_infix(steam_path, "com.valvesoftware.Steam"@)
}

/// The plan for adding `file` to the Steam installation at `steam_path` for the user
/// `uid`: Flatpak Steam (its path contains `com.valvesoftware.Steam`) is run through
/// `flatpak run com.valvesoftware.Steam`, is first given access to the program's directory, and uses the temporary
/// directory under `/run/user/<uid>`; native Steam uses `/tmp`. The URL is
/// `steam://addnonsteamgame/` followed by the URL-encoded path. Fails when the path
/// has no parent.
pub fn add_nonsteam_game(file: &str, steam_path: &str, uid: u32) -> (r: Result<NonSteamPlan, NonSteamError>)
    ensures
        r is Err <==> parent_path(file@) is None,
        r is Err ==> r == Err::<NonSteamPlan, NonSteamError>(NonSteamError::NoParent),
        r matches Ok(p) ==> {
            let flatpak = is_flatpak(steam_path@);
            let tmp = if flatpak {
                "/run/user/"@ + decimal(uid as nat) + "/.flatpak/com.valvesoftware.Steam/tmp"@
            } else {
                "/tmp"@
            };
            &&& p.launch.program@ == (if flatpak { "flatpak"@ } else { "steam"@ })
            &&& string_views(p.launch.args@) == (if flatpak {
                seq!["run"@, "com.valvesoftware.Steam"@, p.url@]
            } else {
                seq![p.url@]
            })
            &&& p.launch.envs@.len() == 0
            &&& p.launch.discard_output
            &&& p.marker_file@ == join_path(tmp, "addnonsteamgamefile"@)
            &&& p.url@ == "steam://addnonsteamgame/"@ + percent_encode(vstd::utf8::encode_utf8(file@))
            &&& (p.flatpak_override is Some <==> flatpak)
            &&& p.flatpak_override matches Some(args) ==> string_views(args@) == seq![
                "override"@,
                "--user"@,
                "--filesystem="@ + parent_path(file@)->0,
                "com.valvesoftware.Steam"@,
            ]
        },
{
    let dir = match path_parent(file) {
        Some(d) => d,
        None => { return Err(NonSteamError::NoParent); },
    };
    let flatpak = contains_str(steam_path, "com.valvesoftware.Steam");
    let (tmp, flatpak_override) = if flatpak {
        let id = decimal_string(uid);
        let tmp = concat(concat("/run/user/", id.as_str()).as_str(), "/.flatpak/com.valvesoftware.Steam/tmp");
        let mut args: Vec<String> = Vec::new();
        args.push("override".to_string());
        args.push("--user".to_string());
        args.push(concat("--filesystem=", dir.as_str()));
        args.push("com.valvesoftware.Steam".to_string());
        proof {
            assert(string_views(args@) =~= seq![
                "override"@,
                "--user"@,
                "--filesystem="@ + parent_path(file@)->0,
                "com.valvesoftware.Steam"@,
            ]);
        }
        (tmp, Some(args))
    } else {
        ("/tmp".to_string(), None)
    };
    let encoded = url_encode(file);
    let url = concat("steam://addnonsteamgame/", encoded.as_str());
    let marker_file = join(tmp.as_str(), "addnonsteamgamefile");
    let mut args: Vec<String> = Vec::new();
    let program = if flatpak {
        args.push("run".to_string());
        args.push("com.valvesoftware.Steam".to_string());
        "flatpak".to_string()
    } else {
        "steam".to_string()
    };
    args.push(url.clone());
    proof {
        if flatpak {
            assert(string_views(args@) =~= seq!["run"@, "com.valvesoftware.Steam"@, url@]);
        } else {
            assert(string_views(args@) =~= seq![url@]);
        }
    }
    let launch = LaunchCommand { program, envs: Vec::new(), args, discard_output: true };
    Ok(NonSteamPlan { flatpak_override, marker_file, url, launch })
}

} // verus!
