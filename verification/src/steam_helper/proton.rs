//! Proton runners known to Steam: their names, and choosing the newest.
use vstd::prelude::*;

use crate::library_scan::{proton_apps, select_proton_apps, InstalledApp};
use crate::proton::{is_last_max, last_max_index, rank_le, widen, widen_number};
use crate::text::{
    before_first, before_first_exec, chars_of, contains_str, has_infix, lowercase, replace_all,
    replace_str, same_chars, string_of, to_lowercase, words, words_exec,
};

verus! {

/// A Proton runner: the name Steam's compatibility-tool setting uses, the name shown
/// in Steam, and the path of its `proton` launcher.
#[derive(Debug, Clone)]
pub struct Runner {
    pub name: String,
    pub pretty_name: String,
    pub path: String,
}

/// A copy of `r`.
pub fn copy_runner(r: &Runner) -> (c: Runner)
    ensures
        c == *r,
{
    Runner { name: r.name.clone(), pretty_name: r.pretty_name.clone(), path: r.path.clone() }
}

/// Why the runners could not be listed.
#[derive(Debug, PartialEq, Eq)]
pub enum RunnerError {
    /// An installed app has no name in its manifest.
    AppNameMissing,
    /// No installed app is a Proton build with a launcher.
    NoProtonVersions,
}

/// The setting name of the runner shown as `pretty_name`: lower-cased, cut at the first
/// `.`, with spaces replaced by underscores (`Proton 9.0 (Beta)` becomes `proton_9`).
pub open spec fn runner_name(pretty_name: Seq<char>) -> Seq<char> {
    replace_all(before_first(lowercase(pretty_name), '.'), " "@, "_"@)
}

/// The setting name of a runner (see [`runner_name`]).
pub fn runner_name_of(pretty_name: &str) -> (r: String)
    ensures
        r@ == runner_name(pretty_name@),
{
    let lower = to_lowercase(pretty_name);
    let lc = chars_of(lower.as_str());
    let cut = before_first_exec(lc.as_slice(), '.');
    let cut_s = string_of(cut.as_slice());
    proof {
        reveal_strlit(" ");
    }
    replace_str(cut_s.as_str(), " ", "_")
}

/// The position of the first app without a name (or the count of apps).
pub open spec fn first_nameless(apps: Seq<InstalledApp>, from: int) -> int
    decreases apps.len() - from,
{
    if from < 0 || from >= apps.len() {
        apps.len() as int
    } else if apps[from].name is None {
        from
    } else {
        first_nameless(apps, from + 1)
    }
}

proof fn lemma_first_nameless(apps: Seq<InstalledApp>, from: int)
    requires
        0 <= from <= apps.len(),
    ensures
        from <= first_nameless(apps, from) <= apps.len(),
        first_nameless(apps, from) < apps.len() ==> apps[first_nameless(apps, from)].name is None,
        forall|k: int| from <= k < first_nameless(apps, from) ==> (#[trigger] apps[k]).name is Some,
    decreases apps.len() - from,
{
    if from < apps.len() && apps[from].name is Some {
        lemma_first_nameless(apps, from + 1);
    }
}

/// The Proton runners among the installed apps, in order: every app whose name contains
/// `Proton` and whose `proton` launcher exists becomes a runner named by
/// [`runner_name`]. The apps are visited in order and the first app without a name
/// stops the listing with `AppNameMissing`; when every app is named and no runner is
/// found the error is `NoProtonVersions`. Also returns, in order, the launcher paths of
/// the Proton apps visited whose launcher is missing (they are reported, not listed).
pub fn find_all_versions(apps: &Vec<InstalledApp>) -> (r: (Vec<String>, Result<Vec<Runner>, RunnerError>))
    ensures
        ({
            let stop = first_nameless(apps@, 0);
            let missing = proton_apps(apps@, stop, false);
            &&& r.0@.len() == missing.len()
            &&& forall|k: int| 0 <= k < missing.len()
                ==> (#[trigger] r.0@[k])@ == apps@[missing[k]].proton_path@
        }),
        ({
            let stop = first_nameless(apps@, 0);
            let found = proton_apps(apps@, apps@.len() as int, true);
            &&& (stop < apps@.len() ==> r.1 == Err::<Vec<Runner>, RunnerError>(RunnerError::AppNameMissing))
            &&& (stop == apps@.len() && found.len() == 0
                ==> r.1 == Err::<Vec<Runner>, RunnerError>(RunnerError::NoProtonVersions))
            &&& (r.1 is Ok <==> stop == apps@.len() && found.len() > 0)
            &&& r.1 matches Ok(vs) ==> {
                &&& vs@.len() == found.len()
                &&& forall|k: int| 0 <= k < found.len() ==> {
                    &&& (#[trigger] vs@[k]).pretty_name@ == apps@[found[k]].name->0@
                    &&& vs@[k].name@ == runner_name(apps@[found[k]].name->0@)
                    &&& vs@[k].path@ == apps@[found[k]].proton_path@
                }
            }
        }),
{
    let mut stop: usize = 0;
    proof {
        lemma_first_nameless(apps@, 0);
    }
    while stop < apps.len() && apps[stop].name.is_some()
        invariant
            stop <= apps@.len(),
            first_nameless(apps@, stop as int) == first_nameless(apps@, 0),
        decreases apps.len() - stop,
    {
        stop = stop + 1;
    }
    let missing_idx = select_proton_apps(apps, stop, false);
    let mut missing: Vec<String> = Vec::new();
    let mut k: usize = 0;
    while k < missing_idx.len()
        invariant
            k <= missing_idx@.len(),
            stop <= apps@.len(),
            missing@.len() == k,
            forall|m: int| 0 <= m < missing_idx@.len() ==> #[trigger] missing_idx@[m] < stop,
            forall|m: int| 0 <= m < k ==> (#[trigger] missing@[m])@ == apps@[missing_idx@[m] as int].proton_path@,
        decreases missing_idx.len() - k,
    {
        missing.push(apps[missing_idx[k]].proton_path.clone());
        k = k + 1;
    }
    if stop < apps.len() {
        return (missing, Err(RunnerError::AppNameMissing));
    }
    let found_idx = select_proton_apps(apps, apps.len(), true);
    let mut found: Vec<Runner> = Vec::new();
    let mut k: usize = 0;
    while k < found_idx.len()
        invariant
            k <= found_idx@.len(),
            found@.len() == k,
            forall|m: int| 0 <= m < found_idx@.len() ==> #[trigger] found_idx@[m] < apps@.len(),
            found_idx@.len() == proton_apps(apps@, apps@.len() as int, true).len(),
            forall|m: int| 0 <= m < found_idx@.len()
                ==> #[trigger] found_idx@[m] as int == proton_apps(apps@, apps@.len() as int, true)[m],
            forall|m: int| 0 <= m < k ==> {
                &&& (#[trigger] found@[m]).pretty_name@ == apps@[found_idx@[m] as int].name->0@
                &&& found@[m].name@ == runner_name(apps@[found_idx@[m] as int].name->0@)
                &&& found@[m].path@ == apps@[found_idx@[m] as int].proton_path@
            },
        decreases found_idx.len() - k,
    {
        let app = &apps[found_idx[k]];
        proof {
            assert(crate::library_scan::is_proton_app(apps@[found_idx@[k as int] as int])) by {
                lemma_proton_apps_member(apps@, apps@.len() as int, true, k as int);
            }
        }
        let pretty = match &app.name {
            Some(n) => n.clone(),
            None => String::new(),
        };
        let name = runner_name_of(pretty.as_str());
        found.push(Runner { name, pretty_name: pretty, path: app.proton_path.clone() });
        k = k + 1;
    }
    if found.len() == 0 {
        (missing, Err(RunnerError::NoProtonVersions))
    } else {
        (missing, Ok(found))
    }
}

proof fn lemma_proton_apps_member(apps: Seq<InstalledApp>, n: int, with_bin: bool, k: int)
    requires
        0 <= n <= apps.len(),
        0 <= k < proton_apps(apps, n, with_bin).len(),
    ensures
        0 <= proton_apps(apps, n, with_bin)[k] < n,
        crate::library_scan::is_proton_app(apps[proton_apps(apps, n, with_bin)[k]]),
    decreases n,
{
    if n > 0 {
        let s = proton_apps(apps, n - 1, with_bin);
        if k < s.len() {
            lemma_proton_apps_member(apps, n - 1, with_bin, k);
        }
    }
}

/// The version word of a display name `Proton <v>...`: the part of `<v>` before its
/// first `-`; `None` for every other name.
pub open spec fn runner_version_word(pretty_name: Seq<char>) -> Option<Seq<char>> {
    let ws = words(pretty_name);
    if ws.len() >= 2 && ws[0] == "Proton"@ {
        Some(before_first(ws[1], '-'))
    } else {
        None
    }
}

/// The version word of a runner's display name (see [`runner_version_word`]). What
/// reading it as a number gives is the caller's part: std's `f64` parse, multiplied by
/// 1000 and truncated toward zero to an integer (saturating), `None` when the word is
/// not a float literal.
pub fn runner_version_word_of(pretty_name: &str) -> (r: Option<String>)
    ensures
        r is Some <==> runner_version_word(pretty_name@) is Some,
        r matches Some(w) ==> w@ == runner_version_word(pretty_name@)->0,
{
    let cs = chars_of(pretty_name);
    let ws = words_exec(cs.as_slice());
    let proton = chars_of("Proton");
    if ws.len() >= 2 && same_chars(ws[0].as_slice(), proton.as_slice()) {
        let v = before_first_exec(ws[1].as_slice(), '-');
        Some(string_of(v.as_slice()))
    } else {
        None
    }
}

/// How a runner's display name ranks for being the newest, given `number`, what its
/// version word reads as (see [`runner_version_word_of`]): a name `Proton <v>...` ranks
/// by that number when there is one, and otherwise by [`special_rank`] of its
/// lower-cased version word; every other name ranks `(0, 0)`.
pub open spec fn runner_rank(pretty_name: Seq<char>, number: Option<int>) -> (int, int) {
    match runner_version_word(pretty_name) {
        Some(v) => match number {
            Some(n) => (n, 0),
            None => special_rank(lowercase(v)),
        },
        None => (0, 0),
    }
}

/// A lower-cased version word that is not a number: `experimental` ranks `(0, 2)`,
/// `hotfix` `(0, 1)`, anything else `(0, 0)`.
pub open spec fn special_rank(lowered: Seq<char>) -> (int, int) {
    if has_infix(lowered, "experimental"@) {
        (0, 2)
    } else if has_infix(lowered, "hotfix"@) {
        (0, 1)
    } else {
        (0, 0)
    }
}

/// The rank of a lower-cased, non-numeric version word (see [`special_rank`]).
pub fn special_rank_of(lowered: &str) -> (r: (i64, i64))
    ensures
        (r.0 as int, r.1 as int) == special_rank(lowered@),
{
    if contains_str(lowered, "experimental") {
        (0, 2)
    } else if contains_str(lowered, "hotfix") {
        (0, 1)
    } else {
        (0, 0)
    }
}

/// The rank of a runner's display name whose version word reads as `number` (see
/// [`runner_rank`]).
pub fn runner_rank_of(pretty_name: &str, number: Option<i64>) -> (r: (i64, i64))
    ensures
        (r.0 as int, r.1 as int) == runner_rank(pretty_name@, widen_number(number)),
{
    match runner_version_word_of(pretty_name) {
        None => (0, 0),
        Some(v) => match number {
            Some(n) => (n, 0),
            None => {
                let lowered = to_lowercase(v.as_str());
                special_rank_of(lowered.as_str())
            },
        },
    }
}

/// The ranks of the runners, in order, the version word of `vs[k]` reading as
/// `numbers[k]`.
pub open spec fn runner_ranks(vs: Seq<Runner>, numbers: Seq<Option<i64>>) -> Seq<(int, int)> {
    Seq::new(vs.len(), |k: int| runner_rank(vs[k].pretty_name@, widen_number(numbers[k])))
}

/// The newest runner: the last of those whose display name ranks highest (see
/// [`runner_rank`]), where `numbers[k]` is what the version word of `versions[k]` reads
/// as; `None` when there are none.
pub fn find_highest_version<'a>(versions: &'a [Runner], numbers: &Vec<Option<i64>>) -> (r: Option<&'a Runner>)
    requires
        numbers@.len() == versions@.len(),
    ensures
        r is None <==> versions@.len() == 0,
        r matches Some(v) ==> exists|i: int|
            is_last_max(runner_ranks(versions@, numbers@), i) && *v == #[trigger] versions@[i],
{
    let mut ranks: Vec<(i64, i64)> = Vec::new();
    let mut k: usize = 0;
    while k < versions.len()
        invariant
            k <= versions@.len(),
            numbers@.len() == versions@.len(),
            ranks@.len() == k,
            forall|j: int| 0 <= j < k ==> ((#[trigger] ranks@[j]).0 as int, ranks@[j].1 as int)
                == runner_rank(versions@[j].pretty_name@, widen_number(numbers@[j])),
        decreases versions.len() - k,
    {
        let rk = runner_rank_of(versions[k].pretty_name.as_str(), numbers[k]);
        ranks.push(rk);
        k = k + 1;
    }
    proof {
        assert(widen(ranks@) =~= runner_ranks(versions@, numbers@));
    }
    match last_max_index(&ranks) {
        None => None,
        Some(i) => Some(&versions[i]),
    }
}

/// The rank of the newest runner does not depend on the order of the list: when the
/// number of a runner is a function of its display name (as reading the version word
/// is), two lists with the same display names, in any order, give newest runners of the
/// same rank.
pub proof fn law_newest_rank_ignores_order(
    v1: Seq<Runner>,
    n1: Seq<Option<i64>>,
    v2: Seq<Runner>,
    n2: Seq<Option<i64>>,
    i: int,
    j: int,
)
    requires
        n1.len() == v1.len(),
        n2.len() == v2.len(),
        forall|k: int, m: int| 0 <= k < v1.len() && 0 <= m < v2.len()
            && (#[trigger] v1[k]).pretty_name@ == (#[trigger] v2[m]).pretty_name@ ==> n1[k] == n2[m],
        forall|k: int| 0 <= k < v1.len()
            ==> exists|m: int| 0 <= m < v2.len() && (#[trigger] v2[m]).pretty_name@ == (#[trigger] v1[k]).pretty_name@,
        forall|m: int| 0 <= m < v2.len()
            ==> exists|k: int| 0 <= k < v1.len() && (#[trigger] v1[k]).pretty_name@ == (#[trigger] v2[m]).pretty_name@,
        is_last_max(runner_ranks(v1, n1), i),
        is_last_max(runner_ranks(v2, n2), j),
    ensures
        runner_ranks(v1, n1)[i] == runner_ranks(v2, n2)[j],
{
    let r1 = runner_ranks(v1, n1);
    let r2 = runner_ranks(v2, n2);
    let m = choose|m: int| 0 <= m < v2.len() && v2[m].pretty_name@ == v1[i].pretty_name@;
    assert(n1[i] == n2[m]);
    assert(r2[m] == r1[i]);
    assert(rank_le(r2[m], r2[j]));
    let k = choose|k: int| 0 <= k < v1.len() && v1[k].pretty_name@ == v2[j].pretty_name@;
    assert(n1[k] == n2[j]);
    assert(r1[k] == r2[j]);
    assert(rank_le(r1[k], r1[i]));
}

/// The choice of the newest runner ignores the runners' setting names and paths: two
/// lists with the same display names and the same numbers, position by position, rank
/// alike, so [`find_highest_version`] picks the same position from both.
pub proof fn law_newest_ignores_name_and_path(v: Seq<Runner>, w: Seq<Runner>, n: Seq<Option<i64>>, i: int)
    requires
        v.len() == w.len(),
        n.len() == v.len(),
        forall|k: int| 0 <= k < v.len() ==> (#[trigger] v[k]).pretty_name@ == w[k].pretty_name@,
    ensures
        runner_ranks(v, n) == runner_ranks(w, n),
        is_last_max(runner_ranks(v, n), i) <==> is_last_max(runner_ranks(w, n), i),
{
    assert(runner_ranks(v, n) =~= runner_ranks(w, n));
}

/// Appending a runner `x` whose version word reads as `nx`: it becomes the newest when
/// the list was empty or when it ranks at least as high as the previous newest (the
/// runner at `i`); otherwise the previous newest stays.
pub proof fn law_newest_after_append(v: Seq<Runner>, n: Seq<Option<i64>>, x: Runner, nx: Option<i64>, i: int)
    requires
        n.len() == v.len(),
        v.len() > 0 ==> is_last_max(runner_ranks(v, n), i),
    ensures
        v.len() == 0 || rank_le(runner_ranks(v, n)[i], runner_rank(x.pretty_name@, widen_number(nx)))
            ==> is_last_max(runner_ranks(v.push(x), n.push(nx)), v.len() as int),
        v.len() > 0 && !rank_le(runner_ranks(v, n)[i], runner_rank(x.pretty_name@, widen_number(nx)))
            ==> is_last_max(runner_ranks(v.push(x), n.push(nx)), i),
{
    let r = runner_ranks(v, n);
    let xr = runner_rank(x.pretty_name@, widen_number(nx));
    assert(runner_ranks(v.push(x), n.push(nx)) =~= r.push(xr));
    crate::proton::law_last_max_after_push(r, xr, i);
}

/// Numeric versions take priority: a `Proton` runner whose version word reads as a
/// positive number ranks strictly above every runner whose version word is not a
/// number (such as `Proton Experimental` or `Proton Hotfix`), and two numeric versions
/// rank in the order of their numbers.
pub proof fn law_numeric_versions_rank_first(a: Seq<char>, na: Option<int>, b: Seq<char>, nb: Option<int>)
    requires
        runner_version_word(a) is Some,
        runner_version_word(b) is Some,
    ensures
        na is Some && na->0 > 0 && nb is None
            ==> rank_le(runner_rank(b, nb), runner_rank(a, na)) && runner_rank(b, nb) != runner_rank(a, na),
        na is Some && nb is Some
            ==> (rank_le(runner_rank(b, nb), runner_rank(a, na)) <==> nb->0 <= na->0),
{
}

/// A runner's setting name contains neither spaces nor dots, whatever the display
/// name.
pub proof fn law_runner_name_is_one_word(pretty_name: Seq<char>)
    ensures
        forall|i: int| 0 <= i < runner_name(pretty_name).len()
            ==> #[trigger] runner_name(pretty_name)[i] != ' ' && runner_name(pretty_name)[i] != '.',
{
    reveal_strlit(" ");
    reveal_strlit("_");
    assert(" "@ =~= seq![' ']);
    let cut = before_first(lowercase(pretty_name), '.');
    crate::text::law_before_first_has_no_separator(lowercase(pretty_name), '.');
    crate::text::law_replace_char_removes(cut, ' ', "_"@);
    crate::text::law_replace_char_keeps_absent(cut, ' ', "_"@, '.');
}

} // verus!
