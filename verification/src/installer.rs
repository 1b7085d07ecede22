//! The installer's own logic: the welcome banner, picking the release download, the
//! arguments of the 7th Heaven setup program, and the settings file it is given.
use vstd::prelude::*;

use crate::command::string_views;
use crate::text::{
    chars_of, concat, join, join_path, push_all, replace_all, replace_str, string_of,
};

verus! {

// ---------------------------------------------------------------------------
// Lines and padding
// ---------------------------------------------------------------------------

/// `n` copies of `c`.
pub open spec fn repeated(c: char, n: nat) -> Seq<char> {
    Seq::new(n, |_i: int| c)
}

/// `s` followed by spaces up to `w` characters (unchanged when it is not shorter).
pub open spec fn pad_right(s: Seq<char>, w: nat) -> Seq<char> {
    if s.len() >= w { s } else { s + repeated(' ', (w - s.len()) as nat) }
}

/// `s` centred in `w` characters: half the padding before it (rounded down), the rest
/// after it (unchanged when it is not shorter).
pub open spec fn center(s: Seq<char>, w: nat) -> Seq<char> {
    if s.len() >= w {
        s
    } else {
        let p = (w - s.len()) as nat;
        repeated(' ', p / 2) + s + repeated(' ', (p - p / 2) as nat)
    }
}

/// `s` with one trailing carriage return removed.
pub open spec fn strip_cr(s: Seq<char>) -> Seq<char> {
    if s.len() > 0 && s.last() == '\r' { s.drop_last() } else { s }
}

/// The first position at or after `i` that holds a newline (or `s.len()`).
pub open spec fn newline_at_or_after(s: Seq<char>, i: int) -> int
    decreases s.len() - i,
{
    if i < 0 || i >= s.len() {
        s.len() as int
    } else if s[i] == '\n' {
        i
    } else {
        newline_at_or_after(s, i + 1)
    }
}

/// The lines of `s` from position `i` on, as std's `str::lines` gives them: split at
/// each newline, a carriage return before a newline dropped, no line after a final
/// newline.
pub open spec fn lines_from(s: Seq<char>, i: int) -> Seq<Seq<char>>
    decreases s.len() - i,
{
    if i < 0 || i >= s.len() {
        seq![]
    } else {
        let k = newline_at_or_after(s, i);
        if k >= s.len() || k < i {
            seq![s.subrange(i, s.len() as int)]
        } else {
            seq![strip_cr(s.subrange(i, k))] + lines_from(s, k + 1)
        }
    }
}

proof fn lemma_newline(s: Seq<char>, i: int)
    requires
        0 <= i <= s.len(),
    ensures
        i <= newline_at_or_after(s, i) <= s.len(),
        newline_at_or_after(s, i) < s.len() ==> s[newline_at_or_after(s, i)] == '\n',
    decreases s.len() - i,
{
    if i < s.len() && s[i] != '\n' {
        lemma_newline(s, i + 1);
    }
}

fn repeat_char(c: char, n: usize) -> (v: Vec<char>)
    ensures
        v@ == repeated(c, n as nat),
{
    let mut v: Vec<char> = Vec::new();
    let mut k: usize = 0;
    while k < n
        invariant
            k <= n,
            v@ == repeated(c, k as nat),
        decreases n - k,
    {
        v.push(c);
        k = k + 1;
        proof {
            assert(v@ =~= repeated(c, k as nat));
        }
    }
    v
}

/// `s` padded with spaces to `w` characters (see [`pad_right`]).
pub fn pad_right_exec(s: &str, w: usize) -> (r: String)
    ensures
        r@ == pad_right(s@, w as nat),
{
    let mut v = chars_of(s);
    if v.len() < w {
        let pad = repeat_char(' ', w - v.len());
        push_all(&mut v, pad.as_slice());
    }
    string_of(v.as_slice())
}

/// `s` centred in `w` characters (see [`center`]).
pub fn center_exec(s: &str, w: usize) -> (r: String)
    ensures
        r@ == center(s@, w as nat),
{
    let v = chars_of(s);
    if v.len() >= w {
        return string_of(v.as_slice());
    }
    let p = w - v.len();
    let mut out = repeat_char(' ', p / 2);
    push_all(&mut out, v.as_slice());
    let post = repeat_char(' ', p - p / 2);
    push_all(&mut out, post.as_slice());
    string_of(out.as_slice())
}

/// The lines of `s` (see [`lines_from`]).
pub fn lines_of(s: &str) -> (r: Vec<String>)
    ensures
        string_views(r@) == lines_from(s@, 0),
{
    let cs = chars_of(s);
    let mut out: Vec<String> = Vec::new();
    let mut i: usize = 0;
    let ghost all = lines_from(s@, 0);
    proof {
        assert(string_views(out@) + lines_from(s@, 0) =~= all);
    }
    while i < cs.len()
        invariant
            cs@ == s@,
            i <= cs@.len(),
            all == lines_from(s@, 0),
            string_views(out@) + lines_from(s@, i as int) == all,
        decreases cs.len() - i,
    {
        proof {
            lemma_newline(s@, i as int);
        }
        let mut k = i;
        while k < cs.len() && cs[k] != '\n'
            invariant
                cs@ == s@,
                i <= k <= cs@.len(),
                newline_at_or_after(s@, k as int) == newline_at_or_after(s@, i as int),
            decreases cs.len() - k,
        {
            k = k + 1;
        }
        let mut piece: Vec<char> = Vec::new();
        let mut m = i;
        while m < k
            invariant
                i <= m <= k <= cs@.len(),
                piece@ == cs@.subrange(i as int, m as int),
            decreases k - m,
        {
            piece.push(cs[m]);
            m = m + 1;
            proof {
                assert(piece@ =~= cs@.subrange(i as int, m as int));
            }
        }
        let ghost prev = string_views(out@);
        if k >= cs.len() {
            let line = string_of(piece.as_slice());
            out.push(line);
            proof {
                assert(string_views(out@) =~= prev.push(s@.subrange(i as int, s@.len() as int)));
                assert(lines_from(s@, i as int) =~= seq![s@.subrange(i as int, s@.len() as int)]);
                assert(lines_from(s@, k as int) =~= Seq::<Seq<char>>::empty());
            }
            i = k;
        } else {
            if piece.len() > 0 && piece[piece.len() - 1] == '\r' {
                piece.pop();
            }
            let line = string_of(piece.as_slice());
            out.push(line);
            proof {
                assert(line@ == strip_cr(s@.subrange(i as int, k as int)));
                assert(string_views(out@) =~= prev.push(strip_cr(s@.subrange(i as int, k as int))));
                assert(lines_from(s@, i as int) == seq![strip_cr(s@.subrange(i as int, k as int))] + lines_from(s@, k + 1));
            }
            i = k + 1;
        }
    }
    proof {
        assert(lines_from(s@, i as int) =~= Seq::<Seq<char>>::empty());
        assert(string_views(out@) + Seq::<Seq<char>>::empty() =~= string_views(out@));
    }
    out
}

// ---------------------------------------------------------------------------
// The welcome banner
// ---------------------------------------------------------------------------

/// What `textwrap::fill` returns for `text` and the width `width`.
pub uninterp spec fn filled(text: Seq<char>, width: nat) -> Seq<char>;

/// `textwrap::fill` with a plain width: the result is [`filled`] of the text and width.
#[verifier::external_body]
fn wrap_text(text: &str, width: usize) -> (r: String)
    ensures
        r@ == filled(text@, width as nat),
{
    textwrap::fill(text, width)
}

/// A description line with its four spaces of margin on each side.
pub open spec fn framed(line: Seq<char>) -> Seq<char> {
    "    "@ + line + "    "@
}

/// The size in bytes of the UTF-8 encoding of `s`.
pub open spec fn byte_len(s: Seq<char>) -> nat {
    vstd::utf8::encode_utf8(s).len()
}

/// The widest framed description line, in bytes (zero without lines).
pub open spec fn max_width(lines: Seq<Seq<char>>) -> nat
    decreases lines.len(),
{
    if lines.len() == 0 {
        0
    } else {
        let w = byte_len(framed(lines.last()));
        let m = max_width(lines.drop_last());
        if w > m { w } else { m }
    }
}

/// The horizontal rule between the corner characters `l` and `r` of a banner whose
/// text is `w` wide.
pub open spec fn rule(l: char, r: char, w: nat) -> Seq<char> {
    seq![l] + repeated('━', w + 2) + seq![r]
}

/// The welcome banner, laid out: rules, and the title, description and footer lines
/// padded to the text width (they are printed between `┃ ` and ` ┃`).
#[derive(Debug)]
pub struct Banner {
    pub width: usize,
    pub top: String,
    pub title: String,
    pub middle: String,
    pub description: Vec<String>,
    pub footer: Vec<String>,
    pub bottom: String,
}

/// The banner for `title`, the `description` lines and the `footer`: the text width is
/// the widest description line with four spaces of margin on each side (in bytes); the
/// title is centred in it; description lines and the lines of the footer wrapped to the
/// width are padded to it; the rules are two characters wider than the text.
pub fn banner(title: &str, description: &Vec<String>, footer: &str) -> (b: Banner)
    requires
        forall|k: int| 0 <= k < description@.len()
            ==> byte_len(framed(#[trigger] description@[k]@)) + 4 <= usize::MAX,
    ensures
        ({
            let w = max_width(string_views(description@));
            &&& b.width == w
            &&& b.top@ == rule('┏', '┓', w)
            &&& b.middle@ == rule('┣', '┫', w)
            &&& b.bottom@ == rule('┗', '┛', w)
            &&& b.title@ == center(title@, w)
            &&& string_views(b.description@) == Seq::new(
                description@.len(),
                |k: int| pad_right(framed(description@[k]@), w),
            )
            &&& string_views(b.footer@) == Seq::new(
                lines_from(filled(footer@, w), 0).len(),
                |k: int| pad_right(lines_from(filled(footer@, w), 0)[k], w),
            )
        }),
{
    let ghost views = string_views(description@);
    let mut framed_lines: Vec<String> = Vec::new();
    let mut w: usize = 0;
    let mut k: usize = 0;
    while k < description.len()
        invariant
            k <= description@.len(),
            views == string_views(description@),
            forall|j: int| 0 <= j < description@.len()
                ==> byte_len(framed(#[trigger] description@[j]@)) + 4 <= usize::MAX,
            framed_lines@.len() == k,
            forall|j: int| 0 <= j < k ==> (#[trigger] framed_lines@[j])@ == framed(description@[j]@),
            w as nat == max_width(views.take(k as int)),
            w + 4 <= usize::MAX,
        decreases description.len() - k,
    {
        let f = concat(concat("    ", description[k].as_str()).as_str(), "    ");
        let n = f.as_str().len();
        proof {
            assert(views.take(k + 1).drop_last() =~= views.take(k as int));
            assert(views.take(k + 1).last() == description@[k as int]@);
        }
        if n > w {
            w = n;
        }
        framed_lines.push(f);
        k = k + 1;
    }
    proof {
        assert(views.take(description@.len() as int) =~= views);
    }
    let mut padded: Vec<String> = Vec::new();
    let mut k: usize = 0;
    while k < framed_lines.len()
        invariant
            k <= framed_lines@.len(),
            framed_lines@.len() == description@.len(),
            forall|j: int| 0 <= j < framed_lines@.len() ==> (#[trigger] framed_lines@[j])@ == framed(description@[j]@),
            padded@.len() == k,
            forall|j: int| 0 <= j < k ==> (#[trigger] padded@[j])@ == pad_right(framed(description@[j]@), w as nat),
        decreases framed_lines.len() - k,
    {
        padded.push(pad_right_exec(framed_lines[k].as_str(), w));
        k = k + 1;
    }
    let wrapped = wrap_text(footer, w);
    let footer_lines = lines_of(wrapped.as_str());
    let ghost fl = lines_from(filled(footer@, w as nat), 0);
    let mut footer_padded: Vec<String> = Vec::new();
    let mut k: usize = 0;
    while k < footer_lines.len()
        invariant
            k <= footer_lines@.len(),
            string_views(footer_lines@) == fl,
            footer_padded@.len() == k,
            forall|j: int| 0 <= j < k ==> (#[trigger] footer_padded@[j])@ == pad_right(fl[j], w as nat),
        decreases footer_lines.len() - k,
    {
        proof {
            assert(string_views(footer_lines@)[k as int] == footer_lines@[k as int]@);
        }
        footer_padded.push(pad_right_exec(footer_lines[k].as_str(), w));
        k = k + 1;
    }
    let line = repeat_char('━', w + 2);
    let mut top = Vec::new();
    top.push('┏');
    push_all(&mut top, line.as_slice());
    top.push('┓');
    let mut middle = Vec::new();
    middle.push('┣');
    push_all(&mut middle, line.as_slice());
    middle.push('┫');
    let mut bottom = Vec::new();
    bottom.push('┗');
    push_all(&mut bottom, line.as_slice());
    bottom.push('┛');
    proof {
        assert(top@ =~= rule('┏', '┓', w as nat));
        assert(middle@ =~= rule('┣', '┫', w as nat));
        assert(bottom@ =~= rule('┗', '┛', w as nat));
        assert(string_views(padded@) =~= Seq::new(
            description@.len(),
            |k: int| pad_right(framed(description@[k]@), w as nat),
        ));
        assert(string_views(footer_padded@) =~= Seq::new(fl.len(), |k: int| pad_right(fl[k], w as nat)));
    }
    Banner {
        width: w,
        top: string_of(top.as_slice()),
        title: center_exec(title, w),
        middle: string_of(middle.as_slice()),
        description: padded,
        footer: footer_padded,
        bottom: string_of(bottom.as_slice()),
    }
}

// ---------------------------------------------------------------------------
// The release download
// ---------------------------------------------------------------------------

/// The GitHub API address of the latest release of `repo` (`owner/name`).
pub fn release_url(repo: &str) -> (s: String)
    ensures
        s@ == "https://api.github.com/repos/"@ + repo@ + "/releases/latest"@,
{
    concat(concat("https://api.github.com/repos/", repo).as_str(), "/releases/latest")
}

/// An asset of a release as listed by GitHub: its name, download address and size,
/// each when present with the expected type.
#[derive(Debug)]
pub struct ReleaseAsset {
    pub name: Option<String>,
    pub download_url: Option<String>,
    pub size: Option<u64>,
}

/// What to download: the file name, the address, the size (zero when unknown) and the
/// path to save it to.
#[derive(Debug)]
pub struct Download {
    pub name: String,
    pub url: String,
    pub size: u64,
    pub file_path: String,
}

/// Why no download was chosen.
#[derive(Debug, PartialEq, Eq)]
pub enum DownloadError {
    /// The release lists no assets.
    NoAssets,
    /// No asset is a `.exe` file.
    NoExeAsset,
    /// The `.exe` asset has no download address.
    NoDownloadUrl,
}

/// `s` ends with `suffix`.
pub open spec fn has_suffix(s: Seq<char>, suffix: Seq<char>) -> bool {
    suffix.len() <= s.len() && s.subrange(s.len() - suffix.len(), s.len() as int) == suffix
}

/// The asset is named and its name ends with `.exe`.
pub open spec fn is_exe_asset(a: ReleaseAsset) -> bool {
    a.name matches Some(n) && has_suffix(n@, ".exe"@)
}

/// The position of the first `.exe` asset at or after `from` (or the count of assets).
pub open spec fn first_exe(assets: Seq<ReleaseAsset>, from: int) -> int
    decreases assets.len() - from,
{
    if from < 0 || from >= assets.len() {
        assets.len() as int
    } else if is_exe_asset(assets[from]) {
        from
    } else {
        first_exe(assets, from + 1)
    }
}

fn ends_with_exe(s: &str) -> (b: bool)
    ensures
        b == has_suffix(s@, ".exe"@),
{
    let v = chars_of(s);
    let suffix = chars_of(".exe");
    if suffix.len() > v.len() {
        return false;
    }
    let start = v.len() - suffix.len();
    let b = crate::text::occurs_at_exec(v.as_slice(), suffix.as_slice(), start);
    b
}

/// The download of a release: its first asset whose name ends with `.exe`, saved as
/// that name in `destination`.
pub fn select_download(assets: &Option<Vec<ReleaseAsset>>, destination: &str) -> (r: Result<Download, DownloadError>)
    ensures
        match assets {
            None => r == Err::<Download, DownloadError>(DownloadError::NoAssets),
            Some(v) => {
                let k = first_exe(v@, 0);
                if k >= v@.len() {
                    r == Err::<Download, DownloadError>(DownloadError::NoExeAsset)
                } else {
                    let a = v@[k];
                    match a.download_url {
                        None => r == Err::<Download, DownloadError>(DownloadError::NoDownloadUrl),
                        Some(u) => r matches Ok(d) && {
                            &&& d.name@ == a.name->0@
                            &&& d.url@ == u@
                            &&& d.size == (match a.size { Some(n) => n, None => 0 })
                            &&& d.file_path@ == join_path(destination@, a.name->0@)
                        },
                    }
                }
            },
        },
{
    let v = match assets {
        None => { return Err(DownloadError::NoAssets); },
        Some(v) => v,
    };
    let mut k: usize = 0;
    while k < v.len()
        invariant
            *assets == Some(*v),
            k <= v@.len(),
            first_exe(v@, k as int) == first_exe(v@, 0),
        decreases v.len() - k,
    {
        let hit = match &v[k].name {
            Some(n) => ends_with_exe(n.as_str()),
            None => false,
        };
        if hit {
            let a = &v[k];
            let name = match &a.name {
                Some(n) => n.clone(),
                None => String::new(),
            };
            let url = match &a.download_url {
                Some(u) => u.clone(),
                None => { return Err(DownloadError::NoDownloadUrl); },
            };
            let size = match a.size {
                Some(n) => n,
                None => 0,
            };
            let file_path = join(destination, name.as_str());
            return Ok(Download { name, url, size, file_path });
        }
        k = k + 1;
    }
    Err(DownloadError::NoExeAsset)
}

// ---------------------------------------------------------------------------
// Running the setup program and patching its settings
// ---------------------------------------------------------------------------

/// A Linux path as seen from Wine's `Z:` drive: `Z:` followed by the path with every
/// `/` turned into `\`.
pub open spec fn wine_path(p: Seq<char>) -> Seq<char> {
    "Z:"@ + replace_all(p, "/"@, "\\"@)
}

fn wine_path_exec(p: &str) -> (r: String)
    ensures
        r@ == wine_path(p@),
{
    proof {
        reveal_strlit("/");
    }
    let converted = replace_str(p, "/", "\\");
    concat("Z:", converted.as_str())
}

/// The arguments of the 7th Heaven setup program: silent, installing into
/// `install_path` (as a `Z:` path), logging to `log_file`.
pub fn install_args(install_path: &str, log_file: &str) -> (args: Vec<String>)
    ensures
        string_views(args@) == seq![
            "/VERYSILENT"@,
            "/DIR="@ + wine_path(install_path@),
            "/LOG="@ + log_file@,
        ],
{
    let mut args: Vec<String> = Vec::new();
    args.push("/VERYSILENT".to_string());
    let dir = wine_path_exec(install_path);
    args.push(concat("/DIR=", dir.as_str()));
    args.push(concat("/LOG=", log_file));
    proof {
        assert(string_views(args@) =~= seq![
            "/VERYSILENT"@,
            "/DIR="@ + wine_path(install_path@),
            "/LOG="@ + log_file@,
        ]);
    }
    args
}

/// The settings of 7th Heaven: the template with `LIBRARY_LOCATION` replaced by the
/// mods directory under the install path, then `FF7_EXE` replaced by the game's
/// `ff7_en.exe`, both as `Z:` paths.
pub open spec fn settings_text(template: Seq<char>, install_path: Seq<char>, game_path: Seq<char>) -> Seq<char> {
    replace_all(
        replace_all(template, "LIBRARY_LOCATION"@, wine_path(join_path(install_path, "mods"@))),
        "FF7_EXE"@,
        wine_path(join_path(game_path, "ff7_en.exe"@)),
    )
}

/// The settings of 7th Heaven for an installation (see [`settings_text`]).
pub fn patch_settings(template: &str, install_path: &str, game_path: &str) -> (r: String)
    ensures
        r@ == settings_text(template@, install_path@, game_path@),
{
    proof {
        reveal_strlit("LIBRARY_LOCATION");
        reveal_strlit("FF7_EXE");
    }
    let mods = join(install_path, "mods");
    let library_location = wine_path_exec(mods.as_str());
    let exe = join(game_path, "ff7_en.exe");
    let ff7_exe = wine_path_exec(exe.as_str());
    let first = replace_str(template, "LIBRARY_LOCATION", library_location.as_str());
    replace_str(first.as_str(), "FF7_EXE", ff7_exe.as_str())
}

// ---------------------------------------------------------------------------
// Choosing the install folder
// ---------------------------------------------------------------------------

/// What choosing the install folder asks its driver to do next.
#[derive(Debug, PartialEq, Eq)]
pub enum InstallPathStep {
    /// Open the folder dialog and report the outcome with `on_folder`.
    PickFolder,
    /// Ask whether to install into this folder (`Yes` is answer 0) and report the answer
    /// with `on_answer`.
    Confirm(String),
    /// Install into this folder: done.
    Install(String),
}

/// The loop that chooses the install folder: a cancelled folder dialog opens it again;
/// a chosen folder is put to the user, and is the install folder when the answer is
/// `Yes` (0); any other answer opens the dialog again.
#[derive(Debug)]
pub struct InstallPathPicker {
    pending: Option<String>,
}

impl InstallPathPicker {
    /// The folder waiting for the user's answer, if any.
    pub closed spec fn pending(self) -> Option<Seq<char>> {
        match self.pending {
            Some(p) => Some(p@),
            None => None,
        }
    }

    /// The start: no folder chosen yet. The first step is to open the folder dialog.
    pub fn new() -> (p: InstallPathPicker)
        ensures
            p.pending() is None,
    {
        InstallPathPicker { pending: None }
    }

    /// The folder dialog closed with `picked` (`None` when cancelled).
    pub fn on_folder(&mut self, picked: Option<String>) -> (a: InstallPathStep)
        ensures
            folder_step(picked, *final(self), a),
    {
        match picked {
            None => {
                self.pending = None;
                InstallPathStep::PickFolder
            },
            Some(p) => {
                self.pending = Some(p.clone());
                InstallPathStep::Confirm(p)
            },
        }
    }

    /// The user answered the question about the pending folder (0 is `Yes`).
    pub fn on_answer(&mut self, answer: usize) -> (a: InstallPathStep)
        ensures
            answer_step(*old(self), answer, *final(self), a),
    {
        match self.pending.take() {
            Some(p) => {
                if answer == 0 {
                    InstallPathStep::Install(p)
                } else {
                    InstallPathStep::PickFolder
                }
            },
            None => InstallPathStep::PickFolder,
        }
    }
}

/// The step after the folder dialog closed with `picked`: a cancelled dialog opens the
/// dialog again; a chosen folder becomes pending and is put to the user.
pub open spec fn folder_step(picked: Option<String>, after: InstallPathPicker, a: InstallPathStep) -> bool {
    match picked {
        None => a == InstallPathStep::PickFolder && after.pending() is None,
        Some(p) => a == InstallPathStep::Confirm(p) && after.pending() == Some(p@),
    }
}

/// The step after the user answered `answer` about the pending folder of `before`: the
/// answer 0 installs into the pending folder; any other answer, or no pending folder,
/// opens the dialog again. Either way nothing is pending afterwards.
pub open spec fn answer_step(before: InstallPathPicker, answer: usize, after: InstallPathPicker, a: InstallPathStep) -> bool {
    &&& after.pending() is None
    &&& match before.pending() {
        Some(p) => if answer == 0 {
            a matches InstallPathStep::Install(q) && q@ == p
        } else {
            a == InstallPathStep::PickFolder
        },
        None => a == InstallPathStep::PickFolder,
    }
}

/// The folder to install into is one the user chose and then confirmed: the folder
/// dialog never ends the loop by itself, and an answer ends it only when it is `Yes`
/// (0) and a folder is pending, and then with that folder. So after a dialog step and
/// an answer step, `Install(p)` means the dialog returned `p`, the question asked about
/// `p`, and the answer was 0.
pub proof fn law_install_only_after_confirm(
    s0: InstallPathPicker,
    picked: Option<String>,
    s1: InstallPathPicker,
    a1: InstallPathStep,
    answer: usize,
    s2: InstallPathPicker,
    a2: InstallPathStep,
)
    requires
        folder_step(picked, s1, a1),
        answer_step(s1, answer, s2, a2),
    ensures
        !(a1 is Install),
        a2 is Install <==> (answer == 0 && picked is Some),
        a2 matches InstallPathStep::Install(p) ==> (picked matches Some(q) && p@ == q@
            && a1 == InstallPathStep::Confirm(q)),
{
}

/// An answer installs only when a folder is pending and the answer is `Yes` (0), and
/// then into the pending folder.
pub proof fn law_answer_installs_only_pending(before: InstallPathPicker, answer: usize, after: InstallPathPicker, a: InstallPathStep)
    requires
        answer_step(before, answer, after, a),
    ensures
        a matches InstallPathStep::Install(p) ==> answer == 0 && before.pending() == Some(p@),
{
}

// ---------------------------------------------------------------------------
// Laws
// ---------------------------------------------------------------------------

/// A text has at least as many UTF-8 bytes as characters.
pub proof fn lemma_byte_len_at_least_chars(s: Seq<char>)
    ensures
        byte_len(s) >= s.len(),
    decreases s.len(),
{
    if s.len() > 0 {
        lemma_byte_len_at_least_chars(s.drop_first());
        assert(vstd::utf8::encode_utf8(s) == vstd::utf8::encode_scalar(s[0] as u32)
            + vstd::utf8::encode_utf8(s.drop_first()));
    }
}

proof fn lemma_max_width_bounds(lines: Seq<Seq<char>>, k: int)
    requires
        0 <= k < lines.len(),
    ensures
        byte_len(framed(lines[k])) <= max_width(lines),
    decreases lines.len(),
{
    if k < lines.len() - 1 {
        lemma_max_width_bounds(lines.drop_last(), k);
    }
}

/// The banner is a rectangle: every rule has `w + 4` characters, and every description
/// line, and the title when it fits in the width `w`, has exactly `w` characters, so that
/// each row `┃ <line> ┃` is as wide as the rules.
pub proof fn law_banner_is_rectangular(lines: Seq<Seq<char>>, title: Seq<char>)
    ensures
        ({
            let w = max_width(lines);
            &&& rule('┏', '┓', w).len() == w + 4
            &&& rule('┣', '┫', w).len() == w + 4
            &&& rule('┗', '┛', w).len() == w + 4
            &&& forall|k: int| 0 <= k < lines.len() ==> #[trigger] pad_right(framed(lines[k]), w).len() == w
            &&& title.len() <= w ==> center(title, w).len() == w
        }),
{
    let w = max_width(lines);
    assert forall|k: int| 0 <= k < lines.len() implies #[trigger] pad_right(framed(lines[k]), w).len() == w by {
        lemma_max_width_bounds(lines, k);
        lemma_byte_len_at_least_chars(framed(lines[k]));
    }
}

/// The file chosen for download is a `.exe` file: its path ends with `.exe`.
pub proof fn law_download_is_exe(assets: Seq<ReleaseAsset>, destination: Seq<char>)
    requires
        first_exe(assets, 0) < assets.len(),
    ensures
        has_suffix(join_path(destination, assets[first_exe(assets, 0)].name->0@), ".exe"@),
{
    lemma_first_exe(assets, 0);
    let name = assets[first_exe(assets, 0)].name->0@;
    let p = join_path(destination, name);
    crate::text::law_join_ends_with(destination, name);
    let e = ".exe"@;
    assert(p.subrange(p.len() - e.len(), p.len() as int) =~= name.subrange(name.len() - e.len(), name.len() as int));
}

proof fn lemma_first_exe(assets: Seq<ReleaseAsset>, from: int)
    requires
        0 <= from <= assets.len(),
    ensures
        from <= first_exe(assets, from) <= assets.len(),
        first_exe(assets, from) < assets.len() ==> is_exe_asset(assets[first_exe(assets, from)]),
    decreases assets.len() - from,
{
    if from < assets.len() && !is_exe_asset(assets[from]) {
        lemma_first_exe(assets, from + 1);
    }
}

/// A `Z:` path contains no `/`.
pub proof fn law_wine_path_has_no_slash(p: Seq<char>)
    ensures
        forall|i: int| 0 <= i < wine_path(p).len() ==> #[trigger] wine_path(p)[i] != '/',
{
    reveal_strlit("/");
    reveal_strlit("\\");
    reveal_strlit("Z:");
    assert("/"@ =~= seq!['/']);
    crate::text::law_replace_char_removes(p, '/', "\\"@);
    let r = replace_all(p, "/"@, "\\"@);
    assert forall|i: int| 0 <= i < wine_path(p).len() implies #[trigger] wine_path(p)[i] != '/' by {
        if i >= 2 {
            assert(wine_path(p)[i] == r[i - 2]);
        }
    }
}

} // verus!
