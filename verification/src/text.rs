//! Character-level string operations, each with its specification over `Seq<char>`.
use vstd::prelude::*;

verus! {

// ---------------------------------------------------------------------------
// Specifications
// ---------------------------------------------------------------------------

/// `pat` occurs in `s` starting at position `i`.
pub open spec fn occurs_at(s: Seq<char>, pat: Seq<char>, i: int) -> bool {
    &&& 0 <= i
    &&& i + pat.len() <= s.len()
    &&& s.subrange(i, i + pat.len()) == pat
}

/// `pat` occurs somewhere in `s` (the empty pattern occurs in every string).
pub open spec fn has_infix(s: Seq<char>, pat: Seq<char>) -> bool {
    exists|i: int| occurs_at(s, pat, i)
}

/// Every non-overlapping occurrence of the non-empty `pat`, scanned from the left,
/// replaced by `rep`.
pub open spec fn replace_all(s: Seq<char>, pat: Seq<char>, rep: Seq<char>) -> Seq<char>
    decreases s.len(),
{
    if pat.len() == 0 || s.len() < pat.len() {
        s
    } else if s.subrange(0, pat.len() as int) == pat {
        rep + replace_all(s.skip(pat.len() as int), pat, rep)
    } else {
        seq![s[0]] + replace_all(s.skip(1), pat, rep)
    }
}

/// The decimal digit character of `d < 10`.
pub open spec fn digit_char(d: nat) -> char {
    if d == 0 { '0' }
    else if d == 1 { '1' }
    else if d == 2 { '2' }
    else if d == 3 { '3' }
    else if d == 4 { '4' }
    else if d == 5 { '5' }
    else if d == 6 { '6' }
    else if d == 7 { '7' }
    else if d == 8 { '8' }
    else { '9' }
}

/// The decimal numeral of `n`, without sign or leading zeros (`0` is `"0"`).
pub open spec fn decimal(n: nat) -> Seq<char>
    decreases n,
{
    if n < 10 {
        seq![digit_char(n)]
    } else {
        decimal(n / 10).push(digit_char(n % 10))
    }
}

/// Appending `rel` to the path `base`: a path that starts with `/` replaces `base`;
/// otherwise one `/` separates the two unless `base` is empty or already ends with `/`.
pub open spec fn join_path(base: Seq<char>, rel: Seq<char>) -> Seq<char> {
    if rel.len() > 0 && rel[0] == '/' {
        rel
    } else if base.len() == 0 || base.last() == '/' {
        base + rel
    } else {
        base + seq!['/'] + rel
    }
}

/// The part of `s` before the first occurrence of `c` (all of `s` when `c` is absent).
pub open spec fn before_first(s: Seq<char>, c: char) -> Seq<char>
    decreases s.len(),
{
    if s.len() == 0 {
        s
    } else if s[0] == c {
        seq![]
    } else {
        seq![s[0]] + before_first(s.skip(1), c)
    }
}

/// The characters with the Unicode `White_Space` property.
pub open spec fn is_white(c: char) -> bool {
    let u = c as u32;
    ||| (0x09 <= u && u <= 0x0D)
    ||| u == 0x20
    ||| u == 0x85
    ||| u == 0xA0
    ||| u == 0x1680
    ||| (0x2000 <= u && u <= 0x200A)
    ||| u == 0x2028
    ||| u == 0x2029
    ||| u == 0x202F
    ||| u == 0x205F
    ||| u == 0x3000
}

/// The first position at or after `i` that does not hold white space (or `s.len()`).
pub open spec fn skip_white(s: Seq<char>, i: int) -> int
    decreases s.len() - i,
{
    if i < 0 || i >= s.len() {
        if i < 0 { 0 } else { s.len() as int }
    } else if is_white(s[i]) {
        skip_white(s, i + 1)
    } else {
        i
    }
}

/// The first position at or after `i` that holds white space (or `s.len()`).
pub open spec fn word_end(s: Seq<char>, i: int) -> int
    decreases s.len() - i,
{
    if i < 0 || i >= s.len() {
        if i < 0 { 0 } else { s.len() as int }
    } else if is_white(s[i]) {
        i
    } else {
        word_end(s, i + 1)
    }
}

/// The maximal runs of non-white characters of `s` from position `i` on, in order.
pub open spec fn words_from(s: Seq<char>, i: int) -> Seq<Seq<char>>
    decreases s.len() - i,
{
    if i < 0 || i >= s.len() {
        seq![]
    } else {
        let j = skip_white(s, i);
        if j >= s.len() {
            seq![]
        } else {
            let k = word_end(s, j);
            if k <= i || k > s.len() {
                seq![]
            } else {
                seq![s.subrange(j, k)] + words_from(s, k)
            }
        }
    }
}

/// The maximal runs of non-white characters of `s`, in order.
pub open spec fn words(s: Seq<char>) -> Seq<Seq<char>> {
    words_from(s, 0)
}

// ---------------------------------------------------------------------------
// Lemmas
// ---------------------------------------------------------------------------

proof fn lemma_skip_white_bounds(s: Seq<char>, i: int)
    requires
        0 <= i <= s.len(),
    ensures
        i <= skip_white(s, i) <= s.len(),
        skip_white(s, i) < s.len() ==> !is_white(s[skip_white(s, i)]),
        forall|m: int| i <= m < skip_white(s, i) ==> is_white(#[trigger] s[m]),
    decreases s.len() - i,
{
    if i < s.len() && is_white(s[i]) {
        lemma_skip_white_bounds(s, i + 1);
    }
}

proof fn lemma_word_end_bounds(s: Seq<char>, i: int)
    requires
        0 <= i <= s.len(),
    ensures
        i <= word_end(s, i) <= s.len(),
        word_end(s, i) < s.len() ==> is_white(s[word_end(s, i)]),
        forall|m: int| i <= m < word_end(s, i) ==> !is_white(#[trigger] s[m]),
    decreases s.len() - i,
{
    if i < s.len() && !is_white(s[i]) {
        lemma_word_end_bounds(s, i + 1);
    }
}

proof fn lemma_before_first_found(s: Seq<char>, c: char, i: int)
    requires
        0 <= i < s.len(),
        s[i] == c,
        forall|m: int| 0 <= m < i ==> s[m] != c,
    ensures
        before_first(s, c) == s.take(i),
    decreases i,
{
    if i > 0 {
        lemma_before_first_found(s.skip(1), c, i - 1);
        assert(seq![s[0]] + s.skip(1).take(i - 1) =~= s.take(i));
    }
}

proof fn lemma_before_first_absent(s: Seq<char>, c: char)
    requires
        forall|m: int| 0 <= m < s.len() ==> s[m] != c,
    ensures
        before_first(s, c) == s,
    decreases s.len(),
{
    if s.len() > 0 {
        lemma_before_first_absent(s.skip(1), c);
        assert(seq![s[0]] + s.skip(1) =~= s);
    }
}

// ---------------------------------------------------------------------------
// Executable operations
// ---------------------------------------------------------------------------

/// The characters of `s`, in order.
pub fn chars_of(s: &str) -> (v: Vec<char>)
    ensures
        v@ == s@,
{
    let mut v: Vec<char> = Vec::new();
    for c in it: s.chars()
        invariant
            v@ == it.seq().take(it.index() as int),
            it.seq() == s@,
    {
        v.push(c);
        proof {
            assert(it.seq().take(it.index() + 1) =~= it.seq().take(it.index() as int).push(c));
        }
    }
    v
}

/// Collects characters into a `String` (std's `FromIterator<&char> for String`,
/// which appends the characters in order).
#[verifier::external_body]
pub(crate) fn string_of(v: &[char]) -> (s: String)
    ensures
        s@ == v@,
{
    v.iter().collect()
}

/// Appends all of `t` to `out`.
pub fn push_all(out: &mut Vec<char>, t: &[char])
    ensures
        final(out)@ == old(out)@ + t@,
{
    let mut k: usize = 0;
    while k < t.len()
        invariant
            k <= t.len(),
            out@ == old(out)@ + t@.take(k as int),
        decreases t.len() - k,
    {
        out.push(t[k]);
        k = k + 1;
        proof {
            assert(old(out)@ + t@.take(k as int) =~= old(out)@ + t@.take(k - 1) + seq![t@[k - 1]]);
        }
    }
    proof {
        assert(t@.take(t@.len() as int) =~= t@);
    }
}

/// Whether `pat` occurs in `s` at position `i`.
pub fn occurs_at_exec(s: &[char], pat: &[char], i: usize) -> (b: bool)
    ensures
        b == occurs_at(s@, pat@, i as int),
{
    if i > s.len() || pat.len() > s.len() - i {
        return false;
    }
    let mut k: usize = 0;
    while k < pat.len()
        invariant
            i + pat@.len() <= s@.len(),
            pat@.len() == pat.len(),
            s@.len() == s.len(),
            k <= pat.len(),
            forall|m: int| 0 <= m < k ==> s@[i + m] == pat@[m],
        decreases pat.len() - k,
    {
        if s[i + k] != pat[k] {
            proof {
                assert(s@.subrange(i as int, i + pat@.len())[k as int] != pat@[k as int]);
            }
            return false;
        }
        k = k + 1;
    }
    proof {
        assert(s@.subrange(i as int, i + pat@.len()) =~= pat@);
    }
    true
}

/// Whether `pat` occurs anywhere in `s`.
pub fn has_infix_exec(s: &[char], pat: &[char]) -> (b: bool)
    ensures
        b == has_infix(s@, pat@),
{
    if pat.len() > s.len() {
        proof {
            assert forall|i: int| !occurs_at(s@, pat@, i) by {}
        }
        return false;
    }
    if pat.len() == 0 {
        proof {
            assert(s@.subrange(0, 0) =~= pat@);
            assert(occurs_at(s@, pat@, 0));
        }
        return true;
    }
    let last = s.len() - pat.len();
    let mut i: usize = 0;
    while i <= last
        invariant
            last == s@.len() - pat@.len(),
            pat@.len() > 0,
            s@.len() == s.len(),
            i <= last + 1,
            forall|m: int| 0 <= m < i ==> !occurs_at(s@, pat@, m),
        decreases last + 1 - i,
    {
        if occurs_at_exec(s, pat, i) {
            return true;
        }
        i = i + 1;
    }
    proof {
        assert forall|m: int| !occurs_at(s@, pat@, m) by {
            if 0 <= m && m < i {
            }
        }
    }
    false
}

/// Whether the string `s` contains the string `pat`.
pub fn contains_str(s: &str, pat: &str) -> (b: bool)
    ensures
        b == has_infix(s@, pat@),
{
    let sv = chars_of(s);
    let pv = chars_of(pat);
    has_infix_exec(sv.as_slice(), pv.as_slice())
}

/// Every non-overlapping occurrence of `pat` (scanned from the left) replaced by `rep`.
pub fn replace_all_exec(s: &[char], pat: &[char], rep: &[char]) -> (r: Vec<char>)
    requires
        pat@.len() > 0,
    ensures
        r@ == replace_all(s@, pat@, rep@),
{
    let mut out: Vec<char> = Vec::new();
    let mut i: usize = 0;
    proof {
        assert(s@.skip(0) =~= s@);
    }
    while i < s.len()
        invariant
            pat@.len() > 0,
            i <= s@.len(),
            out@ + replace_all(s@.skip(i as int), pat@, rep@) == replace_all(s@, pat@, rep@),
        decreases s.len() - i,
    {
        let ghost rest = s@.skip(i as int);
        if occurs_at_exec(s, pat, i) {
            proof {
                assert(rest.subrange(0, pat@.len() as int) =~= s@.subrange(i as int, i + pat@.len()));
                assert(rest.skip(pat@.len() as int) =~= s@.skip(i + pat@.len()));
                assert(out@ + rep@ + replace_all(s@.skip(i + pat@.len()), pat@, rep@)
                    =~= out@ + replace_all(rest, pat@, rep@));
            }
            push_all(&mut out, rep);
            i = i + pat.len();
        } else {
            proof {
                assert(rest.skip(1) =~= s@.skip(i + 1));
                if rest.len() >= pat@.len() {
                    assert(rest.subrange(0, pat@.len() as int) =~= s@.subrange(i as int, i + pat@.len()));
                } else {
                    assert(replace_all(rest.skip(1), pat@, rep@) == rest.skip(1));
                    assert(seq![rest[0]] + rest.skip(1) =~= rest);
                }
                assert(out@.push(s@[i as int]) + replace_all(s@.skip(i + 1), pat@, rep@)
                    =~= out@ + replace_all(rest, pat@, rep@));
            }
            out.push(s[i]);
            i = i + 1;
        }
    }
    proof {
        assert(s@.skip(i as int) =~= Seq::<char>::empty());
        assert(out@ + Seq::<char>::empty() =~= out@);
    }
    out
}

/// `s` with every occurrence of `pat` replaced by `rep`.
pub fn replace_str(s: &str, pat: &str, rep: &str) -> (r: String)
    requires
        pat@.len() > 0,
    ensures
        r@ == replace_all(s@, pat@, rep@),
{
    let sv = chars_of(s);
    let pv = chars_of(pat);
    let rv = chars_of(rep);
    let out = replace_all_exec(sv.as_slice(), pv.as_slice(), rv.as_slice());
    string_of(out.as_slice())
}

/// The decimal digit character of `d < 10`.
fn digit_char_exec(d: u32) -> (c: char)
    requires
        d < 10,
    ensures
        c == digit_char(d as nat),
{
    if d == 0 { '0' }
    else if d == 1 { '1' }
    else if d == 2 { '2' }
    else if d == 3 { '3' }
    else if d == 4 { '4' }
    else if d == 5 { '5' }
    else if d == 6 { '6' }
    else if d == 7 { '7' }
    else if d == 8 { '8' }
    else { '9' }
}

/// The decimal numeral of `n`.
pub fn decimal_chars(n: u32) -> (v: Vec<char>)
    ensures
        v@ == decimal(n as nat),
    decreases n,
{
    if n < 10 {
        let mut v: Vec<char> = Vec::new();
        v.push(digit_char_exec(n));
        v
    } else {
        let mut v = decimal_chars(n / 10);
        v.push(digit_char_exec(n % 10));
        v
    }
}

/// The decimal numeral of `n`, as a `String`.
pub fn decimal_string(n: u32) -> (s: String)
    ensures
        s@ == decimal(n as nat),
{
    let v = decimal_chars(n);
    string_of(v.as_slice())
}

/// The concatenation of `a` and `b`.
pub fn concat(a: &str, b: &str) -> (s: String)
    ensures
        s@ == a@ + b@,
{
    let mut av = chars_of(a);
    let bv = chars_of(b);
    push_all(&mut av, bv.as_slice());
    string_of(av.as_slice())
}

/// The path `base` extended by `rel` (see [`join_path`]).
pub fn join(base: &str, rel: &str) -> (s: String)
    ensures
        s@ == join_path(base@, rel@),
{
    let bv = chars_of(base);
    let rv = chars_of(rel);
    if rv.len() > 0 && rv[0] == '/' {
        string_of(rv.as_slice())
    } else if bv.len() == 0 || bv[bv.len() - 1] == '/' {
        let mut out = bv;
        push_all(&mut out, rv.as_slice());
        string_of(out.as_slice())
    } else {
        let mut out = bv;
        out.push('/');
        push_all(&mut out, rv.as_slice());
        string_of(out.as_slice())
    }
}

/// The part of `s` before the first `c`.
pub fn before_first_exec(s: &[char], c: char) -> (r: Vec<char>)
    ensures
        r@ == before_first(s@, c),
{
    let mut r: Vec<char> = Vec::new();
    let mut i: usize = 0;
    while i < s.len()
        invariant
            i <= s@.len(),
            r@ == s@.take(i as int),
            forall|m: int| 0 <= m < i ==> s@[m] != c,
        decreases s.len() - i,
    {
        if s[i] == c {
            proof {
                lemma_before_first_found(s@, c, i as int);
            }
            return r;
        }
        r.push(s[i]);
        i = i + 1;
        proof {
            assert(s@.take(i as int) =~= s@.take(i - 1).push(s@[i - 1]));
        }
    }
    proof {
        lemma_before_first_absent(s@, c);
        assert(s@.take(i as int) =~= s@);
    }
    r
}

/// Whether `c` has the Unicode `White_Space` property.
pub fn is_white_exec(c: char) -> (b: bool)
    ensures
        b == is_white(c),
{
    let u = c as u32;
    (0x09 <= u && u <= 0x0D) || u == 0x20 || u == 0x85 || u == 0xA0 || u == 0x1680
        || (0x2000 <= u && u <= 0x200A) || u == 0x2028 || u == 0x2029 || u == 0x202F
        || u == 0x205F || u == 0x3000
}

/// The white-space separated words of `s`, in order.
pub fn words_exec(s: &[char]) -> (ws: Vec<Vec<char>>)
    ensures
        ws@.len() == words(s@).len(),
        forall|k: int| 0 <= k < ws@.len() ==> (#[trigger] ws@[k])@ == words(s@)[k],
{
    let mut ws: Vec<Vec<char>> = Vec::new();
    let mut i: usize = 0;
    let ghost all = words(s@);
    while i < s.len()
        invariant
            i <= s@.len(),
            all == words(s@),
            ws@.len() + words_from(s@, i as int).len() == all.len(),
            forall|k: int| 0 <= k < ws@.len() ==> (#[trigger] ws@[k])@ == all[k],
            forall|k: int| 0 <= k < words_from(s@, i as int).len()
                ==> #[trigger] words_from(s@, i as int)[k] == all[ws@.len() + k],
        decreases s.len() - i,
    {
        let ghost i0 = i as int;
        proof {
            lemma_skip_white_bounds(s@, i0);
        }
        let mut j = i;
        while j < s.len() && is_white_exec(s[j])
            invariant
                i0 <= j <= s@.len(),
                skip_white(s@, j as int) == skip_white(s@, i0),
            decreases s.len() - j,
        {
            j = j + 1;
        }
        if j >= s.len() {
            proof {
                assert(words_from(s@, i0) =~= Seq::<Seq<char>>::empty());
            }
            i = j;
            proof {
                assert(words_from(s@, i as int) =~= Seq::<Seq<char>>::empty());
            }
        } else {
            proof {
                lemma_word_end_bounds(s@, j as int);
            }
            let mut k = j;
            let mut w: Vec<char> = Vec::new();
            while k < s.len() && !is_white_exec(s[k])
                invariant
                    j <= k <= s@.len(),
                    word_end(s@, k as int) == word_end(s@, j as int),
                    w@ == s@.subrange(j as int, k as int),
                decreases s.len() - k,
            {
                w.push(s[k]);
                k = k + 1;
                proof {
                    assert(w@ =~= s@.subrange(j as int, k as int));
                }
            }
            proof {
                assert(word_end(s@, k as int) == k);
                assert(words_from(s@, i0) == seq![w@] + words_from(s@, k as int));
                assert(words_from(s@, i0)[0] == w@);
                assert forall|m: int| 0 <= m < words_from(s@, k as int).len()
                    implies #[trigger] words_from(s@, k as int)[m] == all[ws@.len() + 1 + m] by {
                    assert(words_from(s@, i0)[m + 1] == words_from(s@, k as int)[m]);
                }
            }
            ws.push(w);
            i = k;
        }
    }
    proof {
        assert(words_from(s@, i as int) =~= Seq::<Seq<char>>::empty());
    }
    ws
}

/// What std's `str::to_lowercase` returns for `s` (the Unicode lower-case mapping of
/// every character, in order).
pub uninterp spec fn lowercase(s: Seq<char>) -> Seq<char>;

/// std's `str::to_lowercase`: the result is named by [`lowercase`] and nothing more
/// is claimed of it.
#[verifier::external_body]
pub(crate) fn to_lowercase(s: &str) -> (r: String)
    ensures
        r@ == lowercase(s@),
{
    s.to_lowercase()
}

/// Whether two character sequences are equal.
pub fn same_chars(a: &[char], b: &[char]) -> (r: bool)
    ensures
        r == (a@ == b@),
{
    if a.len() != b.len() {
        return false;
    }
    let mut i: usize = 0;
    while i < a.len()
        invariant
            a@.len() == b@.len(),
            i <= a@.len(),
            forall|m: int| 0 <= m < i ==> a@[m] == b@[m],
        decreases a.len() - i,
    {
        if a[i] != b[i] {
            return false;
        }
        i = i + 1;
    }
    proof {
        assert(a@ =~= b@);
    }
    true
}

/// What std's `Path::parent` returns for the path `p`: the path without its final
/// component, `None` when the path ends in a root or is empty.
pub uninterp spec fn parent_path(p: Seq<char>) -> Option<Seq<char>>;

/// std's `Path::parent`. Claimed: the result is [`parent_path`] of the argument, and an
/// empty path has no parent (as std's documentation states). Which component is
/// removed, and how separators and `.` are treated, is left to the name.
#[verifier::external_body]
pub(crate) fn path_parent(p: &str) -> (r: Option<String>)
    ensures
        r is Some <==> parent_path(p@) is Some,
        r matches Some(q) ==> q@ == parent_path(p@)->0,
        p@.len() == 0 ==> r is None,
{
    std::path::Path::new(p).parent().map(|q| q.to_string_lossy().into_owned())
}

/// A byte that URL encoding leaves as it is: ASCII letters, digits and `-._~`.
pub open spec fn url_unreserved(b: u8) -> bool {
    ||| (0x30 <= b && b <= 0x39)
    ||| (0x41 <= b && b <= 0x5A)
    ||| (0x61 <= b && b <= 0x7A)
    ||| b == 0x2D
    ||| b == 0x2E
    ||| b == 0x5F
    ||| b == 0x7E
}

/// The upper-case hexadecimal digit of `d < 16`.
pub open spec fn hex_digit(d: nat) -> char {
    if d < 10 { digit_char(d) }
    else if d == 10 { 'A' }
    else if d == 11 { 'B' }
    else if d == 12 { 'C' }
    else if d == 13 { 'D' }
    else if d == 14 { 'E' }
    else { 'F' }
}

/// Percent-encoding of bytes: an unreserved byte stands for itself, every other byte
/// becomes `%` and its two upper-case hexadecimal digits.
pub open spec fn percent_encode(bytes: Seq<u8>) -> Seq<char>
    decreases bytes.len(),
{
    if bytes.len() == 0 {
        seq![]
    } else {
        let b = bytes[0];
        let head = if url_unreserved(b) {
            seq![b as char]
        } else {
            seq!['%', hex_digit((b / 16) as nat), hex_digit((b % 16) as nat)]
        };
        head + percent_encode(bytes.skip(1))
    }
}

/// `urlencoding::encode`: every byte of the UTF-8 encoding of `s` except ASCII letters,
/// digits and `-._~` is percent-encoded with upper-case hexadecimal digits.
#[verifier::external_body]
pub(crate) fn url_encode(s: &str) -> (r: String)
    ensures
        r@ == percent_encode(vstd::utf8::encode_utf8(s@)),
{
    urlencoding::encode(s).into_owned()
}

/// Whether two strings are equal.
pub fn str_eq(a: &str, b: &str) -> (r: bool)
    ensures
        r == (a@ == b@),
{
    let av = chars_of(a);
    let bv = chars_of(b);
    same_chars(av.as_slice(), bv.as_slice())
}

// ---------------------------------------------------------------------------
// Laws
// ---------------------------------------------------------------------------

/// Replacing every `c` by a text without `c` leaves no `c`.
pub proof fn law_replace_char_removes(s: Seq<char>, c: char, rep: Seq<char>)
    requires
        forall|i: int| 0 <= i < rep.len() ==> rep[i] != c,
    ensures
        forall|i: int| 0 <= i < replace_all(s, seq![c], rep).len()
            ==> #[trigger] replace_all(s, seq![c], rep)[i] != c,
    decreases s.len(),
{
    if s.len() >= 1 {
        law_replace_char_removes(s.skip(1), c, rep);
        let rest = replace_all(s.skip(1), seq![c], rep);
        if s.subrange(0, 1) == seq![c] {
            assert(replace_all(s, seq![c], rep) == rep + rest);
        } else {
            assert(s[0] != c) by {
                if s[0] == c {
                    assert(s.subrange(0, 1) =~= seq![c]);
                }
            }
            assert(replace_all(s, seq![c], rep) == seq![s[0]] + rest);
        }
    }
}

/// Replacing a character keeps every other character absent: if `d` is neither in `s`
/// nor in `rep`, it is not in the result.
pub proof fn law_replace_char_keeps_absent(s: Seq<char>, c: char, rep: Seq<char>, d: char)
    requires
        forall|i: int| 0 <= i < rep.len() ==> rep[i] != d,
        forall|i: int| 0 <= i < s.len() ==> s[i] != d,
    ensures
        forall|i: int| 0 <= i < replace_all(s, seq![c], rep).len()
            ==> #[trigger] replace_all(s, seq![c], rep)[i] != d,
    decreases s.len(),
{
    if s.len() >= 1 {
        law_replace_char_keeps_absent(s.skip(1), c, rep, d);
        let rest = replace_all(s.skip(1), seq![c], rep);
        if s.subrange(0, 1) == seq![c] {
            assert(replace_all(s, seq![c], rep) == rep + rest);
        } else {
            assert(replace_all(s, seq![c], rep) == seq![s[0]] + rest);
        }
    }
}

/// The part before the first `c` holds no `c`.
pub proof fn law_before_first_has_no_separator(s: Seq<char>, c: char)
    ensures
        forall|i: int| 0 <= i < before_first(s, c).len() ==> #[trigger] before_first(s, c)[i] != c,
    decreases s.len(),
{
    if s.len() > 0 && s[0] != c {
        law_before_first_has_no_separator(s.skip(1), c);
        assert(before_first(s, c) == seq![s[0]] + before_first(s.skip(1), c));
    }
}

/// A relative path joined to a base ends with that relative path.
pub proof fn law_join_ends_with(base: Seq<char>, rel: Seq<char>)
    ensures
        join_path(base, rel).len() >= rel.len(),
        join_path(base, rel).subrange(
            join_path(base, rel).len() - rel.len(),
            join_path(base, rel).len() as int,
        ) == rel,
{
    let j = join_path(base, rel);
    assert(j.subrange(j.len() - rel.len(), j.len() as int) =~= rel);
}

/// Every character of a URL encoding is unreserved, `%`, or an upper-case hexadecimal
/// digit: the encoding is plain ASCII that needs no further escaping.
pub proof fn law_percent_encode_is_url_safe(bytes: Seq<u8>)
    ensures
        forall|i: int| 0 <= i < percent_encode(bytes).len() ==> {
            let ch = #[trigger] percent_encode(bytes)[i];
            ||| ('0' <= ch && ch <= '9')
            ||| ('A' <= ch && ch <= 'Z')
            ||| ('a' <= ch && ch <= 'z')
            ||| ch == '-' || ch == '.' || ch == '_' || ch == '~' || ch == '%'
        },
    decreases bytes.len(),
{
    if bytes.len() > 0 {
        law_percent_encode_is_url_safe(bytes.skip(1));
        let b = bytes[0];
        let hi = (b / 16) as nat;
        let lo = (b % 16) as nat;
        assert(hex_digit(hi) == '%' || ('0' <= hex_digit(hi) && hex_digit(hi) <= '9') || ('A' <= hex_digit(hi) && hex_digit(hi) <= 'F'));
        assert(hex_digit(lo) == '%' || ('0' <= hex_digit(lo) && hex_digit(lo) <= '9') || ('A' <= hex_digit(lo) && hex_digit(lo) <= 'F'));
        let head = if url_unreserved(b) {
            seq![b as char]
        } else {
            seq!['%', hex_digit(hi), hex_digit(lo)]
        };
        assert(percent_encode(bytes) == head + percent_encode(bytes.skip(1)));
    }
}

} // verus!
