//! Character classes and left-to-right scanning primitives shared by the
//! name parser and the normalizer.
//!
//! The central spec function is [`seek`], which gives the first position at
//! or after `from` whose character satisfies a predicate.  Each executable
//! scanner proves that the index it computes equals the corresponding
//! `seek` value.

use vstd::prelude::*;

verus! {

/// The characters that end a coarse name token: space and tab.
pub open spec fn is_sep_char(c: char) -> bool {
    c == ' ' || c == '\t'
}

/// The wider whitespace class used after a subordinate epithet.
pub open spec fn is_multispace_char(c: char) -> bool {
    c == ' ' || c == '\t' || c == '\n' || c == '\r'
}

/// ASCII letters and digits, the only characters allowed in a hybrid
/// parent epithet.
pub open spec fn is_alnum_char(c: char) -> bool {
    ('a' <= c && c <= 'z') || ('A' <= c && c <= 'Z') || ('0' <= c && c <= '9')
}

/// The botanical hybrid marker: the multiplication sign code point, not the
/// ASCII letter `x`.
pub open spec fn hybrid_mark() -> char {
    '\u{d7}'
}

/// First index `k` with `from <= k < s.len()` such that `p(s[k])`, or
/// `s.len()` when no such index exists.
pub open spec fn seek(s: Seq<char>, from: int, p: spec_fn(char) -> bool) -> int
    decreases s.len() - from when 0 <= from <= s.len()
{
    if from >= s.len() {
        s.len() as int
    } else if p(s[from]) {
        from
    } else {
        seek(s, from + 1, p)
    }
}

pub(crate) proof fn lemma_seek(s: Seq<char>, from: int, p: spec_fn(char) -> bool)
    requires
        0 <= from <= s.len(),
    ensures
        from <= seek(s, from, p) <= s.len(),
        forall|j: int| from <= j < seek(s, from, p) ==> !p(s[j]),
        seek(s, from, p) < s.len() ==> p(s[seek(s, from, p)]),
    decreases s.len() - from,
{
    if from < s.len() && !p(s[from]) {
        lemma_seek(s, from + 1, p);
    }
}

/// An index below which `p` never holds and at which `p` holds (or the end)
/// is exactly the `seek` value.
pub(crate) proof fn lemma_seek_is(s: Seq<char>, from: int, k: int, p: spec_fn(char) -> bool)
    requires
        0 <= from <= k <= s.len(),
        forall|j: int| from <= j < k ==> !p(s[j]),
        k < s.len() ==> p(s[k]),
    ensures
        seek(s, from, p) == k,
    decreases k - from,
{
    if from < k {
        lemma_seek_is(s, from + 1, k, p);
    }
}

/// `t` occurs in `s` starting at position `j`.
pub open spec fn is_substr_at(s: Seq<char>, j: int, t: Seq<char>) -> bool {
    0 <= j && j + t.len() <= s.len() && s.subrange(j, j + t.len() as int) == t
}

/// The marker that introduces a variety epithet.
pub open spec fn variety_marker() -> Seq<char> {
    seq![' ', 'v', 'a', 'r', '.', ' ']
}

/// The marker that introduces a subspecies epithet.
pub open spec fn subspecies_marker() -> Seq<char> {
    seq![' ', 's', 's', 'p', '.', ' ']
}

/// The marker of an orthographic variant.
pub open spec fn orth_var_marker() -> Seq<char> {
    seq![',', ' ', 'o', 'r', 't', 'h', '.', ' ', 'v', 'a', 'r', '.']
}

/// The opening of a bracketed hybrid parent pair.
pub open spec fn hybrid_open_marker() -> Seq<char> {
    seq![' ', '[']
}

/// The separator between the two parent epithets of a hybrid pair.
pub open spec fn hybrid_sep_marker() -> Seq<char> {
    seq![' ', '\u{d7}', ' ']
}

/// One of the four author-citation terminators occurs at position `j`.
pub open spec fn marker_at(s: Seq<char>, j: int) -> bool {
    ||| is_substr_at(s, j, variety_marker())
    ||| is_substr_at(s, j, subspecies_marker())
    ||| is_substr_at(s, j, orth_var_marker())
    ||| is_substr_at(s, j, hybrid_open_marker())
}

/// First position `k >= from` where a marker occurs, or `s.len()`.
pub open spec fn find_marker(s: Seq<char>, from: int) -> int
    decreases s.len() - from when 0 <= from <= s.len()
{
    if from >= s.len() {
        s.len() as int
    } else if marker_at(s, from) {
        from
    } else {
        find_marker(s, from + 1)
    }
}

pub(crate) proof fn lemma_find_marker_is(s: Seq<char>, from: int, k: int)
    requires
        0 <= from <= k <= s.len(),
        forall|j: int| from <= j < k ==> !marker_at(s, j),
        k < s.len() ==> marker_at(s, k),
    ensures
        find_marker(s, from) == k,
    decreases k - from,
{
    if from < k {
        lemma_find_marker_is(s, from + 1, k);
    }
}

pub(crate) proof fn lemma_variety_lit()
    ensures
        " var. "@ == variety_marker(),
{
    reveal_strlit(" var. ");
    assert(" var. "@ =~= variety_marker());
}

pub(crate) proof fn lemma_subspecies_lit()
    ensures
        " ssp. "@ == subspecies_marker(),
{
    reveal_strlit(" ssp. ");
    assert(" ssp. "@ =~= subspecies_marker());
}

pub(crate) proof fn lemma_orth_var_lit()
    ensures
        ", orth. var."@ == orth_var_marker(),
{
    reveal_strlit(", orth. var.");
    assert(", orth. var."@ =~= orth_var_marker());
}

pub(crate) proof fn lemma_hybrid_sep_lit()
    ensures
        " \u{d7} "@ == hybrid_sep_marker(),
{
    reveal_strlit(" \u{d7} ");
    assert(" \u{d7} "@ =~= hybrid_sep_marker());
}

pub(crate) proof fn lemma_hybrid_open_lit()
    ensures
        " ["@ == hybrid_open_marker(),
{
    reveal_strlit(" [");
    assert(" ["@ =~= hybrid_open_marker());
}

/// Whether `pat` occurs in `s` at position `j`.  `n` and `m` are the
/// character lengths of `s` and `pat`.
pub(crate) fn starts_with_at(s: &str, n: usize, j: usize, pat: &str, m: usize) -> (r: bool)
    requires
        n == s@.len(),
        m == pat@.len(),
        j <= n,
    ensures
        r == is_substr_at(s@, j as int, pat@),
{
    if m > n - j {
        return false;
    }
    let mut k: usize = 0;
    while k < m
        invariant
            n == s@.len(),
            m == pat@.len(),
            j + m <= n,
            k <= m,
            forall|i: int| 0 <= i < k ==> s@[j + i] == pat@[i],
        decreases m - k,
    {
        if s.get_char(j + k) != pat.get_char(k) {
            assert(s@.subrange(j as int, j + m) != pat@) by {
                assert(s@.subrange(j as int, j + m)[k as int] != pat@[k as int]);
            }
            return false;
        }
        k += 1;
    }
    assert(s@.subrange(j as int, j + m) =~= pat@);
    true
}

/// Character-wise string equality, usable where the result must be related
/// to the views of the two strings.
pub(crate) fn str_eq(a: &str, b: &str) -> (r: bool)
    ensures
        r == (a@ == b@),
{
    let n = a.unicode_len();
    let m = b.unicode_len();
    if n != m {
        return false;
    }
    let mut k: usize = 0;
    while k < n
        invariant
            n == a@.len(),
            n == b@.len(),
            k <= n,
            forall|i: int| 0 <= i < k ==> a@[i] == b@[i],
        decreases n - k,
    {
        if a.get_char(k) != b.get_char(k) {
            assert(a@ != b@) by {
                assert(a@[k as int] != b@[k as int]);
            }
            return false;
        }
        k += 1;
    }
    assert(a@ =~= b@);
    true
}

/// The whitespace class used when a short canonical name is tokenized.
pub open spec fn is_wspace_char(c: char) -> bool {
    c == ' ' || c == '\t' || c == '\n' || c == '\r' || c == '\u{b}' || c == '\u{c}'
}

pub open spec fn sep_pred() -> spec_fn(char) -> bool {
    |c: char| is_sep_char(c)
}

pub open spec fn non_sep_pred() -> spec_fn(char) -> bool {
    |c: char| !is_sep_char(c)
}

pub open spec fn non_hyb_pred() -> spec_fn(char) -> bool {
    |c: char| c != hybrid_mark()
}

pub open spec fn space_pred() -> spec_fn(char) -> bool {
    |c: char| c == ' '
}

pub open spec fn non_multispace_pred() -> spec_fn(char) -> bool {
    |c: char| !is_multispace_char(c)
}

pub open spec fn non_alnum_pred() -> spec_fn(char) -> bool {
    |c: char| !is_alnum_char(c)
}

pub open spec fn newline_pred() -> spec_fn(char) -> bool {
    |c: char| c == '\n'
}

pub open spec fn wspace_pred() -> spec_fn(char) -> bool {
    |c: char| is_wspace_char(c)
}

pub open spec fn non_wspace_pred() -> spec_fn(char) -> bool {
    |c: char| !is_wspace_char(c)
}

/// End of the coarse token starting at `from`: the first space or tab.
pub open spec fn token_end(s: Seq<char>, from: int) -> int {
    seek(s, from, sep_pred())
}

/// End of the run of spaces and tabs starting at `from`.
pub open spec fn ws_run_end(s: Seq<char>, from: int) -> int {
    seek(s, from, non_sep_pred())
}

/// End of the run of hybrid-marker code points starting at `from`.
pub open spec fn hyb_run_end(s: Seq<char>, from: int) -> int {
    seek(s, from, non_hyb_pred())
}

/// First plain space at or after `from`.
pub open spec fn space_pos(s: Seq<char>, from: int) -> int {
    seek(s, from, space_pred())
}

/// End of the run of multispace characters starting at `from`.
pub open spec fn multispace_run_end(s: Seq<char>, from: int) -> int {
    seek(s, from, non_multispace_pred())
}

/// End of the run of ASCII alphanumerics starting at `from`.
pub open spec fn alnum_run_end(s: Seq<char>, from: int) -> int {
    seek(s, from, non_alnum_pred())
}

/// First newline at or after `from`.
pub open spec fn newline_pos(s: Seq<char>, from: int) -> int {
    seek(s, from, newline_pred())
}

/// Start of the next whitespace-delimited word at or after `from`.
pub open spec fn word_start(s: Seq<char>, from: int) -> int {
    seek(s, from, non_wspace_pred())
}

/// End of the whitespace-delimited word starting at `from`.
pub open spec fn word_end(s: Seq<char>, from: int) -> int {
    seek(s, from, wspace_pred())
}

pub(crate) fn scan_token_end(s: &str, n: usize, from: usize) -> (k: usize)
    requires
        n == s@.len(),
        from <= n,
    ensures
        k == token_end(s@, from as int),
        from <= k <= n,
{
    let mut j = from;
    while j < n
        invariant
            n == s@.len(),
            from <= j <= n,
            forall|i: int| from <= i < j ==> !is_sep_char(s@[i]),
        ensures
            from <= j <= n,
            forall|i: int| from <= i < j ==> !is_sep_char(s@[i]),
            j < n ==> is_sep_char(s@[j as int]),
        decreases n - j,
    {
        let c = s.get_char(j);
        if c == ' ' || c == '\t' {
            break;
        }
        j += 1;
    }
    proof {
        lemma_seek_is(s@, from as int, j as int, sep_pred());
    }
    j
}

pub(crate) fn scan_ws_run_end(s: &str, n: usize, from: usize) -> (k: usize)
    requires
        n == s@.len(),
        from <= n,
    ensures
        k == ws_run_end(s@, from as int),
        from <= k <= n,
{
    let mut j = from;
    while j < n
        invariant
            n == s@.len(),
            from <= j <= n,
            forall|i: int| from <= i < j ==> is_sep_char(s@[i]),
        ensures
            from <= j <= n,
            forall|i: int| from <= i < j ==> is_sep_char(s@[i]),
            j < n ==> !is_sep_char(s@[j as int]),
        decreases n - j,
    {
        let c = s.get_char(j);
        if !(c == ' ' || c == '\t') {
            break;
        }
        j += 1;
    }
    proof {
        lemma_seek_is(s@, from as int, j as int, non_sep_pred());
    }
    j
}

pub(crate) fn scan_hyb_run_end(s: &str, n: usize, from: usize) -> (k: usize)
    requires
        n == s@.len(),
        from <= n,
    ensures
        k == hyb_run_end(s@, from as int),
        from <= k <= n,
{
    let mut j = from;
    while j < n && s.get_char(j) == '\u{d7}'
        invariant
            n == s@.len(),
            from <= j <= n,
            forall|i: int| from <= i < j ==> s@[i] == hybrid_mark(),
        decreases n - j,
    {
        j += 1;
    }
    proof {
        lemma_seek_is(s@, from as int, j as int, non_hyb_pred());
    }
    j
}

pub(crate) fn scan_space_pos(s: &str, n: usize, from: usize) -> (k: usize)
    requires
        n == s@.len(),
        from <= n,
    ensures
        k == space_pos(s@, from as int),
        from <= k <= n,
{
    let mut j = from;
    while j < n && s.get_char(j) != ' '
        invariant
            n == s@.len(),
            from <= j <= n,
            forall|i: int| from <= i < j ==> s@[i] != ' ',
        decreases n - j,
    {
        j += 1;
    }
    proof {
        lemma_seek_is(s@, from as int, j as int, space_pred());
    }
    j
}

pub(crate) fn scan_multispace_run_end(s: &str, n: usize, from: usize) -> (k: usize)
    requires
        n == s@.len(),
        from <= n,
    ensures
        k == multispace_run_end(s@, from as int),
        from <= k <= n,
{
    let mut j = from;
    while j < n
        invariant
            n == s@.len(),
            from <= j <= n,
            forall|i: int| from <= i < j ==> is_multispace_char(s@[i]),
        ensures
            from <= j <= n,
            forall|i: int| from <= i < j ==> is_multispace_char(s@[i]),
            j < n ==> !is_multispace_char(s@[j as int]),
        decreases n - j,
    {
        let c = s.get_char(j);
        if !(c == ' ' || c == '\t' || c == '\n' || c == '\r') {
            break;
        }
        j += 1;
    }
    proof {
        lemma_seek_is(s@, from as int, j as int, non_multispace_pred());
    }
    j
}

pub(crate) fn scan_alnum_run_end(s: &str, n: usize, from: usize) -> (k: usize)
    requires
        n == s@.len(),
        from <= n,
    ensures
        k == alnum_run_end(s@, from as int),
        from <= k <= n,
{
    let mut j = from;
    while j < n
        invariant
            n == s@.len(),
            from <= j <= n,
            forall|i: int| from <= i < j ==> is_alnum_char(s@[i]),
        ensures
            from <= j <= n,
            forall|i: int| from <= i < j ==> is_alnum_char(s@[i]),
            j < n ==> !is_alnum_char(s@[j as int]),
        decreases n - j,
    {
        let c = s.get_char(j);
        if !(('a' <= c && c <= 'z') || ('A' <= c && c <= 'Z') || ('0' <= c && c <= '9')) {
            break;
        }
        j += 1;
    }
    proof {
        lemma_seek_is(s@, from as int, j as int, non_alnum_pred());
    }
    j
}

pub(crate) fn scan_newline_pos(s: &str, n: usize, from: usize) -> (k: usize)
    requires
        n == s@.len(),
        from <= n,
    ensures
        k == newline_pos(s@, from as int),
        from <= k <= n,
{
    let mut j = from;
    while j < n && s.get_char(j) != '\n'
        invariant
            n == s@.len(),
            from <= j <= n,
            forall|i: int| from <= i < j ==> s@[i] != '\n',
        decreases n - j,
    {
        j += 1;
    }
    proof {
        lemma_seek_is(s@, from as int, j as int, newline_pred());
    }
    j
}

pub(crate) fn scan_word_start(s: &str, n: usize, from: usize) -> (k: usize)
    requires
        n == s@.len(),
        from <= n,
    ensures
        k == word_start(s@, from as int),
        from <= k <= n,
{
    let mut j = from;
    while j < n
        invariant
            n == s@.len(),
            from <= j <= n,
            forall|i: int| from <= i < j ==> is_wspace_char(s@[i]),
        ensures
            from <= j <= n,
            forall|i: int| from <= i < j ==> is_wspace_char(s@[i]),
            j < n ==> !is_wspace_char(s@[j as int]),
        decreases n - j,
    {
        let c = s.get_char(j);
        if !(c == ' ' || c == '\t' || c == '\n' || c == '\r' || c == '\u{b}' || c == '\u{c}') {
            break;
        }
        j += 1;
    }
    proof {
        lemma_seek_is(s@, from as int, j as int, non_wspace_pred());
    }
    j
}

pub(crate) fn scan_word_end(s: &str, n: usize, from: usize) -> (k: usize)
    requires
        n == s@.len(),
        from <= n,
    ensures
        k == word_end(s@, from as int),
        from <= k <= n,
{
    let mut j = from;
    while j < n
        invariant
            n == s@.len(),
            from <= j <= n,
            forall|i: int| from <= i < j ==> !is_wspace_char(s@[i]),
        ensures
            from <= j <= n,
            forall|i: int| from <= i < j ==> !is_wspace_char(s@[i]),
            j < n ==> is_wspace_char(s@[j as int]),
        decreases n - j,
    {
        let c = s.get_char(j);
        if c == ' ' || c == '\t' || c == '\n' || c == '\r' || c == '\u{b}' || c == '\u{c}' {
            break;
        }
        j += 1;
    }
    proof {
        lemma_seek_is(s@, from as int, j as int, wspace_pred());
    }
    j
}

/// One of the four author-citation terminators occurs at position `j`;
/// executable counterpart of [`marker_at`].
pub(crate) fn marker_here(s: &str, n: usize, j: usize) -> (r: bool)
    requires
        n == s@.len(),
        j <= n,
    ensures
        r == marker_at(s@, j as int),
{
    proof {
        lemma_variety_lit();
        lemma_subspecies_lit();
        lemma_orth_var_lit();
        lemma_hybrid_open_lit();
    }
    starts_with_at(s, n, j, " var. ", 6) || starts_with_at(s, n, j, " ssp. ", 6)
        || starts_with_at(s, n, j, ", orth. var.", 12) || starts_with_at(s, n, j, " [", 2)
}

/// First position `k >= from` where a marker occurs; executable counterpart
/// of [`find_marker`].
pub(crate) fn scan_marker(s: &str, n: usize, from: usize) -> (k: usize)
    requires
        n == s@.len(),
        from <= n,
    ensures
        k == find_marker(s@, from as int),
        from <= k <= n,
{
    let mut j = from;
    while j < n && !marker_here(s, n, j)
        invariant
            n == s@.len(),
            from <= j <= n,
            forall|i: int| from <= i < j ==> !marker_at(s@, i),
        decreases n - j,
    {
        j += 1;
    }
    proof {
        lemma_find_marker_is(s@, from as int, j as int);
    }
    j
}

} // verus!
