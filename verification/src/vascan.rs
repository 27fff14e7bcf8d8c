//! Pure helpers for the remote-taxonomy import: converting the service's
//! canonical names to the normalizer's convention, URL-encoding query
//! batches, and the per-location acceptance rules.

use vstd::prelude::*;

use crate::grammar::hybrid_mark;
use crate::grammar::lemma_seek;
use crate::grammar::scan_space_pos;
use crate::grammar::space_pos;
use crate::grammar::space_pred;
use crate::grammar::str_eq;

verus! {

/// The short name handed to the normalizer for a canonical name
/// `genus species ...`: the first two space-separated fields, with a
/// leading botanical hybrid marker on the species turned into the ASCII
/// convention `x species`.  Fields beyond the second are dropped.
pub open spec fn spec_handle_hybrid(s: Seq<char>) -> Seq<char> {
    let g_end = space_pos(s, 0);
    let species = s.subrange(g_end + 1, space_pos(s, g_end + 1));
    s.subrange(0, g_end) + seq![' '] + (if species.len() > 0 && species[0] == hybrid_mark() {
        seq!['x', ' '] + species.subrange(1, species.len() as int)
    } else {
        species
    })
}

/// Rewrite a canonical name for the normalizer, per
/// [`spec_handle_hybrid`].  The input must hold at least one space, so
/// that a genus and a species field exist.
pub fn handle_hybrid(s: &str) -> (r: String)
    requires
        exists|k: int| 0 <= k < s@.len() && s@[k] == ' ',
    ensures
        r@ == spec_handle_hybrid(s@),
{
    let n = s.unicode_len();
    let g_end = scan_space_pos(s, n, 0);
    proof {
        lemma_seek(s@, 0, space_pred());
        if g_end == n {
            let k = choose|k: int| 0 <= k < s@.len() && s@[k] == ' ';
            assert(!space_pred()(s@[k]));
            assert(false);
        }
    }
    let sp_end = scan_space_pos(s, n, g_end + 1);
    let species = s.substring_char(g_end + 1, sp_end);
    let sn = species.unicode_len();
    let mut r = String::from_str(s.substring_char(0, g_end));
    proof {
        reveal_strlit(" ");
        reveal_strlit("x ");
        assert(" "@ =~= seq![' ']);
        assert("x "@ =~= seq!['x', ' ']);
    }
    r.append(" ");
    if sn > 0 && species.get_char(0) == '\u{d7}' {
        r.append("x ");
        r.append(species.substring_char(1, sn));
        proof {
            assert(r@ =~= spec_handle_hybrid(s@));
        }
    } else {
        r.append(species);
        proof {
            assert(r@ =~= spec_handle_hybrid(s@));
        }
    }
    r
}

/// `s` with every space replaced by `%20`, from position `from` on.
pub open spec fn encode_spaces_from(s: Seq<char>, from: int) -> Seq<char>
    decreases s.len() - from when 0 <= from <= s.len()
{
    if from >= s.len() {
        Seq::empty()
    } else {
        (if s[from] == ' ' {
            seq!['%', '2', '0']
        } else {
            seq![s[from]]
        }) + encode_spaces_from(s, from + 1)
    }
}

/// `s` with every space replaced by `%20`.
pub open spec fn spec_encode_spaces(s: Seq<char>) -> Seq<char> {
    encode_spaces_from(s, 0)
}

/// URL-encode a plant name for the search query: spaces become `%20`.
pub fn encode_name_for_query(s: &str) -> (r: String)
    ensures
        r@ == spec_encode_spaces(s@),
{
    let n = s.unicode_len();
    let mut r = String::new();
    let mut j: usize = 0;
    proof {
        reveal_strlit("%20");
        assert("%20"@ =~= seq!['%', '2', '0']);
    }
    while j < n
        invariant
            n == s@.len(),
            j <= n,
            r@ + encode_spaces_from(s@, j as int) == spec_encode_spaces(s@),
            "%20"@ =~= seq!['%', '2', '0'],
        decreases n - j,
    {
        if s.get_char(j) == ' ' {
            r.append("%20");
        } else {
            r.append(s.substring_char(j, j + 1));
            proof {
                assert(s@.subrange(j as int, j + 1) =~= seq![s@[j as int]]);
            }
        }
        proof {
            assert(r@ + encode_spaces_from(s@, j + 1) =~= spec_encode_spaces(s@));
        }
        j += 1;
    }
    proof {
        assert(encode_spaces_from(s@, n as int) =~= Seq::<char>::empty());
        assert(r@ =~= spec_encode_spaces(s@));
    }
    r
}

/// Add one URL-encoded plant name to the accumulated query parameters,
/// separating it from earlier names with `%0A`.
pub fn append_query_param(params: String, name: &str) -> (r: String)
    ensures
        r@ == if params@.len() == 0 {
            spec_encode_spaces(name@)
        } else {
            params@ + seq!['%', '0', 'A'] + spec_encode_spaces(name@)
        },
{
    let enc = encode_name_for_query(name);
    if params.as_str().is_empty() {
        enc
    } else {
        proof {
            reveal_strlit("%0A");
            assert("%0A"@ =~= seq!['%', '0', 'A']);
        }
        let ghost p0 = params@;
        let mut r = params;
        r.append("%0A");
        r.append(enc.as_str());
        proof {
            assert(r@ =~= p0 + seq!['%', '0', 'A'] + spec_encode_spaces(name@));
        }
        r
    }
}

/// The numeric code point of `c` with ASCII upper-case letters folded to
/// lower case.
pub open spec fn lower_code(c: char) -> int {
    if 'A' <= c && c <= 'Z' {
        c as int + 32
    } else {
        c as int
    }
}

/// Character-wise equality up to ASCII case.
pub open spec fn ascii_case_eq(a: Seq<char>, b: Seq<char>) -> bool {
    a.len() == b.len() && forall|k: int| 0 <= k < a.len() ==> lower_code(a[k]) == lower_code(b[k])
}

fn eq_ignore_case(a: &str, b: &str) -> (r: bool)
    ensures
        r == ascii_case_eq(a@, b@),
{
    let n = a.unicode_len();
    let m = b.unicode_len();
    if n != m {
        return false;
    }
    let mut k: usize = 0;
    while k < n
        invariant
            n == a@.len(),
            n == b@.len(),
            k <= n,
            forall|i: int| 0 <= i < k ==> lower_code(a@[i]) == lower_code(b@[i]),
        decreases n - k,
    {
        let ca = a.get_char(k);
        let cb = b.get_char(k);
        let la: u32 = if 'A' <= ca && ca <= 'Z' {
            ca as u32 + 32
        } else {
            ca as u32
        };
        let lb: u32 = if 'A' <= cb && cb <= 'Z' {
            cb as u32 + 32
        } else {
            cb as u32
        };
        if la != lb {
            return false;
        }
        k += 1;
    }
    true
}

/// Whether a distribution record with this occurrence status counts:
/// `excluded` and `doubtful` records are dropped, case-insensitively.
pub fn include_occurrence(status: &str) -> (r: bool)
    ensures
        r == (!ascii_case_eq(status@, "excluded"@) && !ascii_case_eq(status@, "doubtful"@)),
{
    !eq_ignore_case(status, "excluded") && !eq_ignore_case(status, "doubtful")
}

/// The region code a reported locality is looked up under.  The two
/// Newfoundland-and-Labrador subdivisions collapse to `NL`; a Greenland
/// record gives `None`, which stops the caller's walk over the remaining
/// locations of that plant.
pub fn map_locality(loc: &str) -> (r: Option<String>)
    ensures
        loc@ == "GL"@ ==> r is None,
        (loc@ == "NL_N"@ || loc@ == "NL_L"@) ==> (r matches Some(m) && m@ == "NL"@),
        (loc@ != "GL"@ && loc@ != "NL_N"@ && loc@ != "NL_L"@) ==> (r matches Some(m) && m@
            == loc@),
{
    proof {
        reveal_strlit("GL");
        reveal_strlit("NL_N");
        reveal_strlit("NL_L");
        reveal_strlit("NL");
        assert("GL"@.len() == 2);
        assert("NL_N"@.len() == 4);
        assert("NL_L"@.len() == 4);
        assert("NL_N"@[3] != "NL_L"@[3]);
    }
    if str_eq(loc, "NL_N") || str_eq(loc, "NL_L") {
        Some(String::from_str("NL"))
    } else if str_eq(loc, "GL") {
        None
    } else {
        Some(String::from_str(loc))
    }
}

} // verus!
