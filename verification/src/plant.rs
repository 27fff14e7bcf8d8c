//! The long-form scientific-name parser.
//!
//! A raw name such as `Quercus alba L. var. subcaerulea A.L. Pickens &
//! M.C. Pickens` is read left to right: genus token, an optional
//! typographic hybrid-marker prefix, specific epithet, then an author
//! citation that runs up to the first taxonomic-modifier marker.  The
//! marker decides the species type and which further fields are read.
//! [`spec_parse`] states the whole grammar over character sequences, and
//! [`parse_name`] is proved to return exactly its value.

use vstd::prelude::*;

use crate::grammar::alnum_run_end;
use crate::grammar::find_marker;
use crate::grammar::hyb_run_end;
use crate::grammar::hybrid_open_marker;
use crate::grammar::hybrid_sep_marker;
use crate::grammar::is_sep_char;
use crate::grammar::is_substr_at;
use crate::grammar::lemma_hybrid_open_lit;
use crate::grammar::lemma_hybrid_sep_lit;
use crate::grammar::lemma_orth_var_lit;
use crate::grammar::lemma_subspecies_lit;
use crate::grammar::lemma_variety_lit;
use crate::grammar::multispace_run_end;
use crate::grammar::newline_pos;
use crate::grammar::orth_var_marker;
use crate::grammar::scan_alnum_run_end;
use crate::grammar::scan_hyb_run_end;
use crate::grammar::scan_marker;
use crate::grammar::scan_multispace_run_end;
use crate::grammar::scan_newline_pos;
use crate::grammar::scan_space_pos;
use crate::grammar::scan_token_end;
use crate::grammar::scan_ws_run_end;
use crate::grammar::space_pos;
use crate::grammar::starts_with_at;
use crate::grammar::subspecies_marker;
use crate::grammar::token_end;
use crate::grammar::variety_marker;
use crate::grammar::ws_run_end;
use crate::species::SpeciesKey;
use crate::species::SpeciesName;

verus! {

/// The taxonomic category a parsed name falls under.
#[derive(Clone, Copy, Debug, PartialEq, Eq, Structural)]
pub enum SpeciesType {
    /// A hybrid with a bracketed parent pair.
    Hybrid,
    /// A plain binomial name.
    Species,
    /// A subspecies with a subordinate epithet.
    Subspecies,
    /// A variety with a subordinate epithet.
    Variety,
    /// An orthographic variant of an accepted name.
    OrthVar,
    /// Any other trailing taxonomic-status annotation; no further fields
    /// are extracted.
    Other,
}

impl Default for SpeciesType {
    fn default() -> (r: Self)
        ensures
            r == SpeciesType::Species,
    {
        SpeciesType::Species
    }
}

/// The grammar rule that failed when a name is malformed.
#[derive(Clone, Copy, Debug, PartialEq, Eq, Structural)]
pub enum NameRule {
    /// The genus token was missing or began with whitespace.
    Genus,
    /// A mandatory whitespace separator was missing.
    Separator,
    /// The specific epithet was missing or began with whitespace.
    Specific,
    /// The subordinate epithet after `var.`/`ssp.` was missing or not
    /// followed by whitespace.
    Subordinate,
}

/// Why a raw name string could not be parsed.
#[derive(Clone, Debug, PartialEq, Eq)]
pub enum ParseError {
    /// Structurally invalid input, with the offending remainder and the
    /// rule that could not match.
    MalformedName { remainder: String, rule: NameRule },
    /// A bracketed hybrid pair was opened but did not match the
    /// `[parent1 <mark> parent2]` shape.
    MalformedHybridBracket { remainder: String },
}

/// The mathematical value of a [`ParseError`].
pub ghost enum ParseErrorView {
    MalformedName { remainder: Seq<char>, rule: NameRule },
    MalformedHybridBracket { remainder: Seq<char> },
}

impl View for ParseError {
    type V = ParseErrorView;

    open spec fn view(&self) -> ParseErrorView {
        match self {
            ParseError::MalformedName { remainder, rule } => ParseErrorView::MalformedName {
                remainder: remainder@,
                rule: *rule,
            },
            ParseError::MalformedHybridBracket { remainder } => {
                ParseErrorView::MalformedHybridBracket { remainder: remainder@ }
            },
        }
    }
}

/// The parsed structure of a long-form scientific name.
#[derive(Clone, Debug, PartialEq, Eq)]
pub struct PlantName {
    pub genus: String,
    pub specific: String,
    pub species_type: SpeciesType,
    /// Subordinate epithet; present exactly for varieties and subspecies.
    pub sspvar: Option<String>,
    /// Parent epithet pair; present exactly for hybrids.
    pub hybrid: Option<(String, String)>,
    /// Primary author citation.
    pub author: Option<String>,
    /// Secondary author citation; an empty remainder is treated as absent.
    pub second_author: Option<String>,
}

/// The mathematical value of a [`PlantName`].
pub ghost struct NameView {
    pub genus: Seq<char>,
    pub specific: Seq<char>,
    pub species_type: SpeciesType,
    pub sspvar: Option<Seq<char>>,
    pub hybrid: Option<(Seq<char>, Seq<char>)>,
    pub author: Option<Seq<char>>,
    pub second_author: Option<Seq<char>>,
}

impl View for PlantName {
    type V = NameView;

    open spec fn view(&self) -> NameView {
        NameView {
            genus: self.genus@,
            specific: self.specific@,
            species_type: self.species_type,
            sspvar: self.sspvar.deep_view(),
            hybrid: self.hybrid.deep_view(),
            author: self.author.deep_view(),
            second_author: self.second_author.deep_view(),
        }
    }
}

impl Default for PlantName {
    fn default() -> (r: Self)
        ensures
            r@ == (NameView {
                genus: Seq::<char>::empty(),
                specific: Seq::<char>::empty(),
                species_type: SpeciesType::Species,
                sspvar: None,
                hybrid: None,
                author: None,
                second_author: None,
            }),
    {
        PlantName {
            genus: String::new(),
            specific: String::new(),
            species_type: SpeciesType::Species,
            sspvar: None,
            hybrid: None,
            author: None,
            second_author: None,
        }
    }
}

/// The subordinate epithet after a `var.`/`ssp.` marker: the characters up
/// to the first space, which must exist and be preceded by at least one
/// character; the epithet's trailing whitespace run is consumed.
pub open spec fn spec_sspvar(s: Seq<char>) -> Option<(Seq<char>, Seq<char>)> {
    let t_end = space_pos(s, 0);
    if s.len() > 0 && s[0] != ' ' && t_end < s.len() {
        Some((s.subrange(0, t_end), s.subrange(multispace_run_end(s, t_end), s.len() as int)))
    } else {
        None
    }
}

/// A bracketed hybrid parent pair ` [a <mark> b]` at the head of `s`:
/// both parents are nonempty ASCII-alphanumeric runs.  Gives the two
/// parents and the remainder after the closing bracket.
pub open spec fn spec_hybrid(s: Seq<char>) -> Option<(Seq<char>, Seq<char>, Seq<char>)> {
    let a_end = alnum_run_end(s, 2);
    let b_start = a_end + 3;
    let b_end = alnum_run_end(s, b_start);
    if is_substr_at(s, 0, hybrid_open_marker()) && a_end > 2 && is_substr_at(
        s,
        a_end,
        hybrid_sep_marker(),
    ) && b_end > b_start && b_end < s.len() && s[b_end] == ']' {
        Some(
            (
                s.subrange(2, a_end),
                s.subrange(b_start, b_end),
                s.subrange(b_end + 1, s.len() as int),
            ),
        )
    } else {
        None
    }
}

/// The secondary author citation: the whole remainder, provided it is
/// nonempty and holds no newline; an empty remainder is absent.
pub open spec fn spec_second_author(s: Seq<char>) -> Option<Seq<char>> {
    if s.len() > 0 && newline_pos(s, 0) == s.len() {
        Some(s)
    } else {
        None
    }
}

/// What the author-citation terminator found at the head of `after`
/// contributes: the species type and its payload fields.  `after` is what
/// remains once the author citation has been read, so it begins with a
/// marker or is empty; any other content falls to the catch-all `Other`
/// category, which extracts nothing further.
pub open spec fn spec_dispatch(
    genus: Seq<char>,
    specific: Seq<char>,
    author: Seq<char>,
    after: Seq<char>,
) -> Result<NameView, ParseErrorView> {
    if is_substr_at(after, 0, variety_marker()) {
        let rem = after.subrange(6, after.len() as int);
        match spec_sspvar(rem) {
            Some((sv, rest)) => Ok(
                NameView {
                    genus,
                    specific,
                    species_type: SpeciesType::Variety,
                    sspvar: Some(sv),
                    hybrid: None,
                    author: Some(author),
                    second_author: spec_second_author(rest),
                },
            ),
            None => Err(ParseErrorView::MalformedName { remainder: rem, rule: NameRule::Subordinate }),
        }
    } else if is_substr_at(after, 0, subspecies_marker()) {
        let rem = after.subrange(6, after.len() as int);
        match spec_sspvar(rem) {
            Some((sv, rest)) => Ok(
                NameView {
                    genus,
                    specific,
                    species_type: SpeciesType::Subspecies,
                    sspvar: Some(sv),
                    hybrid: None,
                    author: Some(author),
                    second_author: spec_second_author(rest),
                },
            ),
            None => Err(ParseErrorView::MalformedName { remainder: rem, rule: NameRule::Subordinate }),
        }
    } else if is_substr_at(after, 0, orth_var_marker()) {
        Ok(
            NameView {
                genus,
                specific,
                species_type: SpeciesType::OrthVar,
                sspvar: None,
                hybrid: None,
                author: Some(author),
                second_author: spec_second_author(after.subrange(12, after.len() as int)),
            },
        )
    } else if is_substr_at(after, 0, hybrid_open_marker()) {
        match spec_hybrid(after) {
            Some((a, b, rest)) => Ok(
                NameView {
                    genus,
                    specific,
                    species_type: SpeciesType::Hybrid,
                    sspvar: None,
                    hybrid: Some((a, b)),
                    author: Some(author),
                    second_author: spec_second_author(rest),
                },
            ),
            None => Err(ParseErrorView::MalformedHybridBracket { remainder: after }),
        }
    } else if after.len() == 0 {
        Ok(
            NameView {
                genus,
                specific,
                species_type: SpeciesType::Species,
                sspvar: None,
                hybrid: None,
                author: Some(author),
                second_author: None,
            },
        )
    } else {
        Ok(
            NameView {
                genus,
                specific,
                species_type: SpeciesType::Other,
                sspvar: None,
                hybrid: None,
                author: Some(author),
                second_author: None,
            },
        )
    }
}

/// The whole name grammar: genus token, whitespace, an optional run of
/// hybrid-marker code points, specific epithet, whitespace, then the
/// author citation up to the first marker, dispatched on that marker.
pub open spec fn spec_parse(s: Seq<char>) -> Result<NameView, ParseErrorView> {
    let g_end = token_end(s, 0);
    if s.len() == 0 || is_sep_char(s[0]) {
        Err(ParseErrorView::MalformedName { remainder: s, rule: NameRule::Genus })
    } else if g_end == s.len() {
        Err(
            ParseErrorView::MalformedName {
                remainder: s.subrange(g_end, s.len() as int),
                rule: NameRule::Separator,
            },
        )
    } else {
        let p2 = hyb_run_end(s, ws_run_end(s, g_end));
        let sp_end = token_end(s, p2);
        if p2 == s.len() || is_sep_char(s[p2]) {
            Err(
                ParseErrorView::MalformedName {
                    remainder: s.subrange(p2, s.len() as int),
                    rule: NameRule::Specific,
                },
            )
        } else if sp_end == s.len() {
            Err(
                ParseErrorView::MalformedName {
                    remainder: s.subrange(sp_end, s.len() as int),
                    rule: NameRule::Separator,
                },
            )
        } else {
            let rest = s.subrange(ws_run_end(s, sp_end), s.len() as int);
            let a_end = find_marker(rest, 0);
            spec_dispatch(
                s.subrange(0, g_end),
                s.subrange(p2, sp_end),
                rest.subrange(0, a_end),
                rest.subrange(a_end, rest.len() as int),
            )
        }
    }
}

/// What [`modifier`] recognizes at the head of the input: the consumed
/// marker (the hybrid opening is only peeked at) and the remaining input,
/// or nothing when the input is nonempty and starts with no marker.
pub open spec fn spec_modifier(s: Seq<char>) -> Option<(Seq<char>, Seq<char>)> {
    if is_substr_at(s, 0, variety_marker()) {
        Some((s.subrange(6, s.len() as int), s.subrange(0, 6)))
    } else if is_substr_at(s, 0, subspecies_marker()) {
        Some((s.subrange(6, s.len() as int), s.subrange(0, 6)))
    } else if is_substr_at(s, 0, orth_var_marker()) {
        Some((s.subrange(12, s.len() as int), s.subrange(0, 12)))
    } else if is_substr_at(s, 0, hybrid_open_marker()) {
        Some((s, s.subrange(0, 2)))
    } else if s.len() == 0 {
        Some((s, s))
    } else {
        None
    }
}

/// The coarse token at the head of the input: its longest prefix free of
/// spaces and tabs, which must be nonempty.  Gives `(remaining, token)`.
pub fn not_whitespace<'a>(i: &'a str) -> (r: Option<(&'a str, &'a str)>)
    ensures
        (r is Some) == (i@.len() > 0 && !is_sep_char(i@[0])),
        r matches Some((rest, tok)) ==> tok@ == i@.subrange(0, token_end(i@, 0)) && rest@
            == i@.subrange(token_end(i@, 0), i@.len() as int),
{
    let n = i.unicode_len();
    if n == 0 {
        return None;
    }
    let c = i.get_char(0);
    if c == ' ' || c == '\t' {
        return None;
    }
    let k = scan_token_end(i, n, 0);
    Some((i.substring_char(k, n), i.substring_char(0, k)))
}

/// The run of typographic hybrid-marker code points at the head of the
/// input, possibly empty.  Gives `(remaining, run)`.
pub fn is_hybrid<'a>(i: &'a str) -> (r: (&'a str, &'a str))
    ensures
        r.1@ == i@.subrange(0, hyb_run_end(i@, 0)),
        r.0@ == i@.subrange(hyb_run_end(i@, 0), i@.len() as int),
{
    let n = i.unicode_len();
    let k = scan_hyb_run_end(i, n, 0);
    (i.substring_char(k, n), i.substring_char(0, k))
}

/// The subordinate epithet at the head of the input, per [`spec_sspvar`].
/// Gives `(remaining, epithet)`.
pub fn sspvar<'a>(i: &'a str) -> (r: Option<(&'a str, &'a str)>)
    ensures
        (r is Some) == (spec_sspvar(i@) is Some),
        r matches Some((rest, tok)) ==> spec_sspvar(i@) == Some((tok@, rest@)),
{
    let n = i.unicode_len();
    if n == 0 {
        return None;
    }
    if i.get_char(0) == ' ' {
        return None;
    }
    let t_end = scan_space_pos(i, n, 0);
    if t_end == n {
        return None;
    }
    let ms_end = scan_multispace_run_end(i, n, t_end);
    Some((i.substring_char(ms_end, n), i.substring_char(0, t_end)))
}

/// The author-citation terminator at the head of the input, per
/// [`spec_modifier`].  Gives `(remaining, marker)`.
pub fn modifier<'a>(i: &'a str) -> (r: Option<(&'a str, &'a str)>)
    ensures
        (r is Some) == (spec_modifier(i@) is Some),
        r matches Some((rest, m)) ==> spec_modifier(i@) == Some((rest@, m@)),
{
    proof {
        lemma_variety_lit();
        lemma_subspecies_lit();
        lemma_orth_var_lit();
        lemma_hybrid_open_lit();
    }
    let n = i.unicode_len();
    if starts_with_at(i, n, 0, " var. ", 6) {
        Some((i.substring_char(6, n), i.substring_char(0, 6)))
    } else if starts_with_at(i, n, 0, " ssp. ", 6) {
        Some((i.substring_char(6, n), i.substring_char(0, 6)))
    } else if starts_with_at(i, n, 0, ", orth. var.", 12) {
        Some((i.substring_char(12, n), i.substring_char(0, 12)))
    } else if starts_with_at(i, n, 0, " [", 2) {
        Some((i, i.substring_char(0, 2)))
    } else if n == 0 {
        Some((i, i.substring_char(0, 0)))
    } else {
        None
    }
}

/// The author citation: everything up to the first marker position (or the
/// whole input when no marker occurs).  Gives `(remaining, citation)`.
pub fn parse_author<'a>(i: &'a str) -> (r: (&'a str, String))
    ensures
        r.1@ == i@.subrange(0, find_marker(i@, 0)),
        r.0@ == i@.subrange(find_marker(i@, 0), i@.len() as int),
{
    let n = i.unicode_len();
    let k = scan_marker(i, n, 0);
    (i.substring_char(k, n), String::from_str(i.substring_char(0, k)))
}

/// The secondary author citation, per [`spec_second_author`].  Gives
/// `(remaining, citation)`; when the input is left untaken it is returned
/// unconsumed.
pub fn second_author<'a>(i: &'a str) -> (r: (&'a str, Option<String>))
    ensures
        r.1.deep_view() == spec_second_author(i@),
        spec_second_author(i@) is Some ==> r.0@.len() == 0,
        spec_second_author(i@) is None ==> r.0@ == i@,
{
    let n = i.unicode_len();
    if n == 0 {
        return (i, None);
    }
    let k = scan_newline_pos(i, n, 0);
    if k == n {
        (i.substring_char(n, n), Some(String::from_str(i)))
    } else {
        (i, None)
    }
}

/// The bracketed hybrid parent pair at the head of the input, per
/// [`spec_hybrid`].  Gives `(remaining, (parent1, parent2))`.
pub fn hybrid<'a>(i: &'a str) -> (r: Option<(&'a str, (String, String))>)
    ensures
        (r is Some) == (spec_hybrid(i@) is Some),
        r matches Some((rest, (a, b))) ==> spec_hybrid(i@) == Some((a@, b@, rest@)),
{
    proof {
        lemma_hybrid_open_lit();
        lemma_hybrid_sep_lit();
    }
    let n = i.unicode_len();
    if !starts_with_at(i, n, 0, " [", 2) {
        return None;
    }
    let a_end = scan_alnum_run_end(i, n, 2);
    if a_end == 2 {
        return None;
    }
    if !starts_with_at(i, n, a_end, " \u{d7} ", 3) {
        return None;
    }
    let b_start = a_end + 3;
    let b_end = scan_alnum_run_end(i, n, b_start);
    if b_end == b_start {
        return None;
    }
    if b_end == n {
        return None;
    }
    if i.get_char(b_end) != ']' {
        return None;
    }
    Some(
        (
            i.substring_char(b_end + 1, n),
            (
                String::from_str(i.substring_char(2, a_end)),
                String::from_str(i.substring_char(b_start, b_end)),
            ),
        ),
    )
}

/// Parse a raw long-form scientific name into a [`PlantName`].
///
/// The result is exactly what the grammar [`spec_parse`] assigns to the
/// input.  In every successful parse the species type determines the
/// optional payloads: a hybrid parent pair is present exactly for
/// hybrids, and a subordinate epithet exactly for varieties and
/// subspecies.
pub fn parse_name(i: &str) -> (r: Result<PlantName, ParseError>)
    ensures
        r matches Ok(n) ==> spec_parse(i@) == Ok::<NameView, ParseErrorView>(n@),
        r matches Err(e) ==> spec_parse(i@) == Err::<NameView, ParseErrorView>(e@),
        r matches Ok(n) ==> ((n.species_type == SpeciesType::Hybrid) <==> n.hybrid is Some),
        r matches Ok(n) ==> ((n.species_type == SpeciesType::Variety || n.species_type
            == SpeciesType::Subspecies) <==> n.sspvar is Some),
        r matches Ok(n) ==> n.author is Some,
{
    let n = i.unicode_len();
    if n == 0 {
        return Err(
            ParseError::MalformedName { remainder: String::from_str(i), rule: NameRule::Genus },
        );
    }
    let c0 = i.get_char(0);
    if c0 == ' ' || c0 == '\t' {
        return Err(
            ParseError::MalformedName { remainder: String::from_str(i), rule: NameRule::Genus },
        );
    }
    let g_end = scan_token_end(i, n, 0);
    if g_end == n {
        proof {
            assert(i@.subrange(g_end as int, n as int) =~= Seq::<char>::empty());
        }
        return Err(
            ParseError::MalformedName { remainder: String::new(), rule: NameRule::Separator },
        );
    }
    let genus = String::from_str(i.substring_char(0, g_end));
    let p1 = scan_ws_run_end(i, n, g_end);
    let p2 = scan_hyb_run_end(i, n, p1);
    if p2 == n {
        return Err(
            ParseError::MalformedName {
                remainder: String::from_str(i.substring_char(p2, n)),
                rule: NameRule::Specific,
            },
        );
    }
    let cp2 = i.get_char(p2);
    if cp2 == ' ' || cp2 == '\t' {
        return Err(
            ParseError::MalformedName {
                remainder: String::from_str(i.substring_char(p2, n)),
                rule: NameRule::Specific,
            },
        );
    }
    let sp_end = scan_token_end(i, n, p2);
    if sp_end == n {
        proof {
            assert(i@.subrange(sp_end as int, n as int) =~= Seq::<char>::empty());
        }
        return Err(
            ParseError::MalformedName { remainder: String::new(), rule: NameRule::Separator },
        );
    }
    let specific = String::from_str(i.substring_char(p2, sp_end));
    let p3 = scan_ws_run_end(i, n, sp_end);
    let rest = i.substring_char(p3, n);
    let rn = rest.unicode_len();
    let a_end = scan_marker(rest, rn, 0);
    let author = String::from_str(rest.substring_char(0, a_end));
    let after = rest.substring_char(a_end, rn);
    let an = after.unicode_len();
    proof {
        lemma_variety_lit();
        lemma_subspecies_lit();
        lemma_orth_var_lit();
        lemma_hybrid_open_lit();
    }
    if starts_with_at(after, an, 0, " var. ", 6) {
        let rem = after.substring_char(6, an);
        match sspvar(rem) {
            Some((rest2, sv)) => {
                let (_rest3, second) = second_author(rest2);
                Ok(
                    PlantName {
                        genus,
                        specific,
                        species_type: SpeciesType::Variety,
                        sspvar: Some(String::from_str(sv)),
                        hybrid: None,
                        author: Some(author),
                        second_author: second,
                    },
                )
            },
            None => Err(
                ParseError::MalformedName {
                    remainder: String::from_str(rem),
                    rule: NameRule::Subordinate,
                },
            ),
        }
    } else if starts_with_at(after, an, 0, " ssp. ", 6) {
        let rem = after.substring_char(6, an);
        match sspvar(rem) {
            Some((rest2, sv)) => {
                let (_rest3, second) = second_author(rest2);
                Ok(
                    PlantName {
                        genus,
                        specific,
                        species_type: SpeciesType::Subspecies,
                        sspvar: Some(String::from_str(sv)),
                        hybrid: None,
                        author: Some(author),
                        second_author: second,
                    },
                )
            },
            None => Err(
                ParseError::MalformedName {
                    remainder: String::from_str(rem),
                    rule: NameRule::Subordinate,
                },
            ),
        }
    } else if starts_with_at(after, an, 0, ", orth. var.", 12) {
        let rem = after.substring_char(12, an);
        let (_rest3, second) = second_author(rem);
        Ok(
            PlantName {
                genus,
                specific,
                species_type: SpeciesType::OrthVar,
                sspvar: None,
                hybrid: None,
                author: Some(author),
                second_author: second,
            },
        )
    } else if starts_with_at(after, an, 0, " [", 2) {
        match hybrid(after) {
            Some((rest2, (a, b))) => {
                let (_rest3, second) = second_author(rest2);
                Ok(
                    PlantName {
                        genus,
                        specific,
                        species_type: SpeciesType::Hybrid,
                        sspvar: None,
                        hybrid: Some((a, b)),
                        author: Some(author),
                        second_author: second,
                    },
                )
            },
            None => Err(
                ParseError::MalformedHybridBracket { remainder: String::from_str(after) },
            ),
        }
    } else if an == 0 {
        Ok(
            PlantName {
                genus,
                specific,
                species_type: SpeciesType::Species,
                sspvar: None,
                hybrid: None,
                author: Some(author),
                second_author: None,
            },
        )
    } else {
        Ok(
            PlantName {
                genus,
                specific,
                species_type: SpeciesType::Other,
                sspvar: None,
                hybrid: None,
                author: Some(author),
                second_author: None,
            },
        )
    }
}

/// Law: in every name the grammar accepts, the species type determines the
/// optional payloads — the hybrid parent pair is present exactly when the
/// type is `Hybrid`, and the subordinate epithet exactly when the type is
/// `Variety` or `Subspecies`.
pub proof fn lemma_parsed_name_invariant(s: Seq<char>)
    ensures
        spec_parse(s) matches Ok(v) ==> ((v.species_type == SpeciesType::Hybrid) <==> v.hybrid
            is Some),
        spec_parse(s) matches Ok(v) ==> ((v.species_type == SpeciesType::Variety
            || v.species_type == SpeciesType::Subspecies) <==> v.sspvar is Some),
{
}

/// Project a parsed name onto its comparison key: genus and specific
/// epithet are copied, the subordinate epithet becomes the subspecies, and
/// the hybrid flag records whether a parent pair is present.
pub fn plant_name_to_species_name(pn: &PlantName) -> (r: SpeciesName)
    ensures
        r@ == (SpeciesKey {
            genus: pn.genus@,
            specific: pn.specific@,
            ssp: pn.sspvar.deep_view(),
            hybrid: pn.hybrid is Some,
        }),
{
    SpeciesName {
        genus: pn.genus.clone(),
        specific: pn.specific.clone(),
        ssp: match &pn.sspvar {
            Some(s) => Some(s.clone()),
            None => None,
        },
        hybrid: pn.hybrid.is_some(),
    }
}

impl PlantName {
    /// Parse `name`; see [`parse_name`].
    pub fn new(name: String) -> (r: Result<PlantName, ParseError>)
        ensures
            r matches Ok(n) ==> spec_parse(name@) == Ok::<NameView, ParseErrorView>(n@),
            r matches Err(e) ==> spec_parse(name@) == Err::<NameView, ParseErrorView>(e@),
            r matches Ok(n) ==> ((n.species_type == SpeciesType::Hybrid) <==> n.hybrid is Some),
            r matches Ok(n) ==> ((n.species_type == SpeciesType::Variety || n.species_type
                == SpeciesType::Subspecies) <==> n.sspvar is Some),
    {
        parse_name(name.as_str())
    }

    /// The two-part name `genus specific`, leaving the record unchanged.
    pub fn species_name(&mut self) -> (r: String)
        ensures
            *final(self) == *old(self),
            r@ == old(self).genus@ + seq![' '] + old(self).specific@,
    {
        proof {
            reveal_strlit(" ");
            assert(" "@ =~= seq![' ']);
        }
        let mut r = self.genus.clone();
        r.append(" ");
        r.append(self.specific.as_str());
        r
    }
}

} // verus!
