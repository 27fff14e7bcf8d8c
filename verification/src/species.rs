//! The normalized species comparison key and the short-name normalizer.
//!
//! A [`SpeciesName`] is the join key used to match records across the two
//! data sources.  Equality is over all four fields, with an absent
//! subspecies distinct from any present one.  [`SpeciesName::new`] builds a
//! key from a short canonical name of the form
//! `genus specific [subspecies]`, where an ASCII `x`/`X` second token marks
//! a hybrid.

use vstd::prelude::*;

use crate::grammar::is_wspace_char;
use crate::grammar::scan_word_end;
use crate::grammar::scan_word_start;
use crate::grammar::str_eq;
use crate::grammar::lemma_seek;
use crate::grammar::non_wspace_pred;
use crate::grammar::wspace_pred;
use crate::grammar::word_end;
use crate::grammar::word_start;

verus! {

/// A record identifier paired with its raw name string, as read from the
/// storage collaborator.
#[derive(Debug)]
pub struct Species {
    pub id: i64,
    pub name: String,
}

/// The mathematical value of a [`SpeciesName`]: its four fields with
/// strings taken as character sequences.
pub ghost struct SpeciesKey {
    pub genus: Seq<char>,
    pub specific: Seq<char>,
    pub ssp: Option<Seq<char>>,
    pub hybrid: bool,
}

/// Why a short canonical name could not be normalized.
#[derive(Clone, Copy, Debug, PartialEq, Eq, Structural)]
pub enum NormalizationError {
    /// Fewer than two whitespace-separated tokens.
    TooFewTokens,
    /// The hybrid token `x`/`X` was not followed by a specific epithet.
    MissingHybridEpithet,
}

/// The normalized comparison key: genus, specific epithet, optional
/// subspecies epithet, and a hybrid flag.
#[derive(Clone, Debug, Eq, Hash)]
pub struct SpeciesName {
    pub genus: String,
    pub specific: String,
    pub ssp: Option<String>,
    pub hybrid: bool,
}

impl View for SpeciesName {
    type V = SpeciesKey;

    open spec fn view(&self) -> SpeciesKey {
        SpeciesKey {
            genus: self.genus@,
            specific: self.specific@,
            ssp: self.ssp.deep_view(),
            hybrid: self.hybrid,
        }
    }
}

impl PartialEq for SpeciesName {
    /// Two keys are equal exactly when all four fields agree; an absent
    /// subspecies differs from every present one.
    fn eq(&self, other: &SpeciesName) -> (r: bool) {
        let genus_eq = str_eq(self.genus.as_str(), other.genus.as_str());
        let specific_eq = str_eq(self.specific.as_str(), other.specific.as_str());
        let ssp_eq = match (&self.ssp, &other.ssp) {
            (Some(a), Some(b)) => str_eq(a.as_str(), b.as_str()),
            (None, None) => true,
            _ => false,
        };
        genus_eq && specific_eq && ssp_eq && self.hybrid == other.hybrid
    }
}

impl vstd::std_specs::cmp::PartialEqSpecImpl for SpeciesName {
    open spec fn obeys_eq_spec() -> bool {
        true
    }

    open spec fn eq_spec(&self, other: &SpeciesName) -> bool {
        self@ == other@
    }
}

/// The whitespace-delimited words of `s`, from position `from` on.
pub open spec fn tokens_from(s: Seq<char>, from: int) -> Seq<Seq<char>>
    decreases s.len() - from when 0 <= from <= s.len()
    via tokens_from_decreases
{
    let st = word_start(s, from);
    if st >= s.len() {
        Seq::empty()
    } else {
        seq![s.subrange(st, word_end(s, st))] + tokens_from(s, word_end(s, st))
    }
}

#[via_fn]
proof fn tokens_from_decreases(s: Seq<char>, from: int) {
    lemma_seek(s, from, non_wspace_pred());
    let st = word_start(s, from);
    if st < s.len() {
        lemma_seek(s, st, wspace_pred());
    }
}

/// The whitespace-delimited words of `s`.
pub open spec fn tokens(s: Seq<char>) -> Seq<Seq<char>> {
    tokens_from(s, 0)
}

/// What [`SpeciesName::new`] produces for a given short canonical name.
pub open spec fn spec_normalize(s: Seq<char>) -> Result<SpeciesKey, NormalizationError> {
    let toks = tokens(s);
    if toks.len() < 2 {
        Err(NormalizationError::TooFewTokens)
    } else if toks[1] == seq!['x'] || toks[1] == seq!['X'] {
        if toks.len() < 3 {
            Err(NormalizationError::MissingHybridEpithet)
        } else {
            Ok(SpeciesKey { genus: toks[0], specific: toks[2], ssp: None, hybrid: true })
        }
    } else {
        Ok(
            SpeciesKey {
                genus: toks[0],
                specific: toks[1],
                ssp: if toks.len() == 3 {
                    Some(toks[2])
                } else {
                    None
                },
                hybrid: false,
            },
        )
    }
}

/// Law: every key the normalizer's hybrid branch produces carries no
/// subspecies, whatever tokens follow the epithet.  A key that carries a
/// subspecies therefore never equals one built from the `x`-marked form
/// of the same taxon.
pub proof fn lemma_hybrid_key_has_no_subspecies(s: Seq<char>)
    ensures
        spec_normalize(s) matches Ok(k) ==> (k.hybrid ==> k.ssp is None),
{
}

/// Split `s` into its whitespace-delimited words.
fn tokenize(s: &str) -> (toks: Vec<String>)
    ensures
        toks.deep_view() == tokens(s@),
{
    let n = s.unicode_len();
    let mut toks: Vec<String> = Vec::new();
    let mut pos: usize = 0;
    loop
        invariant
            n == s@.len(),
            pos <= n,
            toks.deep_view() + tokens_from(s@, pos as int) == tokens(s@),
        ensures
            toks.deep_view() == tokens(s@),
        decreases n - pos,
    {
        let st = scan_word_start(s, n, pos);
        if st == n {
            proof {
                assert(tokens_from(s@, pos as int) =~= Seq::<Seq<char>>::empty());
                assert(toks.deep_view() =~~= tokens(s@));
            }
            break;
        }
        let en = scan_word_end(s, n, st);
        proof {
            lemma_seek(s@, pos as int, non_wspace_pred());
            lemma_seek(s@, st as int, wspace_pred());
            assert(en > st);
        }
        let ghost old_deep = toks.deep_view();
        toks.push(String::from_str(s.substring_char(st, en)));
        proof {
            assert(toks.deep_view() =~~= old_deep.push(s@.subrange(st as int, en as int)));
            assert(tokens_from(s@, pos as int) == seq![s@.subrange(st as int, en as int)]
                + tokens_from(s@, en as int));
            assert(toks.deep_view() + tokens_from(s@, en as int) =~~= tokens(s@));
        }
        pos = en;
    }
    toks
}

impl SpeciesName {
    /// Normalize a short canonical name of the form
    /// `genus specific [subspecies]`, where an ASCII `x` or `X` second
    /// token marks a hybrid whose specific epithet follows it.  In the
    /// hybrid form any trailing tokens are ignored and the subspecies is
    /// left absent; otherwise a single trailing token becomes the
    /// subspecies and two or more trailing tokens leave it absent.
    pub fn new(name: String) -> (r: Result<SpeciesName, NormalizationError>)
        ensures
            r matches Ok(sn) ==> spec_normalize(name@) == Ok::<SpeciesKey, NormalizationError>(
                sn@,
            ),
            r matches Err(e) ==> spec_normalize(name@) == Err::<SpeciesKey, NormalizationError>(e),
    {
        let toks = tokenize(name.as_str());
        proof {
            assert(forall|k: int|
                0 <= k < toks@.len() ==> toks@[k]@ == #[trigger] toks.deep_view()[k]);
        }
        if toks.len() < 2 {
            return Err(NormalizationError::TooFewTokens);
        }
        let t1 = &toks[1];
        let t1n = t1.as_str().unicode_len();
        let is_x = t1n == 1 && {
            let c = t1.as_str().get_char(0);
            c == 'x' || c == 'X'
        };
        proof {
            if is_x {
                if t1@[0] == 'x' {
                    assert(t1@ =~= seq!['x']);
                } else {
                    assert(t1@ =~= seq!['X']);
                }
            } else {
                assert(t1@ != seq!['x'] && t1@ != seq!['X']) by {
                    if t1@ == seq!['x'] || t1@ == seq!['X'] {
                        assert(t1@.len() == 1);
                        assert(t1@[0] == 'x' || t1@[0] == 'X');
                    }
                }
            }
        }
        if is_x {
            if toks.len() < 3 {
                return Err(NormalizationError::MissingHybridEpithet);
            }
            Ok(
                SpeciesName {
                    genus: toks[0].clone(),
                    specific: toks[2].clone(),
                    ssp: None,
                    hybrid: true,
                },
            )
        } else {
            let ssp = if toks.len() == 3 {
                Some(toks[2].clone())
            } else {
                None
            };
            Ok(
                SpeciesName {
                    genus: toks[0].clone(),
                    specific: toks[1].clone(),
                    ssp,
                    hybrid: false,
                },
            )
        }
    }

    /// The two-part name `genus specific`, leaving the key unchanged.
    pub fn species_name(&mut self) -> (r: String)
        ensures
            *final(self) == *old(self),
            r@ == old(self).genus@ + seq![' '] + old(self).specific@,
    {
        proof {
            reveal_strlit(" ");
            assert(" "@ =~= seq![' ']);
        }
        let mut r = self.genus.clone();
        r.append(" ");
        r.append(self.specific.as_str());
        r
    }
}

} // verus!
