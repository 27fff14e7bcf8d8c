//! The cross-reference matcher: one `SpeciesName -> identifier` index per
//! data source, first-writer-wins on duplicate keys, and a best-effort
//! join of one source against the other.

use vstd::prelude::*;

use crate::species::SpeciesKey;
use crate::species::SpeciesName;

verus! {

/// The map an entry list stands for.  Keys are unique in a well-formed
/// index, so the fold order does not matter.
pub open spec fn spec_assoc_map(s: Seq<(SpeciesKey, i64)>) -> Map<SpeciesKey, i64>
    decreases s.len(),
{
    if s.len() == 0 {
        Map::empty()
    } else {
        spec_assoc_map(s.drop_last()).insert(s.last().0, s.last().1)
    }
}

proof fn lemma_assoc_contains(s: Seq<(SpeciesKey, i64)>, k: SpeciesKey)
    ensures
        spec_assoc_map(s).contains_key(k) <==> exists|j: int|
            0 <= j < s.len() && (#[trigger] s[j]).0 == k,
    decreases s.len(),
{
    if s.len() > 0 {
        lemma_assoc_contains(s.drop_last(), k);
        if spec_assoc_map(s).contains_key(k) {
            if s.last().0 == k {
                assert((s[s.len() - 1]).0 == k);
            } else {
                let j = choose|j: int| 0 <= j < s.drop_last().len() && (#[trigger] s.drop_last()[j]).0 == k;
                assert((s[j]).0 == k);
            }
        }
        if exists|j: int| 0 <= j < s.len() && (#[trigger] s[j]).0 == k {
            let j = choose|j: int| 0 <= j < s.len() && (#[trigger] s[j]).0 == k;
            if j < s.len() - 1 {
                assert((s.drop_last()[j]).0 == k);
            }
        }
    }
}

proof fn lemma_assoc_at(s: Seq<(SpeciesKey, i64)>, j: int)
    requires
        0 <= j < s.len(),
        forall|j1: int, j2: int|
            0 <= j1 < j2 < s.len() ==> (#[trigger] s[j1]).0 != (#[trigger] s[j2]).0,
    ensures
        spec_assoc_map(s).contains_key(s[j].0),
        spec_assoc_map(s)[s[j].0] == s[j].1,
    decreases s.len(),
{
    if j == s.len() - 1 {
    } else {
        lemma_assoc_at(s.drop_last(), j);
        assert((s[j]).0 != (s[s.len() - 1]).0);
    }
}

/// A `SpeciesName -> identifier` index for one data source.
pub struct SpeciesIndex {
    entries: Vec<(SpeciesName, i64)>,
}

/// The outcome of a cross-reference run: the joined identifier pairs, and
/// one recorded miss per unmatched entry of the first source.  A miss is
/// a reporting-only outcome, not an error.
pub struct MatchReport {
    pub pairs: Vec<(i64, i64)>,
    pub misses: Vec<i64>,
}

impl SpeciesIndex {
    /// The keyed entries in insertion order.
    pub closed spec fn entry_list(self) -> Seq<(SpeciesKey, i64)> {
        self.entries@.map(|j: int, e: (SpeciesName, i64)| (e.0@, e.1))
    }

    /// Some entry carries key `k`.
    pub open spec fn contains_key(self, k: SpeciesKey) -> bool {
        exists|j: int|
            0 <= j < self.entry_list().len() && (#[trigger] self.entry_list()[j]).0 == k
    }

    /// No key occurs twice.
    pub open spec fn wf(self) -> bool {
        forall|j1: int, j2: int|
            0 <= j1 < j2 < self.entry_list().len() ==> (#[trigger] self.entry_list()[j1]).0 != (
            #[trigger] self.entry_list()[j2]).0
    }

    /// The mapping this index represents.
    pub open spec fn as_map(self) -> Map<SpeciesKey, i64> {
        spec_assoc_map(self.entry_list())
    }

    /// An empty index.
    pub fn new() -> (r: SpeciesIndex)
        ensures
            r.wf(),
            r.entry_list() == Seq::<(SpeciesKey, i64)>::empty(),
            r.as_map() == Map::<SpeciesKey, i64>::empty(),
    {
        let r = SpeciesIndex { entries: Vec::new() };
        proof {
            assert(r.entry_list() =~= Seq::<(SpeciesKey, i64)>::empty());
            assert(r.as_map() =~= Map::<SpeciesKey, i64>::empty());
        }
        r
    }

    /// Record `id` under `key`.  The first writer wins: a key already
    /// present keeps its identifier and the index is unchanged.
    pub fn insert(&mut self, key: SpeciesName, id: i64)
        requires
            old(self).wf(),
        ensures
            final(self).wf(),
            final(self).entry_list() == if old(self).contains_key(key@) {
                old(self).entry_list()
            } else {
                old(self).entry_list().push((key@, id))
            },
            final(self).as_map() == if old(self).contains_key(key@) {
                old(self).as_map()
            } else {
                old(self).as_map().insert(key@, id)
            },
    {
        let n = self.entries.len();
        let mut j: usize = 0;
        while j < n
            invariant
                n == self.entries.len(),
                j <= n,
                *self == *old(self),
                old(self).wf(),
                forall|i: int| 0 <= i < j ==> (#[trigger] self.entry_list()[i]).0 != key@,
            decreases n - j,
        {
            if self.entries[j].0 == key {
                proof {
                    assert((self.entry_list()[j as int]).0 == key@);
                }
                return ;
            }
            j += 1;
        }
        proof {
            assert(!self.contains_key(key@));
        }
        let ghost old_list = self.entry_list();
        self.entries.push((key, id));
        proof {
            assert(self.entry_list() =~= old_list.push((key@, id)));
            assert(self.entry_list().drop_last() =~= old_list);
        }
    }

    /// The recorded (key, identifier) pairs in insertion order.
    pub fn entries(&self) -> (r: &Vec<(SpeciesName, i64)>)
        ensures
            r@.len() == self.entry_list().len(),
            forall|j: int|
                0 <= j < r@.len() ==> (#[trigger] r@[j]).0@ == self.entry_list()[j].0 && r@[j].1
                    == self.entry_list()[j].1,
    {
        &self.entries
    }

    /// The identifier recorded under `key`, when the key is present.
    pub fn lookup(&self, key: &SpeciesName) -> (r: Option<i64>)
        requires
            self.wf(),
        ensures
            r == if self.as_map().contains_key(key@) {
                Some(self.as_map()[key@])
            } else {
                None::<i64>
            },
    {
        proof {
            lemma_assoc_contains(self.entry_list(), key@);
        }
        let n = self.entries.len();
        let mut j: usize = 0;
        while j < n
            invariant
                n == self.entries.len(),
                self.wf(),
                j <= n,
                forall|i: int| 0 <= i < j ==> (#[trigger] self.entry_list()[i]).0 != key@,
            decreases n - j,
        {
            if self.entries[j].0 == *key {
                proof {
                    assert((self.entry_list()[j as int]).0 == key@);
                    lemma_assoc_at(self.entry_list(), j as int);
                }
                return Some(self.entries[j].1);
            }
            j += 1;
        }
        proof {
            lemma_assoc_contains(self.entry_list(), key@);
        }
        None
    }
}

/// What [`cross_reference`] produces: source A's entries in order, each
/// either joined with the identifier source B records under the same key,
/// or reported as a miss.
pub open spec fn spec_cross(a: Seq<(SpeciesKey, i64)>, b: Map<SpeciesKey, i64>) -> (Seq<
    (i64, i64),
>, Seq<i64>)
    decreases a.len(),
{
    if a.len() == 0 {
        (Seq::empty(), Seq::empty())
    } else {
        let prev = spec_cross(a.drop_last(), b);
        let e = a.last();
        if b.contains_key(e.0) {
            (prev.0.push((e.1, b[e.0])), prev.1)
        } else {
            (prev.0, prev.1.push(e.1))
        }
    }
}

/// Join every entry of source `a` against source `b`: a pair
/// `(a-identifier, b-identifier)` for each key `b` also holds, and a
/// recorded miss for each it does not.  Misses stop nothing.
pub fn cross_reference(a: &SpeciesIndex, b: &SpeciesIndex) -> (r: MatchReport)
    requires
        b.wf(),
    ensures
        r.pairs@ == spec_cross(a.entry_list(), b.as_map()).0,
        r.misses@ == spec_cross(a.entry_list(), b.as_map()).1,
{
    let mut pairs: Vec<(i64, i64)> = Vec::new();
    let mut misses: Vec<i64> = Vec::new();
    let n = a.entries.len();
    let mut j: usize = 0;
    proof {
        assert(a.entry_list().take(0) =~= Seq::<(SpeciesKey, i64)>::empty());
    }
    while j < n
        invariant
            n == a.entries.len(),
            b.wf(),
            j <= n,
            pairs@ == spec_cross(a.entry_list().take(j as int), b.as_map()).0,
            misses@ == spec_cross(a.entry_list().take(j as int), b.as_map()).1,
        decreases n - j,
    {
        let entry = &a.entries[j];
        proof {
            lemma_assoc_contains(b.entry_list(), entry.0@);
            assert(a.entry_list().take(j + 1).drop_last() =~= a.entry_list().take(j as int));
            assert(a.entry_list().take(j + 1).last() == a.entry_list()[j as int]);
        }
        match b.lookup(&entry.0) {
            Some(bid) => {
                pairs.push((entry.1, bid));
            },
            None => {
                misses.push(entry.1);
            },
        }
        j += 1;
    }
    proof {
        assert(a.entry_list().take(n as int) =~= a.entry_list());
    }
    MatchReport { pairs, misses }
}

} // verus!
