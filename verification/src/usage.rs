//! What a request cost, and what the implicit cache did.
//!
//! Implicit caching is silent: the only evidence a prefix was reused is
//! `total_cached_tokens`. So usage decodes rather than being skipped, absent
//! counters read as zero, and merging the several usage objects a stream sends
//! is a pointwise maximum, the join of a product lattice of counters, so a
//! later frame that omits a field cannot erase an earlier one.

use vstd::prelude::*;
use vstd::std_specs::cmp::PartialEqSpecImpl;

use crate::json::{
    defaulted_u64, field, field_of, find_key, get_member, group_json_view, items_view, members_view, optional_u64,
    read_defaulted_u64, read_optional_u64, Json, JsonV, Member, MemberV, NumberV,
};
use crate::values::{GroundingTool, Modality};

verus! {

broadcast use group_json_view;

/// The count a map holds for a key, zero when it holds none.
pub open spec fn count_of(m: Map<Seq<char>, u64>, k: Seq<char>) -> u64 {
    if m.contains_key(k) {
        m[k]
    } else {
        0
    }
}

/// The larger of two counts.
pub open spec fn max_u64(a: u64, b: u64) -> u64 {
    if a >= b {
        a
    } else {
        b
    }
}

/// The pointwise maximum of two count maps, over the keys of either.
pub open spec fn join_counts(a: Map<Seq<char>, u64>, b: Map<Seq<char>, u64>) -> Map<Seq<char>, u64> {
    Map::new(
        |k: Seq<char>| a.contains_key(k) || b.contains_key(k),
        |k: Seq<char>| max_u64(count_of(a, k), count_of(b, k)),
    )
}

/// Joining one more key that `m` lacks raises that key alone.
proof fn lemma_join_step(start: Map<Seq<char>, u64>, m: Map<Seq<char>, u64>, key: Seq<char>, n: u64)
    requires
        !m.contains_key(key),
    ensures
        join_counts(start, m.insert(key, n)) == join_counts(start, m).insert(
            key,
            if join_counts(start, m).contains_key(key) && join_counts(start, m)[key] > n {
                join_counts(start, m)[key]
            } else {
                n
            },
        ),
{
    assert(join_counts(start, m.insert(key, n)) =~= join_counts(start, m).insert(
        key,
        if join_counts(start, m).contains_key(key) && join_counts(start, m)[key] > n {
            join_counts(start, m)[key]
        } else {
            n
        },
    ));
}

/// Tokens broken down by modality.
///
/// Each key appears at most once; the view maps a key's wire string to its count.
#[derive(Debug, Eq)]
pub struct ByModality {
    entries: Vec<(Modality, u64)>,
}

impl ByModality {
    /// The entries, each key once, in no particular order: exactly the counts.
    pub fn entries(&self) -> (r: &[(Modality, u64)])
        ensures
            forall|i: int, j: int| 0 <= i < j < r@.len() ==> #[trigger] r@[i].0.wire() != #[trigger] r@[j].0.wire(),
            forall|i: int|
                0 <= i < r@.len() ==> self.counts().contains_key(#[trigger] r@[i].0.wire()) && self.counts()[r@[i].0.wire()]
                    == r@[i].1,
            forall|k: Seq<char>| #[trigger] self.counts().contains_key(k) ==> exists|i: int| 0 <= i < r@.len() && #[trigger] r@[i].0.wire() == k,
    {
        proof {
            use_type_invariant(self);
            assert forall|i: int| 0 <= i < self.entries@.len() implies self.counts().contains_key(
                #[trigger] self.entries@[i].0.wire(),
            ) && self.counts()[self.entries@[i].0.wire()] == self.entries@[i].1 by {
                self.lemma_entry(i);
            }
        }
        self.entries.as_slice()
    }

    /// Whether every count of `self` is in `other` with the same value.
    fn covered_by(&self, other: &Self) -> (r: bool)
        ensures
            r == forall|k: Seq<char>| #[trigger] self.counts().contains_key(k) ==> other.counts().contains_key(k)
                && other.counts()[k] == self.counts()[k],
    {
        proof {
            use_type_invariant(self);
        }
        let mut i: usize = 0;
        while i < self.entries.len()
            invariant
                i <= self.entries@.len(),
                self.distinct(),
                forall|j: int| 0 <= j < i ==> other.counts().contains_key(#[trigger] self.entries@[j].0.wire())
                    && other.counts()[self.entries@[j].0.wire()] == self.entries@[j].1,
            decreases self.entries.len() - i,
        {
            match other.get(&self.entries[i].0) {
                Some(n) => {
                    if n != self.entries[i].1 {
                        proof {
                            self.lemma_entry(i as int);
                        }
                        return false;
                    }
                },
                None => {
                    proof {
                        self.lemma_entry(i as int);
                    }
                    return false;
                },
            }
            i = i + 1;
        }
        proof {
            assert forall|k: Seq<char>| #[trigger] self.counts().contains_key(k) implies other.counts().contains_key(k)
                && other.counts()[k] == self.counts()[k] by {
                let j = choose|j: int| 0 <= j < self.entries@.len() && #[trigger] self.entries@[j].0.wire() == k;
                self.lemma_entry(j);
            }
        }
        true
    }
}

impl PartialEq for ByModality {
    fn eq(&self, other: &Self) -> (r: bool) {
        let r = self.covered_by(other) && other.covered_by(self);
        proof {
            if r {
                assert(self.counts() =~= other.counts());
            }
        }
        r
    }
}

impl PartialEqSpecImpl for ByModality {
    open spec fn obeys_eq_spec() -> bool {
        true
    }

    open spec fn eq_spec(&self, other: &Self) -> bool {
        self.counts() == other.counts()
    }
}

impl Clone for ByModality {
    fn clone(&self) -> (r: Self)
        ensures
            r.counts() == self.counts(),
    {
        proof {
            use_type_invariant(self);
        }
        let mut entries: Vec<(Modality, u64)> = Vec::new();
        let mut i: usize = 0;
        while i < self.entries.len()
            invariant
                i <= self.entries@.len(),
                entries@ =~= self.entries@.take(i as int),
            decreases self.entries.len() - i,
        {
            let k = self.entries[i].0.clone();
            entries.push((k, self.entries[i].1));
            i = i + 1;
        }
        proof {
            assert(entries@ =~= self.entries@);
        }
        ByModality { entries }
    }
}

impl ByModality {
    /// Whether no two entries name the same modality.
    #[verifier::type_invariant]
    closed spec fn distinct(&self) -> bool {
        forall|i: int, j: int|
            0 <= i < j < self.entries@.len() ==> #[trigger] self.entries@[i].0.wire()
                != #[trigger] self.entries@[j].0.wire()
    }

    /// The counts, by the wire string of their modality.
    pub closed spec fn counts(&self) -> Map<Seq<char>, u64> {
        Map::new(
            |k: Seq<char>| exists|i: int| 0 <= i < self.entries@.len() && #[trigger] self.entries@[i].0.wire() == k,
            |k: Seq<char>|
                self.entries@[choose|i: int|
                    0 <= i < self.entries@.len() && #[trigger] self.entries@[i].0.wire() == k].1,
        )
    }

    /// The entry at `i` is what the counts hold for its key.
    proof fn lemma_entry(&self, i: int)
        requires
            self.distinct(),
            0 <= i < self.entries@.len(),
        ensures
            self.counts().contains_key(self.entries@[i].0.wire()),
            self.counts()[self.entries@[i].0.wire()] == self.entries@[i].1,
    {
        let k = self.entries@[i].0.wire();
        assert(self.entries@[i].0.wire() == k);
        let j = choose|j: int| 0 <= j < self.entries@.len() && #[trigger] self.entries@[j].0.wire() == k;
        if j != i {
            if j < i {
                assert(self.entries@[j].0.wire() != self.entries@[i].0.wire());
            } else {
                assert(self.entries@[i].0.wire() != self.entries@[j].0.wire());
            }
        }
    }

    /// No counts.
    pub fn new() -> (r: Self)
        ensures
            r.counts() == Map::<Seq<char>, u64>::empty(),
    {
        let r = ByModality { entries: Vec::new() };
        assert(r.counts() =~= Map::<Seq<char>, u64>::empty());
        r
    }

    /// How many keys have a count.
    pub fn len(&self) -> (r: usize)
        ensures
            r == self.counts().dom().len(),
    {
        proof {
            use_type_invariant(self);
            self.lemma_dom_len();
        }
        self.entries.len()
    }

    /// The domain of the counts has one key per entry.
    proof fn lemma_dom_len(&self)
        requires
            self.distinct(),
        ensures
            self.counts().dom().finite(),
            self.counts().dom().len() == self.entries@.len(),
    {
        let keys = self.entries@.map_values(|e: (Modality, u64)| e.0.wire());
        assert forall|a: int, b: int| 0 <= a < b < keys.len() implies keys[a] != keys[b] by {
            assert(self.entries@[a].0.wire() != self.entries@[b].0.wire());
        }
        assert(keys.no_duplicates());
        assert(self.counts().dom() =~= keys.to_set()) by {
            assert forall|k: Seq<char>| self.counts().dom().contains(k) implies keys.to_set().contains(k) by {
                let i = choose|i: int| 0 <= i < self.entries@.len() && #[trigger] self.entries@[i].0.wire() == k;
                assert(keys[i] == k);
            }
            assert forall|k: Seq<char>| keys.to_set().contains(k) implies self.counts().dom().contains(k) by {
                let i = choose|i: int| 0 <= i < keys.len() && keys[i] == k;
                assert(self.entries@[i].0.wire() == k);
            }
        }
        keys.unique_seq_to_set();
    }

    /// The count for `key`, if it has one.
    pub fn get(&self, key: &Modality) -> (r: Option<u64>)
        ensures
            match r {
                Some(n) => self.counts().contains_key(key.wire()) && self.counts()[key.wire()] == n,
                None => !self.counts().contains_key(key.wire()),
            },
    {
        proof {
            use_type_invariant(self);
        }
        match self.position(key) {
            Some(i) => {
                proof {
                    self.lemma_entry(i as int);
                }
                Some(self.entries[i].1)
            },
            None => None,
        }
    }

    /// Where `key` is, if it has an entry.
    fn position(&self, key: &Modality) -> (r: Option<usize>)
        ensures
            match r {
                Some(i) => i < self.entries@.len() && self.entries@[i as int].0.wire() == key.wire(),
                None => forall|i: int| 0 <= i < self.entries@.len() ==> #[trigger] self.entries@[i].0.wire() != key.wire(),
            },
    {
        let mut i: usize = 0;
        while i < self.entries.len()
            invariant
                i <= self.entries@.len(),
                forall|j: int| 0 <= j < i ==> #[trigger] self.entries@[j].0.wire() != key.wire(),
            decreases self.entries.len() - i,
        {
            if self.entries[i].0.same(key) {
                return Some(i);
            }
            i = i + 1;
        }
        None
    }

    /// Adds `n` to the count of `key`, wrapping as unsigned addition does
    /// in a release build.
    pub fn add(&mut self, key: Modality, n: u64)
        ensures
            final(self).counts() == old(self).counts().insert(
                key.wire(),
                (if old(self).counts().contains_key(key.wire()) {
                    (old(self).counts()[key.wire()] + n) % 0x1_0000_0000_0000_0000
                } else {
                    n as int
                }) as u64,
            ),
    {
        proof {
            use_type_invariant(&*self);
        }
        let ghost before = *self;
        match self.position(&key) {
            Some(i) => {
                proof {
                    before.lemma_entry(i as int);
                }
                let total = self.entries[i].1.wrapping_add(n);
                self.set_at(i, total);
            },
            None => {
                self.push_new(key, n);
            },
        }
    }

    /// Raises the count of `key` to `n` if it is below, adding it if absent.
    pub fn raise(&mut self, key: Modality, n: u64)
        ensures
            final(self).counts() == old(self).counts().insert(
                key.wire(),
                if old(self).counts().contains_key(key.wire()) && old(self).counts()[key.wire()] > n {
                    old(self).counts()[key.wire()]
                } else {
                    n
                },
            ),
    {
        proof {
            use_type_invariant(&*self);
        }
        let ghost before = *self;
        match self.position(&key) {
            Some(i) => {
                proof {
                    before.lemma_entry(i as int);
                }
                let current = self.entries[i].1;
                let higher = if current > n { current } else { n };
                self.set_at(i, higher);
            },
            None => {
                self.push_new(key, n);
            },
        }
    }

    /// Replaces the count at `i`.
    fn set_at(&mut self, i: usize, n: u64)
        requires
            old(self).distinct(),
            i < old(self).entries@.len(),
        ensures
            final(self).distinct(),
            final(self).counts() == old(self).counts().insert(old(self).entries@[i as int].0.wire(), n),
    {
        let ghost before = *self;
        let key = self.entries[i].0.clone();
        let mut entries: Vec<_> = Vec::new();
        std::mem::swap(&mut entries, &mut self.entries);
        entries.set(i, (key, n));
        self.entries = entries;
        proof {
            let k = before.entries@[i as int].0.wire();
            assert(self.entries@[i as int].0.wire() == k);
            assert forall|a: int, b: int| 0 <= a < b < self.entries@.len() implies #[trigger] self.entries@[a].0.wire()
                != #[trigger] self.entries@[b].0.wire() by {
                assert(before.entries@[a].0.wire() != before.entries@[b].0.wire());
            }
            assert forall|q: Seq<char>| #[trigger] self.counts().contains_key(q) == before.counts().insert(k, n).contains_key(q) by {
                if exists|j: int| 0 <= j < before.entries@.len() && #[trigger] before.entries@[j].0.wire() == q {
                    let j = choose|j: int| 0 <= j < before.entries@.len() && #[trigger] before.entries@[j].0.wire() == q;
                    assert(self.entries@[j].0.wire() == q);
                }
                if exists|j: int| 0 <= j < self.entries@.len() && #[trigger] self.entries@[j].0.wire() == q {
                    let j = choose|j: int| 0 <= j < self.entries@.len() && #[trigger] self.entries@[j].0.wire() == q;
                    assert(before.entries@[j].0.wire() == q);
                }
            }
            assert forall|q: Seq<char>| #[trigger] self.counts().contains_key(q) implies self.counts()[q] == before.counts().insert(k, n)[q] by {
                let j = choose|j: int| 0 <= j < self.entries@.len() && #[trigger] self.entries@[j].0.wire() == q;
                self.lemma_entry(j);
                if j != i {
                    before.lemma_entry(j);
                }
            }
            assert(self.counts() =~= before.counts().insert(k, n));
        }
    }

    /// Adds an entry for a key that has none.
    fn push_new(&mut self, key: Modality, n: u64)
        requires
            old(self).distinct(),
            forall|i: int| 0 <= i < old(self).entries@.len() ==> #[trigger] old(self).entries@[i].0.wire() != key.wire(),
        ensures
            final(self).distinct(),
            final(self).counts() == old(self).counts().insert(key.wire(), n),
    {
        let ghost before = *self;
        let ghost k = key.wire();
        let mut entries: Vec<_> = Vec::new();
        std::mem::swap(&mut entries, &mut self.entries);
        entries.push((key, n));
        self.entries = entries;
        proof {
            let last = self.entries@.len() - 1;
            assert(self.entries@[last].0.wire() == k);
            assert forall|a: int, b: int| 0 <= a < b < self.entries@.len() implies #[trigger] self.entries@[a].0.wire()
                != #[trigger] self.entries@[b].0.wire() by {
                if b < last {
                    assert(before.entries@[a].0.wire() != before.entries@[b].0.wire());
                } else {
                    assert(before.entries@[a].0.wire() != k);
                }
            }
            assert forall|q: Seq<char>| #[trigger] self.counts().contains_key(q) == before.counts().insert(k, n).contains_key(q) by {
                if exists|j: int| 0 <= j < before.entries@.len() && #[trigger] before.entries@[j].0.wire() == q {
                    let j = choose|j: int| 0 <= j < before.entries@.len() && #[trigger] before.entries@[j].0.wire() == q;
                    assert(self.entries@[j].0.wire() == q);
                }
                if exists|j: int| 0 <= j < self.entries@.len() && #[trigger] self.entries@[j].0.wire() == q {
                    let j = choose|j: int| 0 <= j < self.entries@.len() && #[trigger] self.entries@[j].0.wire() == q;
                    if j < last {
                        assert(before.entries@[j].0.wire() == q);
                    }
                }
            }
            assert forall|q: Seq<char>| #[trigger] self.counts().contains_key(q) implies self.counts()[q] == before.counts().insert(k, n)[q] by {
                let j = choose|j: int| 0 <= j < self.entries@.len() && #[trigger] self.entries@[j].0.wire() == q;
                self.lemma_entry(j);
                if j < last {
                    before.lemma_entry(j);
                }
            }
            assert(self.counts() =~= before.counts().insert(k, n));
        }
    }

    /// Raises each count to `other`'s where that is higher, adding the keys
    /// only `other` has: the pointwise maximum.
    pub fn join(&mut self, other: &ByModality)
        ensures
            final(self).counts() == join_counts(old(self).counts(), other.counts()),
    {
        proof {
            use_type_invariant(other);
            use_type_invariant(&*self);
        }
        let ghost start = self.counts();
        let mut k: usize = 0;
        while k < other.entries.len()
            invariant
                k <= other.entries@.len(),
                other.distinct(),
                self.counts() == join_counts(start, other.prefix_counts(k as int)),
            decreases other.entries.len() - k,
        {
            proof {
                use_type_invariant(&*self);
                other.lemma_prefix_step(k as int);
                other.lemma_prefix_absent(k as int);
            }
            let key = other.entries[k].0.clone();
            let n = other.entries[k].1;
            self.raise(key, n);
            proof {
                lemma_join_step(start, other.prefix_counts(k as int), other.entries@[k as int].0.wire(), n);
            }
            k = k + 1;
        }
        proof {
            other.lemma_prefix_all();
        }
    }

    /// The counts of the first `k` entries.
    closed spec fn prefix_counts(&self, k: int) -> Map<Seq<char>, u64> {
        Map::new(
            |q: Seq<char>| exists|i: int| 0 <= i < k && #[trigger] self.entries@[i].0.wire() == q,
            |q: Seq<char>|
                self.entries@[choose|i: int| 0 <= i < k && #[trigger] self.entries@[i].0.wire() == q].1,
        )
    }

    /// One more entry adds its key and count.
    proof fn lemma_prefix_step(&self, k: int)
        requires
            self.distinct(),
            0 <= k < self.entries@.len(),
        ensures
            self.prefix_counts(k + 1) == self.prefix_counts(k).insert(self.entries@[k].0.wire(), self.entries@[k].1),
    {
        let key = self.entries@[k].0.wire();
        let a = self.prefix_counts(k + 1);
        let b = self.prefix_counts(k).insert(key, self.entries@[k].1);
        assert forall|q: Seq<char>| #[trigger] a.contains_key(q) == b.contains_key(q) by {
            if exists|i: int| 0 <= i < k + 1 && #[trigger] self.entries@[i].0.wire() == q {
                let i = choose|i: int| 0 <= i < k + 1 && #[trigger] self.entries@[i].0.wire() == q;
                if i < k {
                    assert(exists|i: int| 0 <= i < k && #[trigger] self.entries@[i].0.wire() == q);
                }
            }
            if exists|i: int| 0 <= i < k && #[trigger] self.entries@[i].0.wire() == q {
                let i = choose|i: int| 0 <= i < k && #[trigger] self.entries@[i].0.wire() == q;
                assert(0 <= i < k + 1 && self.entries@[i].0.wire() == q);
            }
            if q == key {
                assert(0 <= k < k + 1 && self.entries@[k].0.wire() == q);
            }
        }
        assert forall|q: Seq<char>| #[trigger] a.contains_key(q) implies a[q] == b[q] by {
            let i = choose|i: int| 0 <= i < k + 1 && #[trigger] self.entries@[i].0.wire() == q;
            if q == key {
                if i != k {
                    assert(self.entries@[i].0.wire() != self.entries@[k].0.wire());
                }
            } else {
                assert(i != k);
                let j = choose|j: int| 0 <= j < k && #[trigger] self.entries@[j].0.wire() == q;
                if i != j {
                    if i < j {
                        assert(self.entries@[i].0.wire() != self.entries@[j].0.wire());
                    } else {
                        assert(self.entries@[j].0.wire() != self.entries@[i].0.wire());
                    }
                }
            }
        }
        assert(a =~= b);
    }

    /// The next entry's key is not among the first `k`.
    proof fn lemma_prefix_absent(&self, k: int)
        requires
            self.distinct(),
            0 <= k < self.entries@.len(),
        ensures
            !self.prefix_counts(k).contains_key(self.entries@[k].0.wire()),
    {
        if exists|i: int| 0 <= i < k && #[trigger] self.entries@[i].0.wire() == self.entries@[k].0.wire() {
            let i = choose|i: int| 0 <= i < k && #[trigger] self.entries@[i].0.wire() == self.entries@[k].0.wire();
            assert(self.entries@[i].0.wire() != self.entries@[k].0.wire());
        }
    }

    /// All the entries are the whole counts.
    proof fn lemma_prefix_all(&self)
        ensures
            self.prefix_counts(self.entries@.len() as int) == self.counts(),
    {
        assert(self.prefix_counts(self.entries@.len() as int) =~= self.counts());
    }
}

/// How many grounding calls each grounding tool made.
///
/// Each key appears at most once; the view maps a key's wire string to its count.
#[derive(Debug, Eq)]
pub struct ByGroundingTool {
    entries: Vec<(GroundingTool, u64)>,
}

impl ByGroundingTool {
    /// The entries, each key once, in no particular order: exactly the counts.
    pub fn entries(&self) -> (r: &[(GroundingTool, u64)])
        ensures
            forall|i: int, j: int| 0 <= i < j < r@.len() ==> #[trigger] r@[i].0.wire() != #[trigger] r@[j].0.wire(),
            forall|i: int|
                0 <= i < r@.len() ==> self.counts().contains_key(#[trigger] r@[i].0.wire()) && self.counts()[r@[i].0.wire()]
                    == r@[i].1,
            forall|k: Seq<char>| #[trigger] self.counts().contains_key(k) ==> exists|i: int| 0 <= i < r@.len() && #[trigger] r@[i].0.wire() == k,
    {
        proof {
            use_type_invariant(self);
            assert forall|i: int| 0 <= i < self.entries@.len() implies self.counts().contains_key(
                #[trigger] self.entries@[i].0.wire(),
            ) && self.counts()[self.entries@[i].0.wire()] == self.entries@[i].1 by {
                self.lemma_entry(i);
            }
        }
        self.entries.as_slice()
    }

    /// Whether every count of `self` is in `other` with the same value.
    fn covered_by(&self, other: &Self) -> (r: bool)
        ensures
            r == forall|k: Seq<char>| #[trigger] self.counts().contains_key(k) ==> other.counts().contains_key(k)
                && other.counts()[k] == self.counts()[k],
    {
        proof {
            use_type_invariant(self);
        }
        let mut i: usize = 0;
        while i < self.entries.len()
            invariant
                i <= self.entries@.len(),
                self.distinct(),
                forall|j: int| 0 <= j < i ==> other.counts().contains_key(#[trigger] self.entries@[j].0.wire())
                    && other.counts()[self.entries@[j].0.wire()] == self.entries@[j].1,
            decreases self.entries.len() - i,
        {
            match other.get(&self.entries[i].0) {
                Some(n) => {
                    if n != self.entries[i].1 {
                        proof {
                            self.lemma_entry(i as int);
                        }
                        return false;
                    }
                },
                None => {
                    proof {
                        self.lemma_entry(i as int);
                    }
                    return false;
                },
            }
            i = i + 1;
        }
        proof {
            assert forall|k: Seq<char>| #[trigger] self.counts().contains_key(k) implies other.counts().contains_key(k)
                && other.counts()[k] == self.counts()[k] by {
                let j = choose|j: int| 0 <= j < self.entries@.len() && #[trigger] self.entries@[j].0.wire() == k;
                self.lemma_entry(j);
            }
        }
        true
    }
}

impl PartialEq for ByGroundingTool {
    fn eq(&self, other: &Self) -> (r: bool) {
        let r = self.covered_by(other) && other.covered_by(self);
        proof {
            if r {
                assert(self.counts() =~= other.counts());
            }
        }
        r
    }
}

impl PartialEqSpecImpl for ByGroundingTool {
    open spec fn obeys_eq_spec() -> bool {
        true
    }

    open spec fn eq_spec(&self, other: &Self) -> bool {
        self.counts() == other.counts()
    }
}

impl Clone for ByGroundingTool {
    fn clone(&self) -> (r: Self)
        ensures
            r.counts() == self.counts(),
    {
        proof {
            use_type_invariant(self);
        }
        let mut entries: Vec<(GroundingTool, u64)> = Vec::new();
        let mut i: usize = 0;
        while i < self.entries.len()
            invariant
                i <= self.entries@.len(),
                entries@ =~= self.entries@.take(i as int),
            decreases self.entries.len() - i,
        {
            let k = self.entries[i].0.clone();
            entries.push((k, self.entries[i].1));
            i = i + 1;
        }
        proof {
            assert(entries@ =~= self.entries@);
        }
        ByGroundingTool { entries }
    }
}

impl ByGroundingTool {
    /// Whether no two entries name the same grounding tool.
    #[verifier::type_invariant]
    closed spec fn distinct(&self) -> bool {
        forall|i: int, j: int|
            0 <= i < j < self.entries@.len() ==> #[trigger] self.entries@[i].0.wire()
                != #[trigger] self.entries@[j].0.wire()
    }

    /// The counts, by the wire string of their grounding tool.
    pub closed spec fn counts(&self) -> Map<Seq<char>, u64> {
        Map::new(
            |k: Seq<char>| exists|i: int| 0 <= i < self.entries@.len() && #[trigger] self.entries@[i].0.wire() == k,
            |k: Seq<char>|
                self.entries@[choose|i: int|
                    0 <= i < self.entries@.len() && #[trigger] self.entries@[i].0.wire() == k].1,
        )
    }

    /// The entry at `i` is what the counts hold for its key.
    proof fn lemma_entry(&self, i: int)
        requires
            self.distinct(),
            0 <= i < self.entries@.len(),
        ensures
            self.counts().contains_key(self.entries@[i].0.wire()),
            self.counts()[self.entries@[i].0.wire()] == self.entries@[i].1,
    {
        let k = self.entries@[i].0.wire();
        assert(self.entries@[i].0.wire() == k);
        let j = choose|j: int| 0 <= j < self.entries@.len() && #[trigger] self.entries@[j].0.wire() == k;
        if j != i {
            if j < i {
                assert(self.entries@[j].0.wire() != self.entries@[i].0.wire());
            } else {
                assert(self.entries@[i].0.wire() != self.entries@[j].0.wire());
            }
        }
    }

    /// No counts.
    pub fn new() -> (r: Self)
        ensures
            r.counts() == Map::<Seq<char>, u64>::empty(),
    {
        let r = ByGroundingTool { entries: Vec::new() };
        assert(r.counts() =~= Map::<Seq<char>, u64>::empty());
        r
    }

    /// How many keys have a count.
    pub fn len(&self) -> (r: usize)
        ensures
            r == self.counts().dom().len(),
    {
        proof {
            use_type_invariant(self);
            self.lemma_dom_len();
        }
        self.entries.len()
    }

    /// The domain of the counts has one key per entry.
    proof fn lemma_dom_len(&self)
        requires
            self.distinct(),
        ensures
            self.counts().dom().finite(),
            self.counts().dom().len() == self.entries@.len(),
    {
        let keys = self.entries@.map_values(|e: (GroundingTool, u64)| e.0.wire());
        assert forall|a: int, b: int| 0 <= a < b < keys.len() implies keys[a] != keys[b] by {
            assert(self.entries@[a].0.wire() != self.entries@[b].0.wire());
        }
        assert(keys.no_duplicates());
        assert(self.counts().dom() =~= keys.to_set()) by {
            assert forall|k: Seq<char>| self.counts().dom().contains(k) implies keys.to_set().contains(k) by {
                let i = choose|i: int| 0 <= i < self.entries@.len() && #[trigger] self.entries@[i].0.wire() == k;
                assert(keys[i] == k);
            }
            assert forall|k: Seq<char>| keys.to_set().contains(k) implies self.counts().dom().contains(k) by {
                let i = choose|i: int| 0 <= i < keys.len() && keys[i] == k;
                assert(self.entries@[i].0.wire() == k);
            }
        }
        keys.unique_seq_to_set();
    }

    /// The count for `key`, if it has one.
    pub fn get(&self, key: &GroundingTool) -> (r: Option<u64>)
        ensures
            match r {
                Some(n) => self.counts().contains_key(key.wire()) && self.counts()[key.wire()] == n,
                None => !self.counts().contains_key(key.wire()),
            },
    {
        proof {
            use_type_invariant(self);
        }
        match self.position(key) {
            Some(i) => {
                proof {
                    self.lemma_entry(i as int);
                }
                Some(self.entries[i].1)
            },
            None => None,
        }
    }

    /// Where `key` is, if it has an entry.
    fn position(&self, key: &GroundingTool) -> (r: Option<usize>)
        ensures
            match r {
                Some(i) => i < self.entries@.len() && self.entries@[i as int].0.wire() == key.wire(),
                None => forall|i: int| 0 <= i < self.entries@.len() ==> #[trigger] self.entries@[i].0.wire() != key.wire(),
            },
    {
        let mut i: usize = 0;
        while i < self.entries.len()
            invariant
                i <= self.entries@.len(),
                forall|j: int| 0 <= j < i ==> #[trigger] self.entries@[j].0.wire() != key.wire(),
            decreases self.entries.len() - i,
        {
            if self.entries[i].0.same(key) {
                return Some(i);
            }
            i = i + 1;
        }
        None
    }

    /// Adds `n` to the count of `key`, wrapping as unsigned addition does
    /// in a release build.
    pub fn add(&mut self, key: GroundingTool, n: u64)
        ensures
            final(self).counts() == old(self).counts().insert(
                key.wire(),
                (if old(self).counts().contains_key(key.wire()) {
                    (old(self).counts()[key.wire()] + n) % 0x1_0000_0000_0000_0000
                } else {
                    n as int
                }) as u64,
            ),
    {
        proof {
            use_type_invariant(&*self);
        }
        let ghost before = *self;
        match self.position(&key) {
            Some(i) => {
                proof {
                    before.lemma_entry(i as int);
                }
                let total = self.entries[i].1.wrapping_add(n);
                self.set_at(i, total);
            },
            None => {
                self.push_new(key, n);
            },
        }
    }

    /// Raises the count of `key` to `n` if it is below, adding it if absent.
    pub fn raise(&mut self, key: GroundingTool, n: u64)
        ensures
            final(self).counts() == old(self).counts().insert(
                key.wire(),
                if old(self).counts().contains_key(key.wire()) && old(self).counts()[key.wire()] > n {
                    old(self).counts()[key.wire()]
                } else {
                    n
                },
            ),
    {
        proof {
            use_type_invariant(&*self);
        }
        let ghost before = *self;
        match self.position(&key) {
            Some(i) => {
                proof {
                    before.lemma_entry(i as int);
                }
                let current = self.entries[i].1;
                let higher = if current > n { current } else { n };
                self.set_at(i, higher);
            },
            None => {
                self.push_new(key, n);
            },
        }
    }

    /// Replaces the count at `i`.
    fn set_at(&mut self, i: usize, n: u64)
        requires
            old(self).distinct(),
            i < old(self).entries@.len(),
        ensures
            final(self).distinct(),
            final(self).counts() == old(self).counts().insert(old(self).entries@[i as int].0.wire(), n),
    {
        let ghost before = *self;
        let key = self.entries[i].0.clone();
        let mut entries: Vec<_> = Vec::new();
        std::mem::swap(&mut entries, &mut self.entries);
        entries.set(i, (key, n));
        self.entries = entries;
        proof {
            let k = before.entries@[i as int].0.wire();
            assert(self.entries@[i as int].0.wire() == k);
            assert forall|a: int, b: int| 0 <= a < b < self.entries@.len() implies #[trigger] self.entries@[a].0.wire()
                != #[trigger] self.entries@[b].0.wire() by {
                assert(before.entries@[a].0.wire() != before.entries@[b].0.wire());
            }
            assert forall|q: Seq<char>| #[trigger] self.counts().contains_key(q) == before.counts().insert(k, n).contains_key(q) by {
                if exists|j: int| 0 <= j < before.entries@.len() && #[trigger] before.entries@[j].0.wire() == q {
                    let j = choose|j: int| 0 <= j < before.entries@.len() && #[trigger] before.entries@[j].0.wire() == q;
                    assert(self.entries@[j].0.wire() == q);
                }
                if exists|j: int| 0 <= j < self.entries@.len() && #[trigger] self.entries@[j].0.wire() == q {
                    let j = choose|j: int| 0 <= j < self.entries@.len() && #[trigger] self.entries@[j].0.wire() == q;
                    assert(before.entries@[j].0.wire() == q);
                }
            }
            assert forall|q: Seq<char>| #[trigger] self.counts().contains_key(q) implies self.counts()[q] == before.counts().insert(k, n)[q] by {
                let j = choose|j: int| 0 <= j < self.entries@.len() && #[trigger] self.entries@[j].0.wire() == q;
                self.lemma_entry(j);
                if j != i {
                    before.lemma_entry(j);
                }
            }
            assert(self.counts() =~= before.counts().insert(k, n));
        }
    }

    /// Adds an entry for a key that has none.
    fn push_new(&mut self, key: GroundingTool, n: u64)
        requires
            old(self).distinct(),
            forall|i: int| 0 <= i < old(self).entries@.len() ==> #[trigger] old(self).entries@[i].0.wire() != key.wire(),
        ensures
            final(self).distinct(),
            final(self).counts() == old(self).counts().insert(key.wire(), n),
    {
        let ghost before = *self;
        let ghost k = key.wire();
        let mut entries: Vec<_> = Vec::new();
        std::mem::swap(&mut entries, &mut self.entries);
        entries.push((key, n));
        self.entries = entries;
        proof {
            let last = self.entries@.len() - 1;
            assert(self.entries@[last].0.wire() == k);
            assert forall|a: int, b: int| 0 <= a < b < self.entries@.len() implies #[trigger] self.entries@[a].0.wire()
                != #[trigger] self.entries@[b].0.wire() by {
                if b < last {
                    assert(before.entries@[a].0.wire() != before.entries@[b].0.wire());
                } else {
                    assert(before.entries@[a].0.wire() != k);
                }
            }
            assert forall|q: Seq<char>| #[trigger] self.counts().contains_key(q) == before.counts().insert(k, n).contains_key(q) by {
                if exists|j: int| 0 <= j < before.entries@.len() && #[trigger] before.entries@[j].0.wire() == q {
                    let j = choose|j: int| 0 <= j < before.entries@.len() && #[trigger] before.entries@[j].0.wire() == q;
                    assert(self.entries@[j].0.wire() == q);
                }
                if exists|j: int| 0 <= j < self.entries@.len() && #[trigger] self.entries@[j].0.wire() == q {
                    let j = choose|j: int| 0 <= j < self.entries@.len() && #[trigger] self.entries@[j].0.wire() == q;
                    if j < last {
                        assert(before.entries@[j].0.wire() == q);
                    }
                }
            }
            assert forall|q: Seq<char>| #[trigger] self.counts().contains_key(q) implies self.counts()[q] == before.counts().insert(k, n)[q] by {
                let j = choose|j: int| 0 <= j < self.entries@.len() && #[trigger] self.entries@[j].0.wire() == q;
                self.lemma_entry(j);
                if j < last {
                    before.lemma_entry(j);
                }
            }
            assert(self.counts() =~= before.counts().insert(k, n));
        }
    }

    /// Raises each count to `other`'s where that is higher, adding the keys
    /// only `other` has: the pointwise maximum.
    pub fn join(&mut self, other: &ByGroundingTool)
        ensures
            final(self).counts() == join_counts(old(self).counts(), other.counts()),
    {
        proof {
            use_type_invariant(other);
            use_type_invariant(&*self);
        }
        let ghost start = self.counts();
        let mut k: usize = 0;
        while k < other.entries.len()
            invariant
                k <= other.entries@.len(),
                other.distinct(),
                self.counts() == join_counts(start, other.prefix_counts(k as int)),
            decreases other.entries.len() - k,
        {
            proof {
                use_type_invariant(&*self);
                other.lemma_prefix_step(k as int);
                other.lemma_prefix_absent(k as int);
            }
            let key = other.entries[k].0.clone();
            let n = other.entries[k].1;
            self.raise(key, n);
            proof {
                lemma_join_step(start, other.prefix_counts(k as int), other.entries@[k as int].0.wire(), n);
            }
            k = k + 1;
        }
        proof {
            other.lemma_prefix_all();
        }
    }

    /// The counts of the first `k` entries.
    closed spec fn prefix_counts(&self, k: int) -> Map<Seq<char>, u64> {
        Map::new(
            |q: Seq<char>| exists|i: int| 0 <= i < k && #[trigger] self.entries@[i].0.wire() == q,
            |q: Seq<char>|
                self.entries@[choose|i: int| 0 <= i < k && #[trigger] self.entries@[i].0.wire() == q].1,
        )
    }

    /// One more entry adds its key and count.
    proof fn lemma_prefix_step(&self, k: int)
        requires
            self.distinct(),
            0 <= k < self.entries@.len(),
        ensures
            self.prefix_counts(k + 1) == self.prefix_counts(k).insert(self.entries@[k].0.wire(), self.entries@[k].1),
    {
        let key = self.entries@[k].0.wire();
        let a = self.prefix_counts(k + 1);
        let b = self.prefix_counts(k).insert(key, self.entries@[k].1);
        assert forall|q: Seq<char>| #[trigger] a.contains_key(q) == b.contains_key(q) by {
            if exists|i: int| 0 <= i < k + 1 && #[trigger] self.entries@[i].0.wire() == q {
                let i = choose|i: int| 0 <= i < k + 1 && #[trigger] self.entries@[i].0.wire() == q;
                if i < k {
                    assert(exists|i: int| 0 <= i < k && #[trigger] self.entries@[i].0.wire() == q);
                }
            }
            if exists|i: int| 0 <= i < k && #[trigger] self.entries@[i].0.wire() == q {
                let i = choose|i: int| 0 <= i < k && #[trigger] self.entries@[i].0.wire() == q;
                assert(0 <= i < k + 1 && self.entries@[i].0.wire() == q);
            }
            if q == key {
                assert(0 <= k < k + 1 && self.entries@[k].0.wire() == q);
            }
        }
        assert forall|q: Seq<char>| #[trigger] a.contains_key(q) implies a[q] == b[q] by {
            let i = choose|i: int| 0 <= i < k + 1 && #[trigger] self.entries@[i].0.wire() == q;
            if q == key {
                if i != k {
                    assert(self.entries@[i].0.wire() != self.entries@[k].0.wire());
                }
            } else {
                assert(i != k);
                let j = choose|j: int| 0 <= j < k && #[trigger] self.entries@[j].0.wire() == q;
                if i != j {
                    if i < j {
                        assert(self.entries@[i].0.wire() != self.entries@[j].0.wire());
                    } else {
                        assert(self.entries@[j].0.wire() != self.entries@[i].0.wire());
                    }
                }
            }
        }
        assert(a =~= b);
    }

    /// The next entry's key is not among the first `k`.
    proof fn lemma_prefix_absent(&self, k: int)
        requires
            self.distinct(),
            0 <= k < self.entries@.len(),
        ensures
            !self.prefix_counts(k).contains_key(self.entries@[k].0.wire()),
    {
        if exists|i: int| 0 <= i < k && #[trigger] self.entries@[i].0.wire() == self.entries@[k].0.wire() {
            let i = choose|i: int| 0 <= i < k && #[trigger] self.entries@[i].0.wire() == self.entries@[k].0.wire();
            assert(self.entries@[i].0.wire() != self.entries@[k].0.wire());
        }
    }

    /// All the entries are the whole counts.
    proof fn lemma_prefix_all(&self)
        ensures
            self.prefix_counts(self.entries@.len() as int) == self.counts(),
    {
        assert(self.prefix_counts(self.entries@.len() as int) =~= self.counts());
    }
}

/// A count map after adding `n` to the count of `key`, wrapping as unsigned
/// addition does in a release build.
pub open spec fn add_count(m: Map<Seq<char>, u64>, key: Seq<char>, n: u64) -> Map<Seq<char>, u64> {
    m.insert(
        key,
        (if m.contains_key(key) {
            (m[key] + n) % 0x1_0000_0000_0000_0000
        } else {
            n as int
        }) as u64,
    )
}

/// The tally of a list of `{key_name: string, count_name: count}` objects:
/// counts of equal keys add up. `None` when an item has another shape.
pub open spec fn tally(items: Seq<JsonV>, key_name: Seq<char>, count_name: Seq<char>) -> Option<Map<Seq<char>, u64>>
    decreases items.len(),
{
    if items.len() == 0 {
        Some(Map::empty())
    } else {
        match tally(items.drop_last(), key_name, count_name) {
            Some(m) => match items.last() {
                JsonV::Object(fields) => match (field_of(fields, key_name), defaulted_u64(field_of(fields, count_name))) {
                    (Some(JsonV::Str(k)), Some(n)) => Some(add_count(m, k, n)),
                    _ => None,
                },
                _ => None,
            },
            None => None,
        }
    }
}

/// The member `key` as a tally: absent and `null` are empty.
pub open spec fn tally_member(
    members: Seq<MemberV>,
    key: Seq<char>,
    key_name: Seq<char>,
    count_name: Seq<char>,
) -> Option<Map<Seq<char>, u64>> {
    match field_of(members, key) {
        None => Some(Map::empty()),
        Some(JsonV::Null) => Some(Map::empty()),
        Some(JsonV::Array(items)) => tally(items, key_name, count_name),
        _ => None,
    }
}

/// What a usage object says: absent counters read as zero, and a list of
/// per-modality or per-tool counts adds up equal keys. `None` when a field
/// has the wrong shape.
pub open spec fn usage_of(j: JsonV) -> Option<UsageV> {
    match j {
        JsonV::Object(m) => {
            match (
                optional_u64(field_of(m, "total_input_tokens"@)),
                optional_u64(field_of(m, "total_cached_tokens"@)),
                optional_u64(field_of(m, "total_output_tokens"@)),
                optional_u64(field_of(m, "total_thought_tokens"@)),
                optional_u64(field_of(m, "total_tool_use_tokens"@)),
                optional_u64(field_of(m, "total_tokens"@)),
            ) {
                (Some(a), Some(b), Some(c), Some(d), Some(e), Some(f)) => match (
                    tally_member(m, "input_tokens_by_modality"@, "modality"@, "tokens"@),
                    tally_member(m, "cached_tokens_by_modality"@, "modality"@, "tokens"@),
                    tally_member(m, "output_tokens_by_modality"@, "modality"@, "tokens"@),
                    tally_member(m, "tool_use_tokens_by_modality"@, "modality"@, "tokens"@),
                    tally_member(m, "grounding_tool_count"@, "type"@, "count"@),
                ) {
                    (Some(g), Some(h), Some(i), Some(k), Some(l)) => Some(
                        UsageV {
                            total_input_tokens: a,
                            total_cached_tokens: b,
                            total_output_tokens: c,
                            total_thought_tokens: d,
                            total_tool_use_tokens: e,
                            total_tokens: f,
                            input_tokens_by_modality: g,
                            cached_tokens_by_modality: h,
                            output_tokens_by_modality: i,
                            tool_use_tokens_by_modality: k,
                            grounding_tool_count: l,
                        },
                    ),
                    _ => None,
                },
                _ => None,
            }
        },
        _ => None,
    }
}

/// A tally that fails on one item fails on every longer list.
proof fn lemma_tally_stuck(items: Seq<JsonV>, i: int, key_name: Seq<char>, count_name: Seq<char>)
    requires
        0 <= i < items.len(),
        tally(items.take(i), key_name, count_name) is Some,
        tally(items.take(i + 1), key_name, count_name) is None,
    ensures
        tally(items, key_name, count_name) is None,
    decreases items.len() - i,
{
    if i + 1 < items.len() {
        assert(items.take(i + 2).drop_last() == items.take(i + 1));
        lemma_tally_none_grows(items, i + 1, key_name, count_name);
    } else {
        assert(items.take(i + 1) == items);
    }
}

/// Once a prefix fails to tally, every longer prefix does.
proof fn lemma_tally_none_grows(items: Seq<JsonV>, j: int, key_name: Seq<char>, count_name: Seq<char>)
    requires
        0 < j <= items.len(),
        tally(items.take(j), key_name, count_name) is None,
    ensures
        tally(items, key_name, count_name) is None,
    decreases items.len() - j,
{
    if j < items.len() {
        assert(items.take(j + 1).drop_last() == items.take(j));
        lemma_tally_none_grows(items, j + 1, key_name, count_name);
    } else {
        assert(items.take(j) == items);
    }
}

impl Usage {
    /// Decodes a usage object: absent counters read as zero.
    pub fn from_json(j: &Json) -> (r: Result<Usage, String>)
        ensures
            match r {
                Ok(u) => usage_of(j@) == Some(u@),
                Err(_) => usage_of(j@) is None,
            },
    {
        let m = match j {
            Json::Object(m) => m,
            _ => return Err("usage is not an object".to_owned()),
        };
        let a = read_optional_u64(m, "total_input_tokens");
        let b = read_optional_u64(m, "total_cached_tokens");
        let c = read_optional_u64(m, "total_output_tokens");
        let d = read_optional_u64(m, "total_thought_tokens");
        let e = read_optional_u64(m, "total_tool_use_tokens");
        let f = read_optional_u64(m, "total_tokens");
        let (a, b, c, d, e, f) = match (a, b, c, d, e, f) {
            (Some(a), Some(b), Some(c), Some(d), Some(e), Some(f)) => (a, b, c, d, e, f),
            _ => return Err("a usage counter is not a non-negative integer".to_owned()),
        };
        let g = ByModality::tally_member(m, "input_tokens_by_modality");
        let h = ByModality::tally_member(m, "cached_tokens_by_modality");
        let i = ByModality::tally_member(m, "output_tokens_by_modality");
        let k = ByModality::tally_member(m, "tool_use_tokens_by_modality");
        let l = ByGroundingTool::tally_member(m, "grounding_tool_count");
        match (g, h, i, k, l) {
            (Some(g), Some(h), Some(i), Some(k), Some(l)) => Ok(
                Usage {
                    total_input_tokens: a,
                    total_cached_tokens: b,
                    total_output_tokens: c,
                    total_thought_tokens: d,
                    total_tool_use_tokens: e,
                    total_tokens: f,
                    input_tokens_by_modality: g,
                    cached_tokens_by_modality: h,
                    output_tokens_by_modality: i,
                    tool_use_tokens_by_modality: k,
                    grounding_tool_count: l,
                },
            ),
            _ => Err("a usage breakdown is not a list of keyed counts".to_owned()),
        }
    }
}

impl ByModality {
    /// The member `key` of an object as a tally of `modality`/`tokens` items:
    /// absent and `null` are empty.
    pub fn tally_member(members: &Vec<Member>, key: &str) -> (r: Option<ByModality>)
        ensures
            match r {
                Some(t) => tally_member(members_view(members@), key@, "modality"@, "tokens"@) == Some(t.counts()),
                None => tally_member(members_view(members@), key@, "modality"@, "tokens"@) is None,
            },
    {
        match get_member(members, key) {
            None => Some(ByModality::new()),
            Some(Json::Null) => Some(ByModality::new()),
            Some(Json::Array(items)) => ByModality::tally(items),
            _ => None,
        }
    }

    /// The tally of a list of `modality`/`tokens` items.
    pub fn tally(items: &Vec<Json>) -> (r: Option<ByModality>)
        ensures
            match r {
                Some(t) => tally(items_view(items@), "modality"@, "tokens"@) == Some(t.counts()),
                None => tally(items_view(items@), "modality"@, "tokens"@) is None,
            },
    {
        let mut out = ByModality::new();
        let mut i: usize = 0;
        while i < items.len()
            invariant
                i <= items@.len(),
                tally(items_view(items@).take(i as int), "modality"@, "tokens"@) == Some(out.counts()),
            decreases items.len() - i,
        {
            proof {
                assert(items_view(items@).take(i as int + 1).drop_last() == items_view(items@).take(i as int));
                assert(items_view(items@).take(i as int + 1).last() == items@[i as int]@);
            }
            match &items[i] {
                Json::Object(fields) => {
                    let n = read_defaulted_u64(fields, "tokens");
                    match (get_member(fields, "modality"), n) {
                        (Some(Json::Str(k)), Some(n)) => {
                            out.add(Modality::from_string(k.clone()), n);
                        },
                        _ => {
                            proof {
                                lemma_tally_stuck(items_view(items@), i as int, "modality"@, "tokens"@);
                            }
                            return None;
                        },
                    }
                },
                _ => {
                    proof {
                        lemma_tally_stuck(items_view(items@), i as int, "modality"@, "tokens"@);
                    }
                    return None;
                },
            }
            i = i + 1;
        }
        assert(items_view(items@).take(items@.len() as int) == items_view(items@));
        Some(out)
    }
}

impl ByGroundingTool {
    /// The member `key` of an object as a tally of `type`/`count` items:
    /// absent and `null` are empty.
    pub fn tally_member(members: &Vec<Member>, key: &str) -> (r: Option<ByGroundingTool>)
        ensures
            match r {
                Some(t) => tally_member(members_view(members@), key@, "type"@, "count"@) == Some(t.counts()),
                None => tally_member(members_view(members@), key@, "type"@, "count"@) is None,
            },
    {
        match get_member(members, key) {
            None => Some(ByGroundingTool::new()),
            Some(Json::Null) => Some(ByGroundingTool::new()),
            Some(Json::Array(items)) => ByGroundingTool::tally(items),
            _ => None,
        }
    }

    /// The tally of a list of `type`/`count` items.
    pub fn tally(items: &Vec<Json>) -> (r: Option<ByGroundingTool>)
        ensures
            match r {
                Some(t) => tally(items_view(items@), "type"@, "count"@) == Some(t.counts()),
                None => tally(items_view(items@), "type"@, "count"@) is None,
            },
    {
        let mut out = ByGroundingTool::new();
        let mut i: usize = 0;
        while i < items.len()
            invariant
                i <= items@.len(),
                tally(items_view(items@).take(i as int), "type"@, "count"@) == Some(out.counts()),
            decreases items.len() - i,
        {
            proof {
                assert(items_view(items@).take(i as int + 1).drop_last() == items_view(items@).take(i as int));
                assert(items_view(items@).take(i as int + 1).last() == items@[i as int]@);
            }
            match &items[i] {
                Json::Object(fields) => {
                    let n = read_defaulted_u64(fields, "count");
                    match (get_member(fields, "type"), n) {
                        (Some(Json::Str(k)), Some(n)) => {
                            out.add(GroundingTool::from_string(k.clone()), n);
                        },
                        _ => {
                            proof {
                                lemma_tally_stuck(items_view(items@), i as int, "type"@, "count"@);
                            }
                            return None;
                        },
                    }
                },
                _ => {
                    proof {
                        lemma_tally_stuck(items_view(items@), i as int, "type"@, "count"@);
                    }
                    return None;
                },
            }
            i = i + 1;
        }
        assert(items_view(items@).take(items@.len() as int) == items_view(items@));
        Some(out)
    }
}

/// Token counts for one interaction.
#[derive(Debug, Clone, PartialEq, Eq)]
pub struct Usage {
    /// Prompt tokens, cached ones included.
    pub total_input_tokens: u64,
    /// Prompt tokens read from the implicit cache.
    pub total_cached_tokens: u64,
    /// Answer tokens, thinking excluded.
    pub total_output_tokens: u64,
    /// Thinking tokens, billed as output.
    pub total_thought_tokens: u64,
    /// Tokens of server-side tool prompts.
    pub total_tool_use_tokens: u64,
    /// Everything, as the API totals it.
    pub total_tokens: u64,
    /// Prompt tokens per modality.
    pub input_tokens_by_modality: ByModality,
    /// Cached tokens per modality.
    pub cached_tokens_by_modality: ByModality,
    /// Answer tokens per modality.
    pub output_tokens_by_modality: ByModality,
    /// Tool-use tokens per modality.
    pub tool_use_tokens_by_modality: ByModality,
    /// How many grounding calls each grounding tool made.
    pub grounding_tool_count: ByGroundingTool,
}

/// The counters of a [`Usage`], as numbers and maps.
pub struct UsageV {
    pub total_input_tokens: u64,
    pub total_cached_tokens: u64,
    pub total_output_tokens: u64,
    pub total_thought_tokens: u64,
    pub total_tool_use_tokens: u64,
    pub total_tokens: u64,
    pub input_tokens_by_modality: Map<Seq<char>, u64>,
    pub cached_tokens_by_modality: Map<Seq<char>, u64>,
    pub output_tokens_by_modality: Map<Seq<char>, u64>,
    pub tool_use_tokens_by_modality: Map<Seq<char>, u64>,
    pub grounding_tool_count: Map<Seq<char>, u64>,
}

impl View for Usage {
    type V = UsageV;

    open spec fn view(&self) -> UsageV {
        UsageV {
            total_input_tokens: self.total_input_tokens,
            total_cached_tokens: self.total_cached_tokens,
            total_output_tokens: self.total_output_tokens,
            total_thought_tokens: self.total_thought_tokens,
            total_tool_use_tokens: self.total_tool_use_tokens,
            total_tokens: self.total_tokens,
            input_tokens_by_modality: self.input_tokens_by_modality.counts(),
            cached_tokens_by_modality: self.cached_tokens_by_modality.counts(),
            output_tokens_by_modality: self.output_tokens_by_modality.counts(),
            tool_use_tokens_by_modality: self.tool_use_tokens_by_modality.counts(),
            grounding_tool_count: self.grounding_tool_count.counts(),
        }
    }
}

/// No usage: every counter zero, every map empty.
pub open spec fn zero_usage() -> UsageV {
    UsageV {
        total_input_tokens: 0,
        total_cached_tokens: 0,
        total_output_tokens: 0,
        total_thought_tokens: 0,
        total_tool_use_tokens: 0,
        total_tokens: 0,
        input_tokens_by_modality: Map::empty(),
        cached_tokens_by_modality: Map::empty(),
        output_tokens_by_modality: Map::empty(),
        tool_use_tokens_by_modality: Map::empty(),
        grounding_tool_count: Map::empty(),
    }
}

/// The pointwise maximum of two usage reports.
pub open spec fn join_usage(a: UsageV, b: UsageV) -> UsageV {
    UsageV {
        total_input_tokens: max_u64(a.total_input_tokens, b.total_input_tokens),
        total_cached_tokens: max_u64(a.total_cached_tokens, b.total_cached_tokens),
        total_output_tokens: max_u64(a.total_output_tokens, b.total_output_tokens),
        total_thought_tokens: max_u64(a.total_thought_tokens, b.total_thought_tokens),
        total_tool_use_tokens: max_u64(a.total_tool_use_tokens, b.total_tool_use_tokens),
        total_tokens: max_u64(a.total_tokens, b.total_tokens),
        input_tokens_by_modality: join_counts(a.input_tokens_by_modality, b.input_tokens_by_modality),
        cached_tokens_by_modality: join_counts(a.cached_tokens_by_modality, b.cached_tokens_by_modality),
        output_tokens_by_modality: join_counts(a.output_tokens_by_modality, b.output_tokens_by_modality),
        tool_use_tokens_by_modality: join_counts(a.tool_use_tokens_by_modality, b.tool_use_tokens_by_modality),
        grounding_tool_count: join_counts(a.grounding_tool_count, b.grounding_tool_count),
    }
}

/// Whether every counter and every keyed count of `a` is at most `b`'s.
pub open spec fn usage_le(a: UsageV, b: UsageV) -> bool {
    &&& a.total_input_tokens <= b.total_input_tokens
    &&& a.total_cached_tokens <= b.total_cached_tokens
    &&& a.total_output_tokens <= b.total_output_tokens
    &&& a.total_thought_tokens <= b.total_thought_tokens
    &&& a.total_tool_use_tokens <= b.total_tool_use_tokens
    &&& a.total_tokens <= b.total_tokens
    &&& counts_le(a.input_tokens_by_modality, b.input_tokens_by_modality)
    &&& counts_le(a.cached_tokens_by_modality, b.cached_tokens_by_modality)
    &&& counts_le(a.output_tokens_by_modality, b.output_tokens_by_modality)
    &&& counts_le(a.tool_use_tokens_by_modality, b.tool_use_tokens_by_modality)
    &&& counts_le(a.grounding_tool_count, b.grounding_tool_count)
}

/// Whether every key of `a` is in `b` with at least its count.
pub open spec fn counts_le(a: Map<Seq<char>, u64>, b: Map<Seq<char>, u64>) -> bool {
    forall|k: Seq<char>| #[trigger] a.contains_key(k) ==> b.contains_key(k) && a[k] <= b[k]
}

impl Usage {
    /// No usage yet: every counter zero.
    pub fn new() -> (r: Usage)
        ensures
            r@ == zero_usage(),
    {
        Usage {
            total_input_tokens: 0,
            total_cached_tokens: 0,
            total_output_tokens: 0,
            total_thought_tokens: 0,
            total_tool_use_tokens: 0,
            total_tokens: 0,
            input_tokens_by_modality: ByModality::new(),
            cached_tokens_by_modality: ByModality::new(),
            output_tokens_by_modality: ByModality::new(),
            tool_use_tokens_by_modality: ByModality::new(),
            grounding_tool_count: ByGroundingTool::new(),
        }
    }

    /// The pointwise maximum of two reports of the same interaction.
    pub fn join(&mut self, other: &Usage)
        ensures
            final(self)@ == join_usage(old(self)@, other@),
    {
        self.total_input_tokens = max(self.total_input_tokens, other.total_input_tokens);
        self.total_cached_tokens = max(self.total_cached_tokens, other.total_cached_tokens);
        self.total_output_tokens = max(self.total_output_tokens, other.total_output_tokens);
        self.total_thought_tokens = max(self.total_thought_tokens, other.total_thought_tokens);
        self.total_tool_use_tokens = max(self.total_tool_use_tokens, other.total_tool_use_tokens);
        self.total_tokens = max(self.total_tokens, other.total_tokens);
        self.input_tokens_by_modality.join(&other.input_tokens_by_modality);
        self.cached_tokens_by_modality.join(&other.cached_tokens_by_modality);
        self.output_tokens_by_modality.join(&other.output_tokens_by_modality);
        self.tool_use_tokens_by_modality.join(&other.tool_use_tokens_by_modality);
        self.grounding_tool_count.join(&other.grounding_tool_count);
    }
}

impl Default for Usage {
    fn default() -> (r: Self)
        ensures
            r@ == zero_usage(),
    {
        Usage::new()
    }
}

/// The larger of two counters.
fn max(a: u64, b: u64) -> (r: u64)
    ensures
        r == max_u64(a, b),
{
    if a >= b {
        a
    } else {
        b
    }
}

/// Joining count maps does not depend on their order.
pub proof fn lemma_join_counts_commutative(a: Map<Seq<char>, u64>, b: Map<Seq<char>, u64>)
    ensures
        join_counts(a, b) == join_counts(b, a),
{
    assert(join_counts(a, b) =~= join_counts(b, a));
}

/// Joining count maps does not depend on their grouping.
pub proof fn lemma_join_counts_associative(
    a: Map<Seq<char>, u64>,
    b: Map<Seq<char>, u64>,
    c: Map<Seq<char>, u64>,
)
    ensures
        join_counts(join_counts(a, b), c) == join_counts(a, join_counts(b, c)),
{
    assert(join_counts(join_counts(a, b), c) =~= join_counts(a, join_counts(b, c)));
}

/// A count map joined with itself is itself.
pub proof fn lemma_join_counts_idempotent(a: Map<Seq<char>, u64>)
    ensures
        join_counts(a, a) == a,
{
    assert(join_counts(a, a) =~= a);
}

/// The join of two usage reports is the same whichever comes first.
pub proof fn lemma_join_usage_commutative(a: UsageV, b: UsageV)
    ensures
        join_usage(a, b) == join_usage(b, a),
{
    lemma_join_counts_commutative(a.input_tokens_by_modality, b.input_tokens_by_modality);
    lemma_join_counts_commutative(a.cached_tokens_by_modality, b.cached_tokens_by_modality);
    lemma_join_counts_commutative(a.output_tokens_by_modality, b.output_tokens_by_modality);
    lemma_join_counts_commutative(a.tool_use_tokens_by_modality, b.tool_use_tokens_by_modality);
    lemma_join_counts_commutative(a.grounding_tool_count, b.grounding_tool_count);
}

/// Joining three usage reports does not depend on the grouping.
pub proof fn lemma_join_usage_associative(a: UsageV, b: UsageV, c: UsageV)
    ensures
        join_usage(join_usage(a, b), c) == join_usage(a, join_usage(b, c)),
{
    lemma_join_counts_associative(a.input_tokens_by_modality, b.input_tokens_by_modality, c.input_tokens_by_modality);
    lemma_join_counts_associative(a.cached_tokens_by_modality, b.cached_tokens_by_modality, c.cached_tokens_by_modality);
    lemma_join_counts_associative(a.output_tokens_by_modality, b.output_tokens_by_modality, c.output_tokens_by_modality);
    lemma_join_counts_associative(
        a.tool_use_tokens_by_modality,
        b.tool_use_tokens_by_modality,
        c.tool_use_tokens_by_modality,
    );
    lemma_join_counts_associative(a.grounding_tool_count, b.grounding_tool_count, c.grounding_tool_count);
}

/// A usage report joined with a copy of itself is unchanged.
pub proof fn lemma_join_usage_idempotent(a: UsageV)
    ensures
        join_usage(a, a) == a,
{
    lemma_join_counts_idempotent(a.input_tokens_by_modality);
    lemma_join_counts_idempotent(a.cached_tokens_by_modality);
    lemma_join_counts_idempotent(a.output_tokens_by_modality);
    lemma_join_counts_idempotent(a.tool_use_tokens_by_modality);
    lemma_join_counts_idempotent(a.grounding_tool_count);
}

/// The join is an upper bound of both reports: a later report that omits or
/// lowers a counter cannot erase an earlier one.
pub proof fn lemma_join_usage_upper_bound(a: UsageV, b: UsageV)
    ensures
        usage_le(a, join_usage(a, b)),
        usage_le(b, join_usage(a, b)),
{
}

/// The join is the least upper bound: any report at least both is at least it.
pub proof fn lemma_join_usage_least(a: UsageV, b: UsageV, c: UsageV)
    requires
        usage_le(a, c),
        usage_le(b, c),
    ensures
        usage_le(join_usage(a, b), c),
{
}

/// Joining with nothing changes nothing.
pub proof fn lemma_join_usage_zero(a: UsageV)
    ensures
        join_usage(a, zero_usage()) == a,
{
    assert(join_counts(a.input_tokens_by_modality, Map::empty()) =~= a.input_tokens_by_modality);
    assert(join_counts(a.cached_tokens_by_modality, Map::empty()) =~= a.cached_tokens_by_modality);
    assert(join_counts(a.output_tokens_by_modality, Map::empty()) =~= a.output_tokens_by_modality);
    assert(join_counts(a.tool_use_tokens_by_modality, Map::empty()) =~= a.tool_use_tokens_by_modality);
    assert(join_counts(a.grounding_tool_count, Map::empty()) =~= a.grounding_tool_count);
}

/// Each counter of a decoded usage is read from its own key: the count the
/// key holds, or zero when the key is absent or `null`.
pub proof fn lemma_usage_counters(m: Seq<MemberV>, u: UsageV)
    requires
        usage_of(JsonV::Object(m)) == Some(u),
    ensures
        field_of(m, "total_input_tokens"@) matches Some(JsonV::Number(NumberV::PosInt(n))) ==> u.total_input_tokens == n,
        field_of(m, "total_cached_tokens"@) matches Some(JsonV::Number(NumberV::PosInt(n))) ==> u.total_cached_tokens == n,
        field_of(m, "total_output_tokens"@) matches Some(JsonV::Number(NumberV::PosInt(n))) ==> u.total_output_tokens == n,
        field_of(m, "total_thought_tokens"@) matches Some(JsonV::Number(NumberV::PosInt(n))) ==> u.total_thought_tokens == n,
        field_of(m, "total_tool_use_tokens"@) matches Some(JsonV::Number(NumberV::PosInt(n))) ==> u.total_tool_use_tokens == n,
        field_of(m, "total_tokens"@) matches Some(JsonV::Number(NumberV::PosInt(n))) ==> u.total_tokens == n,
        field_of(m, "total_input_tokens"@) is None || field_of(m, "total_input_tokens"@) == Some(JsonV::Null)
            ==> u.total_input_tokens == 0,
        field_of(m, "total_cached_tokens"@) is None || field_of(m, "total_cached_tokens"@) == Some(JsonV::Null)
            ==> u.total_cached_tokens == 0,
        field_of(m, "total_output_tokens"@) is None || field_of(m, "total_output_tokens"@) == Some(JsonV::Null)
            ==> u.total_output_tokens == 0,
        field_of(m, "total_thought_tokens"@) is None || field_of(m, "total_thought_tokens"@) == Some(JsonV::Null)
            ==> u.total_thought_tokens == 0,
        field_of(m, "total_tool_use_tokens"@) is None || field_of(m, "total_tool_use_tokens"@) == Some(JsonV::Null)
            ==> u.total_tool_use_tokens == 0,
        field_of(m, "total_tokens"@) is None || field_of(m, "total_tokens"@) == Some(JsonV::Null)
            ==> u.total_tokens == 0,
{
}

/// The one member of a one-member object is found under its own key only.
proof fn lemma_field_of_one(k: Seq<char>, v: JsonV)
    ensures
        forall|key: Seq<char>| #[trigger] field_of(seq![field(k, v)], key) == if key == k {
            Some(v)
        } else {
            None::<JsonV>
        },
{
    assert forall|key: Seq<char>| #[trigger] field_of(seq![field(k, v)], key) == if key == k {
        Some(v)
    } else {
        None::<JsonV>
    } by {
        let s = seq![field(k, v)];
        assert(s.drop_first() =~= Seq::<MemberV>::empty());
        assert(find_key(s.drop_first(), key) is None);
        assert(s[0].key == k);
    }
}

/// An object holding one counter decodes, whatever the count, to that count
/// under its own name and nothing else.
pub proof fn lemma_usage_one_counter(n: u64)
    ensures
        usage_of(JsonV::Object(seq![field("total_input_tokens"@, JsonV::Number(NumberV::PosInt(n)))]))
            == Some(UsageV { total_input_tokens: n, ..zero_usage() }),
        usage_of(JsonV::Object(seq![field("total_cached_tokens"@, JsonV::Number(NumberV::PosInt(n)))]))
            == Some(UsageV { total_cached_tokens: n, ..zero_usage() }),
        usage_of(JsonV::Object(seq![field("total_output_tokens"@, JsonV::Number(NumberV::PosInt(n)))]))
            == Some(UsageV { total_output_tokens: n, ..zero_usage() }),
        usage_of(JsonV::Object(seq![field("total_thought_tokens"@, JsonV::Number(NumberV::PosInt(n)))]))
            == Some(UsageV { total_thought_tokens: n, ..zero_usage() }),
        usage_of(JsonV::Object(seq![field("total_tool_use_tokens"@, JsonV::Number(NumberV::PosInt(n)))]))
            == Some(UsageV { total_tool_use_tokens: n, ..zero_usage() }),
        usage_of(JsonV::Object(seq![field("total_tokens"@, JsonV::Number(NumberV::PosInt(n)))]))
            == Some(UsageV { total_tokens: n, ..zero_usage() }),
{
    reveal_strlit("total_input_tokens");
    reveal_strlit("total_cached_tokens");
    reveal_strlit("total_output_tokens");
    reveal_strlit("total_thought_tokens");
    reveal_strlit("total_tool_use_tokens");
    reveal_strlit("total_tokens");
    reveal_strlit("input_tokens_by_modality");
    reveal_strlit("cached_tokens_by_modality");
    reveal_strlit("output_tokens_by_modality");
    reveal_strlit("tool_use_tokens_by_modality");
    reveal_strlit("grounding_tool_count");
    assert(usage_of(JsonV::Object(seq![field("total_input_tokens"@, JsonV::Number(NumberV::PosInt(n)))]))
        == Some(UsageV { total_input_tokens: n, ..zero_usage() })) by {
        lemma_field_of_one("total_input_tokens"@, JsonV::Number(NumberV::PosInt(n)));
        assert("total_input_tokens"@.len() != "total_cached_tokens"@.len());
        assert("total_input_tokens"@.len() != "total_output_tokens"@.len());
        assert("total_input_tokens"@.len() != "total_thought_tokens"@.len());
        assert("total_input_tokens"@.len() != "total_tool_use_tokens"@.len());
        assert("total_input_tokens"@.len() != "total_tokens"@.len());
        assert("total_input_tokens"@.len() != "input_tokens_by_modality"@.len());
        assert("total_input_tokens"@.len() != "cached_tokens_by_modality"@.len());
        assert("total_input_tokens"@.len() != "output_tokens_by_modality"@.len());
        assert("total_input_tokens"@.len() != "tool_use_tokens_by_modality"@.len());
        assert("total_input_tokens"@.len() != "grounding_tool_count"@.len());
    }
    assert(usage_of(JsonV::Object(seq![field("total_cached_tokens"@, JsonV::Number(NumberV::PosInt(n)))]))
        == Some(UsageV { total_cached_tokens: n, ..zero_usage() })) by {
        lemma_field_of_one("total_cached_tokens"@, JsonV::Number(NumberV::PosInt(n)));
        assert("total_cached_tokens"@.len() != "total_input_tokens"@.len());
        assert("total_cached_tokens"@[6] != "total_output_tokens"@[6]);
        assert("total_cached_tokens"@.len() != "total_thought_tokens"@.len());
        assert("total_cached_tokens"@.len() != "total_tool_use_tokens"@.len());
        assert("total_cached_tokens"@.len() != "total_tokens"@.len());
        assert("total_cached_tokens"@.len() != "input_tokens_by_modality"@.len());
        assert("total_cached_tokens"@.len() != "cached_tokens_by_modality"@.len());
        assert("total_cached_tokens"@.len() != "output_tokens_by_modality"@.len());
        assert("total_cached_tokens"@.len() != "tool_use_tokens_by_modality"@.len());
        assert("total_cached_tokens"@.len() != "grounding_tool_count"@.len());
    }
    assert(usage_of(JsonV::Object(seq![field("total_output_tokens"@, JsonV::Number(NumberV::PosInt(n)))]))
        == Some(UsageV { total_output_tokens: n, ..zero_usage() })) by {
        lemma_field_of_one("total_output_tokens"@, JsonV::Number(NumberV::PosInt(n)));
        assert("total_output_tokens"@.len() != "total_input_tokens"@.len());
        assert("total_output_tokens"@[6] != "total_cached_tokens"@[6]);
        assert("total_output_tokens"@.len() != "total_thought_tokens"@.len());
        assert("total_output_tokens"@.len() != "total_tool_use_tokens"@.len());
        assert("total_output_tokens"@.len() != "total_tokens"@.len());
        assert("total_output_tokens"@.len() != "input_tokens_by_modality"@.len());
        assert("total_output_tokens"@.len() != "cached_tokens_by_modality"@.len());
        assert("total_output_tokens"@.len() != "output_tokens_by_modality"@.len());
        assert("total_output_tokens"@.len() != "tool_use_tokens_by_modality"@.len());
        assert("total_output_tokens"@.len() != "grounding_tool_count"@.len());
    }
    assert(usage_of(JsonV::Object(seq![field("total_thought_tokens"@, JsonV::Number(NumberV::PosInt(n)))]))
        == Some(UsageV { total_thought_tokens: n, ..zero_usage() })) by {
        lemma_field_of_one("total_thought_tokens"@, JsonV::Number(NumberV::PosInt(n)));
        assert("total_thought_tokens"@.len() != "total_input_tokens"@.len());
        assert("total_thought_tokens"@.len() != "total_cached_tokens"@.len());
        assert("total_thought_tokens"@.len() != "total_output_tokens"@.len());
        assert("total_thought_tokens"@.len() != "total_tool_use_tokens"@.len());
        assert("total_thought_tokens"@.len() != "total_tokens"@.len());
        assert("total_thought_tokens"@.len() != "input_tokens_by_modality"@.len());
        assert("total_thought_tokens"@.len() != "cached_tokens_by_modality"@.len());
        assert("total_thought_tokens"@.len() != "output_tokens_by_modality"@.len());
        assert("total_thought_tokens"@.len() != "tool_use_tokens_by_modality"@.len());
        assert("total_thought_tokens"@[0] != "grounding_tool_count"@[0]);
    }
    assert(usage_of(JsonV::Object(seq![field("total_tool_use_tokens"@, JsonV::Number(NumberV::PosInt(n)))]))
        == Some(UsageV { total_tool_use_tokens: n, ..zero_usage() })) by {
        lemma_field_of_one("total_tool_use_tokens"@, JsonV::Number(NumberV::PosInt(n)));
        assert("total_tool_use_tokens"@.len() != "total_input_tokens"@.len());
        assert("total_tool_use_tokens"@.len() != "total_cached_tokens"@.len());
        assert("total_tool_use_tokens"@.len() != "total_output_tokens"@.len());
        assert("total_tool_use_tokens"@.len() != "total_thought_tokens"@.len());
        assert("total_tool_use_tokens"@.len() != "total_tokens"@.len());
        assert("total_tool_use_tokens"@.len() != "input_tokens_by_modality"@.len());
        assert("total_tool_use_tokens"@.len() != "cached_tokens_by_modality"@.len());
        assert("total_tool_use_tokens"@.len() != "output_tokens_by_modality"@.len());
        assert("total_tool_use_tokens"@.len() != "tool_use_tokens_by_modality"@.len());
        assert("total_tool_use_tokens"@.len() != "grounding_tool_count"@.len());
    }
    assert(usage_of(JsonV::Object(seq![field("total_tokens"@, JsonV::Number(NumberV::PosInt(n)))]))
        == Some(UsageV { total_tokens: n, ..zero_usage() })) by {
        lemma_field_of_one("total_tokens"@, JsonV::Number(NumberV::PosInt(n)));
        assert("total_tokens"@.len() != "total_input_tokens"@.len());
        assert("total_tokens"@.len() != "total_cached_tokens"@.len());
        assert("total_tokens"@.len() != "total_output_tokens"@.len());
        assert("total_tokens"@.len() != "total_thought_tokens"@.len());
        assert("total_tokens"@.len() != "total_tool_use_tokens"@.len());
        assert("total_tokens"@.len() != "input_tokens_by_modality"@.len());
        assert("total_tokens"@.len() != "cached_tokens_by_modality"@.len());
        assert("total_tokens"@.len() != "output_tokens_by_modality"@.len());
        assert("total_tokens"@.len() != "tool_use_tokens_by_modality"@.len());
        assert("total_tokens"@.len() != "grounding_tool_count"@.len());
    }
}

} // verus!
