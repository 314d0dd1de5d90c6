//! The SmolFS module's namespace of the keyed transactional store: the
//! entries by owner key, the record of entries agreed in consensus, and the
//! outcomes by output point.

use vstd::prelude::*;

use crate::key_order::{
    compare_keys, key_lt, lemma_key_lt_asymmetric, lemma_key_lt_irreflexive,
    lemma_key_lt_transitive, KeyOrder,
};
use crate::ledger::OutPoint;
use crate::smolfs::{EntryView, SmolFSEntry, SmolFSOutputOutcome};

verus! {

/// Keys strictly ascend along the sequence.
pub open spec fn keys_ascending(s: Seq<EntryView>) -> bool {
    forall|i: int, j: int| 0 <= i < j < s.len() ==> key_lt(#[trigger] s[i].0, #[trigger] s[j].0)
}

/// Some element of the sequence has key `k`.
pub open spec fn has_key(s: Seq<EntryView>, k: Seq<char>) -> bool {
    exists|i: int| 0 <= i < s.len() && #[trigger] s[i].0 == k
}

/// A position of the sequence that holds key `k`, where there is one.
pub open spec fn key_index(s: Seq<EntryView>, k: Seq<char>) -> int {
    choose|i: int| 0 <= i < s.len() && #[trigger] s[i].0 == k
}

/// The map from key to payload that a sequence with distinct keys stands for.
pub open spec fn table_view(s: Seq<EntryView>) -> Map<Seq<char>, Seq<char>> {
    Map::new(|k: Seq<char>| has_key(s, k), |k: Seq<char>| s[key_index(s, k)].1)
}

pub proof fn lemma_table_view_at(s: Seq<EntryView>, i: int)
    requires
        keys_ascending(s),
        0 <= i < s.len(),
    ensures
        table_view(s).contains_key(s[i].0),
        table_view(s)[s[i].0] == s[i].1,
{
    let k = s[i].0;
    assert(has_key(s, k));
    let j = key_index(s, k);
    if j < i {
        assert(key_lt(s[j].0, s[i].0));
        lemma_key_lt_irreflexive(k);
    } else if i < j {
        assert(key_lt(s[i].0, s[j].0));
        lemma_key_lt_irreflexive(k);
    }
    assert(table_view(s)[k] == s[j].1);
}

/// Dropping the first element of an ascending sequence drops its key.
pub proof fn lemma_table_view_drop_first(s: Seq<EntryView>)
    requires
        keys_ascending(s),
        s.len() > 0,
    ensures
        keys_ascending(s.drop_first()),
        table_view(s.drop_first()) == table_view(s).remove(s[0].0),
{
    let t = s.drop_first();
    assert(keys_ascending(t)) by {
        assert forall|a: int, b: int| 0 <= a < b < t.len() implies key_lt(
            #[trigger] t[a].0,
            #[trigger] t[b].0,
        ) by {
            assert(t[a] == s[a + 1] && t[b] == s[b + 1]);
        }
    }
    assert forall|q: Seq<char>| has_key(t, q) == (has_key(s, q) && q != s[0].0) by {
        if has_key(t, q) {
            let j = key_index(t, q);
            assert(s[j + 1].0 == q);
            assert(key_lt(s[0].0, s[j + 1].0));
            lemma_key_lt_irreflexive(q);
        }
        if has_key(s, q) && q != s[0].0 {
            let i = key_index(s, q);
            assert(t[i - 1].0 == q);
        }
    }
    assert forall|q: Seq<char>| #[trigger] table_view(t).contains_key(q) implies table_view(t)[q]
        == table_view(s)[q] by {
        let j = key_index(t, q);
        lemma_table_view_at(t, j);
        lemma_table_view_at(s, j + 1);
        assert(t[j] == s[j + 1]);
    }
    assert(table_view(t) =~= table_view(s).remove(s[0].0));
}

/// Two ascending sequences that stand for the same map are the same.
pub proof fn lemma_ascending_determined(s1: Seq<EntryView>, s2: Seq<EntryView>)
    requires
        keys_ascending(s1),
        keys_ascending(s2),
        table_view(s1) == table_view(s2),
    ensures
        s1 == s2,
    decreases s1.len(),
{
    if s1.len() == 0 || s2.len() == 0 {
        if s1.len() > 0 {
            lemma_table_view_at(s1, 0);
        }
        if s2.len() > 0 {
            lemma_table_view_at(s2, 0);
        }
        assert(s1 =~= s2);
    } else {
        let a = s1[0].0;
        let b = s2[0].0;
        lemma_table_view_at(s1, 0);
        lemma_table_view_at(s2, 0);
        if a != b {
            let j = key_index(s2, a);
            let i = key_index(s1, b);
            assert(j != 0 && i != 0);
            assert(key_lt(s2[0].0, s2[j].0));
            assert(key_lt(s1[0].0, s1[i].0));
            lemma_key_lt_asymmetric(a, b);
        }
        assert(s1[0] == s2[0]);
        lemma_table_view_drop_first(s1);
        lemma_table_view_drop_first(s2);
        lemma_ascending_determined(s1.drop_first(), s2.drop_first());
        assert(s1 =~= s2) by {
            assert forall|k: int| 0 <= k < s1.len() implies s1[k] == s2[k] by {
                if k > 0 {
                    assert(s1[k] == s1.drop_first()[k - 1]);
                    assert(s2[k] == s2.drop_first()[k - 1]);
                }
            }
        }
    }
}

/// Entries kept in strictly ascending order of owner key.
pub struct EntryTable {
    items: Vec<SmolFSEntry>,
}

impl EntryTable {
    /// The entries, in ascending key order.
    pub closed spec fn seq(&self) -> Seq<EntryView> {
        self.items@.map_values(|e: SmolFSEntry| e@)
    }

    pub open spec fn wf(&self) -> bool {
        keys_ascending(self.seq())
    }

    /// Payload by owner key.
    pub open spec fn map(&self) -> Map<Seq<char>, Seq<char>> {
        table_view(self.seq())
    }

    pub fn new() -> (t: EntryTable)
        ensures
            t.wf(),
            t.seq() == Seq::<EntryView>::empty(),
            t.map() == Map::<Seq<char>, Seq<char>>::empty(),
    {
        let t = EntryTable { items: Vec::new() };
        assert(t.seq() =~= Seq::<EntryView>::empty());
        assert(t.map() =~= Map::<Seq<char>, Seq<char>>::empty());
        t
    }

    pub fn len(&self) -> (r: usize)
        ensures
            r == self.seq().len(),
    {
        self.items.len()
    }

    pub fn entry_at(&self, i: usize) -> (r: &SmolFSEntry)
        requires
            i < self.seq().len(),
        ensures
            r@ == self.seq()[i as int],
    {
        &self.items[i]
    }

    /// The first position whose key does not come before `key`, and whether
    /// the key there is `key`.
    fn position(&self, key: &String) -> (r: (usize, bool))
        requires
            self.wf(),
        ensures
            r.0 <= self.seq().len(),
            forall|j: int| 0 <= j < r.0 ==> key_lt(#[trigger] self.seq()[j].0, key@),
            r.1 ==> r.0 < self.seq().len() && self.seq()[r.0 as int].0 == key@,
            !r.1 && r.0 < self.seq().len() ==> key_lt(key@, self.seq()[r.0 as int].0),
    {
        let n = self.items.len();
        let mut i: usize = 0;
        while i < n
            invariant
                n == self.seq().len(),
                i <= n,
                forall|j: int| 0 <= j < i ==> key_lt(#[trigger] self.seq()[j].0, key@),
            decreases n - i,
        {
            let c = compare_keys(&self.items[i].pubkey, key);
            assert(self.seq()[i as int] == self.items@[i as int]@);
            match c {
                KeyOrder::Less => {},
                KeyOrder::Equal => {
                    return (i, true);
                },
                KeyOrder::Greater => {
                    return (i, false);
                },
            }
            i = i + 1;
        }
        (i, false)
    }

    /// The payload stored under `key`.
    pub fn get(&self, key: &String) -> (r: Option<String>)
        requires
            self.wf(),
        ensures
            r is Some <==> self.map().contains_key(key@),
            r is Some ==> r->0@ == self.map()[key@],
    {
        let (i, found) = self.position(key);
        if found {
            proof {
                lemma_table_view_at(self.seq(), i as int);
            }
            assert(self.seq()[i as int] == self.items@[i as int]@);
            Some(self.items[i].backup.clone())
        } else {
            assert(!has_key(self.seq(), key@)) by {
                if has_key(self.seq(), key@) {
                    let j = key_index(self.seq(), key@);
                    if j < i {
                        assert(key_lt(self.seq()[j].0, key@));
                    } else if j > i {
                        assert(key_lt(self.seq()[i as int].0, self.seq()[j].0));
                        lemma_key_lt_transitive(key@, self.seq()[i as int].0, key@);
                    }
                    lemma_key_lt_irreflexive(key@);
                }
            }
            None
        }
    }

    /// Stores `entry`, replacing what its key held; returns what it held.
    pub fn upsert(&mut self, entry: SmolFSEntry) -> (r: Option<String>)
        requires
            old(self).wf(),
        ensures
            final(self).wf(),
            final(self).map() == old(self).map().insert(entry.pubkey@, entry.backup@),
            r is Some <==> old(self).map().contains_key(entry.pubkey@),
            r is Some ==> r->0@ == old(self).map()[entry.pubkey@],
    {
        let ghost s = self.seq();
        let ghost k = entry.pubkey@;
        let ghost v = entry.backup@;
        let (i, found) = self.position(&entry.pubkey);
        if found {
            let mut e = entry;
            self.items.set_and_swap(i, &mut e);
            let ghost t = self.seq();
            proof {
                lemma_table_view_at(s, i as int);
                assert(t =~= s.update(i as int, (k, v)));
                assert(keys_ascending(t)) by {
                    assert forall|a: int, b: int| 0 <= a < b < t.len() implies key_lt(
                        #[trigger] t[a].0,
                        #[trigger] t[b].0,
                    ) by {
                        assert(t[a].0 == s[a].0 && t[b].0 == s[b].0);
                    }
                }
                assert(table_view(t) =~= table_view(s).insert(k, v)) by {
                    assert forall|q: Seq<char>| has_key(t, q) == (has_key(s, q) || q == k) by {
                        if has_key(t, q) {
                            let j = choose|j: int| 0 <= j < t.len() && #[trigger] t[j].0 == q;
                            assert(s[j].0 == q);
                        }
                        if has_key(s, q) {
                            let j = choose|j: int| 0 <= j < s.len() && #[trigger] s[j].0 == q;
                            assert(t[j].0 == q);
                        }
                        if q == k {
                            assert(t[i as int].0 == q);
                        }
                    }
                    assert forall|q: Seq<char>| #[trigger] table_view(t).contains_key(q) implies table_view(t)[q] == table_view(s).insert(k, v)[q] by {
                        let j = choose|j: int| 0 <= j < t.len() && #[trigger] t[j].0 == q;
                        lemma_table_view_at(t, j);
                        lemma_table_view_at(s, j);
                        if j != i {
                            assert(s[j] == t[j]);
                            if j < i {
                                assert(key_lt(s[j].0, s[i as int].0));
                            } else {
                                assert(key_lt(s[i as int].0, s[j].0));
                            }
                            lemma_key_lt_irreflexive(k);
                            assert(q != k);
                        }
                    }
                }
            }
            Some(e.backup)
        } else {
            self.items.insert(i, entry);
            let ghost t = self.seq();
            proof {
                assert(t =~= s.insert(i as int, (k, v)));
                assert(keys_ascending(t)) by {
                    assert forall|a: int, b: int| 0 <= a < b < t.len() implies key_lt(
                        #[trigger] t[a].0,
                        #[trigger] t[b].0,
                    ) by {
                        if b < i {
                        } else if b == i {
                        } else if a < i {
                            assert(t[b] == s[b - 1]);
                        } else if a == i {
                            assert(t[b] == s[b - 1]);
                            if b - 1 > i {
                                lemma_key_lt_transitive(k, s[i as int].0, s[b - 1].0);
                            }
                        } else {
                            assert(t[a] == s[a - 1]);
                            assert(t[b] == s[b - 1]);
                        }
                    }
                }
                assert(!has_key(s, k)) by {
                    if has_key(s, k) {
                        let j = choose|j: int| 0 <= j < s.len() && #[trigger] s[j].0 == k;
                        if j < i {
                            lemma_key_lt_irreflexive(k);
                        } else {
                            if j > i {
                                lemma_key_lt_transitive(k, s[i as int].0, k);
                            }
                            lemma_key_lt_irreflexive(k);
                        }
                    }
                }
                assert(table_view(t) =~= table_view(s).insert(k, v)) by {
                    assert forall|q: Seq<char>| has_key(t, q) == (has_key(s, q) || q == k) by {
                        if has_key(t, q) {
                            let j = choose|j: int| 0 <= j < t.len() && #[trigger] t[j].0 == q;
                            if j < i {
                                assert(s[j].0 == q);
                            } else if j > i {
                                assert(s[j - 1].0 == q);
                            }
                        }
                        if has_key(s, q) {
                            let j = choose|j: int| 0 <= j < s.len() && #[trigger] s[j].0 == q;
                            if j < i {
                                assert(t[j].0 == q);
                            } else {
                                assert(t[j + 1].0 == q);
                            }
                        }
                        if q == k {
                            assert(t[i as int].0 == q);
                        }
                    }
                    assert forall|q: Seq<char>| #[trigger] table_view(t).contains_key(q) implies table_view(t)[q] == table_view(s).insert(k, v)[q] by {
                        let j = choose|j: int| 0 <= j < t.len() && #[trigger] t[j].0 == q;
                        lemma_table_view_at(t, j);
                        if j < i {
                            lemma_table_view_at(s, j);
                        } else if j > i {
                            lemma_table_view_at(s, j - 1);
                        }
                    }
                }
            }
            None
        }
    }
}

/// The namespaces of the module's keys in the store.
#[derive(Clone, Copy, Debug, PartialEq, Eq, Hash)]
pub enum DbKeyPrefix {
    Example,
    SmolFSOutPoint,
}

impl DbKeyPrefix {
    /// The byte that starts every key of this namespace.
    pub fn prefix_byte(&self) -> (r: u8)
        ensures
            r == (match *self {
                DbKeyPrefix::Example => 0x80u8,
                DbKeyPrefix::SmolFSOutPoint => 0x81u8,
            }),
    {
        match self {
            DbKeyPrefix::Example => 0x80,
            DbKeyPrefix::SmolFSOutPoint => 0x81,
        }
    }
}

/// The key of an entry: its owner key.
#[derive(Clone, Debug, PartialEq, Eq, Hash)]
pub struct ExampleKey(pub String);

/// The namespace of all entries.
#[derive(Clone, Copy, Debug)]
pub struct ExampleKeyPrefix;

/// The key of an outcome: its output point.
#[derive(Clone, Copy, Debug, PartialEq, Eq, Hash)]
pub struct FinishedSmolFSEntry(pub OutPoint);

/// The namespace of all outcomes.
#[derive(Clone, Copy, Debug)]
pub struct FinishedSmolFSEntryPrefix;

/// A record of the outcome table: an output point and what became of it.
pub type OutcomeRecord = (OutPoint, SmolFSOutputOutcome);

/// Some record of the sequence is for output point `p`.
pub open spec fn has_point(s: Seq<OutcomeRecord>, p: OutPoint) -> bool {
    exists|i: int| 0 <= i < s.len() && #[trigger] s[i].0 == p
}

/// A position of the sequence that holds output point `p`, where there is one.
pub open spec fn point_index(s: Seq<OutcomeRecord>, p: OutPoint) -> int {
    choose|i: int| 0 <= i < s.len() && #[trigger] s[i].0 == p
}

/// No output point has two records.
pub open spec fn points_distinct(s: Seq<OutcomeRecord>) -> bool {
    forall|i: int, j: int|
        0 <= i < s.len() && 0 <= j < s.len() && i != j ==> #[trigger] s[i].0 != #[trigger] s[j].0
}

/// The map from output point to outcome that a sequence of records stands for.
pub open spec fn outcome_view(s: Seq<OutcomeRecord>) -> Map<OutPoint, SmolFSOutputOutcome> {
    Map::new(|p: OutPoint| has_point(s, p), |p: OutPoint| s[point_index(s, p)].1)
}

pub proof fn lemma_outcome_view_at(s: Seq<OutcomeRecord>, i: int)
    requires
        points_distinct(s),
        0 <= i < s.len(),
    ensures
        outcome_view(s).contains_key(s[i].0),
        outcome_view(s)[s[i].0] == s[i].1,
{
    assert(has_point(s, s[i].0));
    let j = point_index(s, s[i].0);
    assert(s[j].0 == s[i].0);
}

/// Outcomes keyed by output point, each point at most once.
pub struct OutcomeTable {
    records: Vec<(FinishedSmolFSEntry, SmolFSOutputOutcome)>,
}

impl OutcomeTable {
    pub closed spec fn seq(&self) -> Seq<OutcomeRecord> {
        self.records@.map_values(|r: (FinishedSmolFSEntry, SmolFSOutputOutcome)| (r.0.0, r.1))
    }

    pub open spec fn wf(&self) -> bool {
        points_distinct(self.seq())
    }

    pub open spec fn map(&self) -> Map<OutPoint, SmolFSOutputOutcome> {
        outcome_view(self.seq())
    }

    pub fn new() -> (t: OutcomeTable)
        ensures
            t.wf(),
            t.map() == Map::<OutPoint, SmolFSOutputOutcome>::empty(),
    {
        let t = OutcomeTable { records: Vec::new() };
        assert(t.seq() =~= Seq::<OutcomeRecord>::empty());
        assert(t.map() =~= Map::<OutPoint, SmolFSOutputOutcome>::empty());
        t
    }

    /// The position of the record for `point`, if there is one.
    fn find(&self, point: &OutPoint) -> (r: Option<usize>)
        requires
            self.wf(),
        ensures
            r is Some ==> r->0 < self.seq().len() && self.seq()[r->0 as int].0 == *point,
            r is None ==> !has_point(self.seq(), *point),
    {
        let n = self.records.len();
        let mut i: usize = 0;
        while i < n
            invariant
                n == self.seq().len(),
                i <= n,
                forall|j: int| 0 <= j < i ==> #[trigger] self.seq()[j].0 != *point,
            decreases n - i,
        {
            assert(self.seq()[i as int].0 == self.records@[i as int].0.0);
            if self.records[i].0.0.same_as(point) {
                return Some(i);
            }
            i = i + 1;
        }
        None
    }

    /// The outcome recorded for `point`.
    pub fn get(&self, point: &OutPoint) -> (r: Option<SmolFSOutputOutcome>)
        requires
            self.wf(),
        ensures
            r == (if self.map().contains_key(*point) {
                Some(self.map()[*point])
            } else {
                None
            }),
    {
        match self.find(point) {
            Some(i) => {
                proof {
                    lemma_outcome_view_at(self.seq(), i as int);
                }
                assert(self.seq()[i as int].1 == self.records@[i as int].1);
                Some(self.records[i].1)
            },
            None => None,
        }
    }

    /// Records `outcome` for `point`, replacing what was recorded there.
    pub fn upsert(&mut self, point: OutPoint, outcome: SmolFSOutputOutcome)
        requires
            old(self).wf(),
        ensures
            final(self).wf(),
            final(self).map() == old(self).map().insert(point, outcome),
    {
        let ghost s = self.seq();
        match self.find(&point) {
            Some(i) => {
                self.records.set(i, (FinishedSmolFSEntry(point), outcome));
                let ghost t = self.seq();
                proof {
                    assert(t =~= s.update(i as int, (point, outcome)));
                    assert(outcome_view(t) =~= outcome_view(s).insert(point, outcome)) by {
                        assert forall|q: OutPoint| has_point(t, q) == (has_point(s, q) || q == point) by {
                            if has_point(t, q) {
                                assert(s[point_index(t, q)].0 == q);
                            }
                            if has_point(s, q) {
                                assert(t[point_index(s, q)].0 == q);
                            }
                            if q == point {
                                assert(t[i as int].0 == q);
                            }
                        }
                        assert forall|q: OutPoint| #[trigger] outcome_view(t).contains_key(q) implies outcome_view(t)[q] == outcome_view(s).insert(point, outcome)[q] by {
                            let j = point_index(t, q);
                            lemma_outcome_view_at(t, j);
                            if j != i {
                                lemma_outcome_view_at(s, j);
                            }
                        }
                    }
                }
            },
            None => {
                self.records.push((FinishedSmolFSEntry(point), outcome));
                let ghost t = self.seq();
                proof {
                    assert(t =~= s.push((point, outcome)));
                    assert(outcome_view(t) =~= outcome_view(s).insert(point, outcome)) by {
                        assert forall|q: OutPoint| has_point(t, q) == (has_point(s, q) || q == point) by {
                            if has_point(t, q) {
                                let j = point_index(t, q);
                                if j < s.len() {
                                    assert(s[j].0 == q);
                                }
                            }
                            if has_point(s, q) {
                                assert(t[point_index(s, q)].0 == q);
                            }
                            if q == point {
                                assert(t[s.len() as int].0 == q);
                            }
                        }
                        assert forall|q: OutPoint| #[trigger] outcome_view(t).contains_key(q) implies outcome_view(t)[q] == outcome_view(s).insert(point, outcome)[q] by {
                            let j = point_index(t, q);
                            lemma_outcome_view_at(t, j);
                            if j < s.len() {
                                lemma_outcome_view_at(s, j);
                            }
                        }
                    }
                }
            },
        }
    }
}

/// An entry the agreed consensus record already holds, with the same payload.
pub open spec fn is_resolved(agreed: Map<Seq<char>, Seq<char>>, e: EntryView) -> bool {
    agreed.contains_key(e.0) && agreed[e.0] == e.1
}

/// The entries of `entries` (in their order) that the agreed record does not
/// yet reflect.
pub open spec fn unresolved(entries: Seq<EntryView>, agreed: Map<Seq<char>, Seq<char>>) -> Seq<
    EntryView,
> {
    entries.filter(|e: EntryView| !is_resolved(agreed, e))
}

/// The entries the agreed record does not yet reflect, as a map.
pub open spec fn unresolved_map(
    entries: Map<Seq<char>, Seq<char>>,
    agreed: Map<Seq<char>, Seq<char>>,
) -> Map<Seq<char>, Seq<char>> {
    Map::new(
        |k: Seq<char>| entries.contains_key(k) && !is_resolved(agreed, (k, entries[k])),
        |k: Seq<char>| entries[k],
    )
}

/// Filtering an ascending sequence of entries filters the map it stands for.
pub proof fn lemma_unresolved_view(s: Seq<EntryView>, agreed: Map<Seq<char>, Seq<char>>)
    requires
        keys_ascending(s),
        keys_ascending(unresolved(s, agreed)),
    ensures
        table_view(unresolved(s, agreed)) == unresolved_map(table_view(s), agreed),
        unresolved(s, agreed).len() == 0 <==> unresolved_map(table_view(s), agreed)
            == Map::<Seq<char>, Seq<char>>::empty(),
{
    let pred = |e: EntryView| !is_resolved(agreed, e);
    let f = unresolved(s, agreed);
    assert forall|i: int| 0 <= i < f.len() implies pred(#[trigger] f[i]) by {
        s.lemma_filter_pred(pred, i);
    }
    let u = unresolved_map(table_view(s), agreed);
    assert forall|q: Seq<char>| has_key(f, q) == u.contains_key(q) by {
        if has_key(f, q) {
            let j = key_index(f, q);
            assert(f.contains(f[j]));
            s.lemma_filter_contains_rev(pred, f[j]);
            let i = choose|i: int| 0 <= i < s.len() && s[i] == f[j];
            lemma_table_view_at(s, i);
            assert(pred(f[j]));
        }
        if u.contains_key(q) {
            let i = key_index(s, q);
            lemma_table_view_at(s, i);
            assert(pred(s[i]));
            s.lemma_filter_contains(pred, i);
            assert(f.contains(s[i]));
            let j = choose|j: int| 0 <= j < f.len() && f[j] == s[i];
            assert(f[j].0 == q);
        }
    }
    assert forall|q: Seq<char>| #[trigger] table_view(f).contains_key(q) implies table_view(f)[q]
        == u[q] by {
        let j = key_index(f, q);
        lemma_table_view_at(f, j);
        assert(f.contains(f[j]));
        s.lemma_filter_contains_rev(pred, f[j]);
        let i = choose|i: int| 0 <= i < s.len() && s[i] == f[j];
        lemma_table_view_at(s, i);
    }
    assert(table_view(f) =~= u);
    if f.len() > 0 {
        lemma_table_view_at(f, 0);
    } else {
        assert(table_view(f) =~= Map::<Seq<char>, Seq<char>>::empty());
    }
}

/// The SmolFS module's namespace of the store: entries by owner key, the
/// entries agreed in consensus, and the outcome of each applied output.
pub struct SmolFSDb {
    entries: EntryTable,
    agreed: EntryTable,
    outcomes: OutcomeTable,
}

impl SmolFSDb {
    pub closed spec fn wf(&self) -> bool {
        self.entries.wf() && self.agreed.wf() && self.outcomes.wf()
    }

    /// The entries in ascending order of owner key.
    pub closed spec fn entry_seq(&self) -> Seq<EntryView> {
        self.entries.seq()
    }

    /// Payload by owner key.
    pub closed spec fn entries(&self) -> Map<Seq<char>, Seq<char>> {
        self.entries.map()
    }

    /// The agreed consensus record: payload by owner key.
    pub closed spec fn agreed(&self) -> Map<Seq<char>, Seq<char>> {
        self.agreed.map()
    }

    /// Outcome by output point.
    pub closed spec fn outcomes(&self) -> Map<OutPoint, SmolFSOutputOutcome> {
        self.outcomes.map()
    }

    /// `entry_seq` holds exactly the entries, in ascending key order.
    pub proof fn lemma_entry_seq(&self)
        requires
            self.wf(),
        ensures
            keys_ascending(self.entry_seq()),
            self.entries() == table_view(self.entry_seq()),
    {
    }

    /// An empty namespace.
    pub fn new() -> (db: SmolFSDb)
        ensures
            db.wf(),
            db.entry_seq() == Seq::<EntryView>::empty(),
            db.entries() == Map::<Seq<char>, Seq<char>>::empty(),
            db.agreed() == Map::<Seq<char>, Seq<char>>::empty(),
            db.outcomes() == Map::<OutPoint, SmolFSOutputOutcome>::empty(),
    {
        SmolFSDb { entries: EntryTable::new(), agreed: EntryTable::new(), outcomes: OutcomeTable::new() }
    }

    /// The payload stored under `key`.
    pub fn get_entry(&self, key: &String) -> (r: Option<String>)
        requires
            self.wf(),
        ensures
            r is Some <==> self.entries().contains_key(key@),
            r is Some ==> r->0@ == self.entries()[key@],
    {
        self.entries.get(key)
    }

    /// Stores `entry` under its owner key, replacing what the key held.
    pub fn upsert_entry(&mut self, entry: SmolFSEntry) -> (r: Option<String>)
        requires
            old(self).wf(),
        ensures
            final(self).wf(),
            final(self).entries() == old(self).entries().insert(entry.pubkey@, entry.backup@),
            final(self).agreed() == old(self).agreed(),
            final(self).outcomes() == old(self).outcomes(),
            r is Some <==> old(self).entries().contains_key(entry.pubkey@),
            r is Some ==> r->0@ == old(self).entries()[entry.pubkey@],
    {
        self.entries.upsert(entry)
    }

    /// Stores an agreed entry both as an entry and in the agreed record.
    pub fn record_agreed(&mut self, entry: SmolFSEntry)
        requires
            old(self).wf(),
        ensures
            final(self).wf(),
            final(self).entries() == old(self).entries().insert(entry.pubkey@, entry.backup@),
            final(self).agreed() == old(self).agreed().insert(entry.pubkey@, entry.backup@),
            final(self).outcomes() == old(self).outcomes(),
    {
        let copy = entry.duplicate();
        self.entries.upsert(entry);
        self.agreed.upsert(copy);
    }

    /// The outcome recorded for `point`.
    pub fn get_outcome(&self, point: &OutPoint) -> (r: Option<SmolFSOutputOutcome>)
        requires
            self.wf(),
        ensures
            r == (if self.outcomes().contains_key(*point) {
                Some(self.outcomes()[*point])
            } else {
                None
            }),
    {
        self.outcomes.get(point)
    }

    /// Records `outcome` for `point`, replacing what was recorded there.
    pub fn upsert_outcome(&mut self, point: OutPoint, outcome: SmolFSOutputOutcome)
        requires
            old(self).wf(),
        ensures
            final(self).wf(),
            final(self).entries() == old(self).entries(),
            final(self).entry_seq() == old(self).entry_seq(),
            final(self).agreed() == old(self).agreed(),
            final(self).outcomes() == old(self).outcomes().insert(point, outcome),
    {
        self.outcomes.upsert(point, outcome)
    }

    /// The entries the agreed record does not reflect, in ascending key order.
    pub fn unresolved_entries(&self) -> (r: Vec<SmolFSEntry>)
        requires
            self.wf(),
        ensures
            r@.map_values(|e: SmolFSEntry| e@) == unresolved(self.entry_seq(), self.agreed()),
            keys_ascending(r@.map_values(|e: SmolFSEntry| e@)),
            table_view(r@.map_values(|e: SmolFSEntry| e@)) == unresolved_map(
                self.entries(),
                self.agreed(),
            ),
            r@.len() == 0 <==> unresolved_map(self.entries(), self.agreed()) == Map::<
                Seq<char>,
                Seq<char>,
            >::empty(),
    {
        let ghost s = self.entry_seq();
        let ghost pred = |e: EntryView| !is_resolved(self.agreed(), e);
        let n = self.entries.len();
        let mut out: Vec<SmolFSEntry> = Vec::new();
        let mut i: usize = 0;
        assert(s.subrange(0, 0).filter(pred) =~= Seq::<EntryView>::empty()) by {
            reveal(Seq::filter);
        }
        while i < n
            invariant
                self.wf(),
                s == self.entry_seq(),
                pred == (|e: EntryView| !is_resolved(self.agreed(), e)),
                n == s.len(),
                i <= n,
                out@.map_values(|e: SmolFSEntry| e@) == s.subrange(0, i as int).filter(pred),
                keys_ascending(out@.map_values(|e: SmolFSEntry| e@)),
                forall|m: int, j: int|
                    0 <= m < out@.len() && i <= j < n ==> key_lt(
                        #[trigger] out@[m]@.0,
                        #[trigger] s[j].0,
                    ),
            decreases n - i,
        {
            let e = self.entries.entry_at(i);
            let resolved = match self.agreed.get(&e.pubkey) {
                Some(v) => v == e.backup,
                None => false,
            };
            let ghost before = out@;
            if !resolved {
                out.push(e.duplicate());
            }
            proof {
                let ghost i1 = (i + 1) as int;
                assert(s.subrange(0, i1).drop_last() =~= s.subrange(0, i as int));
                assert(s.subrange(0, i1).last() == s[i as int]);
                reveal(Seq::filter);
                assert(pred(s[i as int]) == !resolved);
                if !resolved {
                    assert(out@.map_values(|e: SmolFSEntry| e@) =~= before.map_values(
                        |e: SmolFSEntry| e@,
                    ).push(s[i as int]));
                } else {
                    assert(out@.map_values(|e: SmolFSEntry| e@) =~= before.map_values(
                        |e: SmolFSEntry| e@,
                    ));
                }
                assert forall|m: int, j: int|
                    0 <= m < out@.len() && i1 <= j < n implies key_lt(
                    #[trigger] out@[m]@.0,
                    #[trigger] s[j].0,
                ) by {
                    if m < before.len() {
                        assert(out@[m] == before[m]);
                    } else {
                        assert(out@[m]@ == s[i as int]);
                    }
                }
                let ov = out@.map_values(|e: SmolFSEntry| e@);
                assert forall|a: int, b: int| 0 <= a < b < ov.len() implies key_lt(
                    #[trigger] ov[a].0,
                    #[trigger] ov[b].0,
                ) by {
                    if b >= before.len() {
                        assert(out@[a] == before[a]);
                        assert(key_lt(before[a]@.0, s[i as int].0));
                    } else {
                        assert(ov[a] == before.map_values(|e: SmolFSEntry| e@)[a]);
                        assert(ov[b] == before.map_values(|e: SmolFSEntry| e@)[b]);
                    }
                }
            }
            i = i + 1;
        }
        assert(s.subrange(0, n as int) =~= s);
        proof {
            lemma_unresolved_view(s, self.agreed());
        }
        out
    }
}

} // verus!
