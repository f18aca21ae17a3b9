//! The per-agent key/value property store (blackboard) read by conditions and
//! mutated by effects. Keys are case-sensitive strings; missing keys are a
//! normal state, not a fault.

use vstd::prelude::*;

use crate::value::Value;
use crate::value::ValueModel;

verus! {

/// One key/value pair of a property store.
struct PropEntry {
    key: String,
    value: Value,
}

/// A typed key/value store, the blackboard read by conditions and written by
/// effects. Two instances exist per agent: the live store mutated during
/// execution, and snapshot clones used for planning, so speculative effects
/// never perturb live state.
pub struct Props {
    entries: Vec<PropEntry>,
}

/// The map denoted by a sequence of key/value entries, later entries taking
/// precedence.
spec fn entries_map(s: Seq<PropEntry>) -> Map<Seq<char>, ValueModel>
    decreases s.len(),
{
    if s.len() == 0 {
        Map::empty()
    } else {
        entries_map(s.drop_last()).insert(s.last().key@, s.last().value@)
    }
}

impl View for Props {
    type V = Map<Seq<char>, ValueModel>;

    closed spec fn view(&self) -> Map<Seq<char>, ValueModel> {
        entries_map(self.entries@)
    }
}

/// No two entries share a key.
spec fn unique_keys(s: Seq<PropEntry>) -> bool {
    forall|i: int, j: int| 0 <= i < j < s.len() ==> s[i].key@ != s[j].key@
}

proof fn lemma_entries_map_domain(s: Seq<PropEntry>)
    ensures
        forall|k: Seq<char>|
            entries_map(s).contains_key(k) <==> exists|i: int| 0 <= i < s.len() && s[i].key@ == k,
    decreases s.len(),
{
    if s.len() > 0 {
        lemma_entries_map_domain(s.drop_last());
        assert forall|k: Seq<char>| entries_map(s).contains_key(k) implies exists|i: int|
            0 <= i < s.len() && s[i].key@ == k by {
            if s.last().key@ == k {
                assert(s[s.len() - 1].key@ == k);
            } else {
                assert(entries_map(s.drop_last()).contains_key(k));
                let i = choose|i: int| 0 <= i < s.drop_last().len() && s.drop_last()[i].key@ == k;
                assert(s.drop_last()[i] == s[i]);
                assert(s[i].key@ == k);
            }
        }
        assert forall|k: Seq<char>|
            (exists|i: int| 0 <= i < s.len() && s[i].key@ == k) implies entries_map(
            s,
        ).contains_key(k) by {
            let i = choose|i: int| 0 <= i < s.len() && s[i].key@ == k;
            if i < s.len() - 1 {
                assert(s.drop_last()[i] == s[i]);
                assert(exists|j: int| 0 <= j < s.drop_last().len() && s.drop_last()[j].key@ == k);
                assert(entries_map(s.drop_last()).contains_key(k));
            }
        }
    }
}

proof fn lemma_entries_map_index(s: Seq<PropEntry>, i: int)
    requires
        unique_keys(s),
        0 <= i < s.len(),
    ensures
        entries_map(s).contains_key(s[i].key@),
        entries_map(s)[s[i].key@] == s[i].value@,
    decreases s.len(),
{
    lemma_entries_map_domain(s);
    if i < s.len() - 1 {
        assert(s.last().key@ != s[i].key@);
        assert(s.drop_last()[i] == s[i]);
        lemma_entries_map_index(s.drop_last(), i);
    }
}

proof fn lemma_entries_map_update(s: Seq<PropEntry>, i: int, e: PropEntry)
    requires
        unique_keys(s),
        0 <= i < s.len(),
        e.key@ == s[i].key@,
    ensures
        entries_map(s.update(i, e)) =~= entries_map(s).insert(e.key@, e.value@),
    decreases s.len(),
{
    let t = s.update(i, e);
    if i == s.len() - 1 {
        assert(t.drop_last() =~= s.drop_last());
        assert(t.last() == e);
    } else {
        lemma_entries_map_update(s.drop_last(), i, e);
        assert(t.drop_last() =~= s.drop_last().update(i, e));
        assert(t.last() == s.last());
        assert(s.last().key@ != e.key@);
    }
}

impl Props {
    /// The store's structural invariant: every key appears at most once.
    pub closed spec fn wf(&self) -> bool {
        unique_keys(self.entries@)
    }

    /// Creates an empty property store.
    pub fn new() -> (r: Self)
        ensures
            r.wf(),
            r@ == Map::<Seq<char>, ValueModel>::empty(),
    {
        Props { entries: Vec::new() }
    }

    /// Position of the entry holding `key`, if any.
    fn find(&self, key: &str) -> (r: Option<usize>)
        requires
            self.wf(),
        ensures
            match r {
                Some(i) => {
                    &&& i < self.entries@.len()
                    &&& self.entries@[i as int].key@ == key@
                    &&& self@.contains_key(key@)
                    &&& self@[key@] == self.entries@[i as int].value@
                },
                None => !self@.contains_key(key@),
            },
    {
        proof {
            lemma_entries_map_domain(self.entries@);
        }
        let mut i: usize = 0;
        while i < self.entries.len()
            invariant
                self.wf(),
                i <= self.entries@.len(),
                forall|j: int| 0 <= j < i ==> self.entries@[j].key@ != key@,
            decreases self.entries@.len() - i,
        {
            if crate::value::str_eq(self.entries[i].key.as_str(), key) {
                proof {
                    lemma_entries_map_index(self.entries@, i as int);
                }
                return Some(i);
            }
            i = i + 1;
        }
        None
    }

    /// Looks a key up, returning a copy of its value, or `None` when the key
    /// is absent. Never mutates the store.
    pub fn get(&self, key: &str) -> (r: Option<Value>)
        requires
            self.wf(),
        ensures
            match r {
                Some(v) => self@.contains_key(key@) && v@ == self@[key@],
                None => !self@.contains_key(key@),
            },
    {
        match self.find(key) {
            Some(i) => Some(self.entries[i].value.clone()),
            None => None,
        }
    }

    /// Sets a key to a value, creating the key when it is absent.
    pub fn set(&mut self, key: &str, value: Value)
        requires
            old(self).wf(),
        ensures
            final(self).wf(),
            final(self)@ == old(self)@.insert(key@, value@),
    {
        let ghost old_entries = self.entries@;
        match self.find(key) {
            Some(i) => {
                let entry = PropEntry { key: key.to_owned(), value };
                proof {
                    lemma_entries_map_update(old_entries, i as int, entry);
                }
                self.entries.set(i, entry);
                proof {
                    assert forall|p: int, q: int|
                        0 <= p < q < self.entries@.len() implies self.entries@[p].key@
                        != self.entries@[q].key@ by {
                        assert(old_entries[p].key@ != old_entries[q].key@);
                    }
                }
            },
            None => {
                let entry = PropEntry { key: key.to_owned(), value };
                self.entries.push(entry);
                proof {
                    assert(self.entries@.drop_last() =~= old_entries);
                    assert forall|p: int, q: int|
                        0 <= p < q < self.entries@.len() implies self.entries@[p].key@
                        != self.entries@[q].key@ by {
                        if q < self.entries@.len() - 1 {
                            assert(old_entries[p].key@ != old_entries[q].key@);
                        } else {
                            lemma_entries_map_domain(old_entries);
                        }
                    }
                }
            },
        }
    }

    /// Looks a key up, first materializing `default` under it when it is
    /// absent, so that later reads observe a consistent default rather than a
    /// missing key.
    pub fn get_or_default(&mut self, key: &str, default: Value) -> (r: Value)
        requires
            old(self).wf(),
        ensures
            final(self).wf(),
            final(self)@ == old(self)@.insert(
                key@,
                if old(self)@.contains_key(key@) {
                    old(self)@[key@]
                } else {
                    default@
                },
            ),
            r@ == final(self)@[key@],
    {
        match self.find(key) {
            Some(i) => {
                proof {
                    assert(old(self)@.insert(key@, old(self)@[key@]) =~= old(self)@);
                }
                self.entries[i].value.clone()
            },
            None => {
                let r = default.clone();
                self.set(key, default);
                r
            },
        }
    }
}

impl Clone for Props {
    fn clone(&self) -> (r: Self)
        ensures
            r@ == self@,
            self.wf() ==> r.wf(),
    {
        let mut entries: Vec<PropEntry> = Vec::new();
        let mut i: usize = 0;
        while i < self.entries.len()
            invariant
                i <= self.entries@.len(),
                entries@.len() == i,
                forall|j: int|
                    0 <= j < i ==> entries@[j].key@ == self.entries@[j].key@ && entries@[j].value@
                        == self.entries@[j].value@,
            decreases self.entries@.len() - i,
        {
            entries.push(
                PropEntry {
                    key: self.entries[i].key.clone(),
                    value: self.entries[i].value.clone(),
                },
            );
            i = i + 1;
        }
        let r = Props { entries };
        proof {
            lemma_entries_map_congruence(r.entries@, self.entries@);
        }
        r
    }
}

/// Two entry sequences with pairwise view-equal entries denote the same map.
proof fn lemma_entries_map_congruence(a: Seq<PropEntry>, b: Seq<PropEntry>)
    requires
        a.len() == b.len(),
        forall|j: int| 0 <= j < a.len() ==> a[j].key@ == b[j].key@ && a[j].value@ == b[j].value@,
    ensures
        entries_map(a) =~= entries_map(b),
        unique_keys(b) ==> unique_keys(a),
    decreases a.len(),
{
    if a.len() > 0 {
        lemma_entries_map_congruence(a.drop_last(), b.drop_last());
    }
}

} // verus!
