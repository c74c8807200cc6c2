//! A map from 64-bit keys to values that is walked in the order of its keys.

use vstd::prelude::*;

verus! {

/// Whether the keys of `s` ascend strictly, so that no key occurs twice.
pub open spec fn keys_ascend<V>(s: Seq<(u64, V)>) -> bool {
    forall|i: int, j: int| 0 <= i < j < s.len() ==> s[i].0 < s[j].0
}

/// How many entries of `s` have a key below `key`.
pub open spec fn count_below<V>(s: Seq<(u64, V)>, key: u64) -> nat
    decreases s.len(),
{
    if s.len() == 0 {
        0
    } else {
        count_below(s.drop_last(), key) + if s.last().0 < key {
            1nat
        } else {
            0nat
        }
    }
}

/// The entries of `s` after `key` has been given `value`: the entries with a
/// smaller key, then the new entry, then the entries with a greater key. An
/// entry that had the key before is replaced.
pub open spec fn with_entry<V>(s: Seq<(u64, V)>, key: u64, value: V) -> Seq<(u64, V)> {
    let at = count_below(s, key) as int;
    let after = if at < s.len() && s[at].0 == key {
        at + 1
    } else {
        at
    };
    s.take(at).push((key, value)) + s.skip(after)
}

/// In entries with ascending keys, the entries below a key are those before
/// the first entry that is not below it.
pub proof fn lemma_count_below<V>(s: Seq<(u64, V)>, key: u64, at: int)
    requires
        keys_ascend(s),
        0 <= at <= s.len(),
        forall|i: int| 0 <= i < at ==> (#[trigger] s[i]).0 < key,
        at < s.len() ==> s[at].0 >= key,
    ensures
        count_below(s, key) == at,
    decreases s.len(),
{
    if s.len() > 0 {
        let t = s.drop_last();
        assert(keys_ascend(t)) by {
            assert forall|i: int, j: int| 0 <= i < j < t.len() implies t[i].0 < t[j].0 by {
                assert(t[i] == s[i] && t[j] == s[j]);
            }
        }
        if at == s.len() {
            assert forall|i: int| 0 <= i < at - 1 implies (#[trigger] t[i]).0 < key by {
                assert(t[i] == s[i]);
            }
            lemma_count_below(t, key, at - 1);
        } else {
            assert forall|i: int| 0 <= i < at implies (#[trigger] t[i]).0 < key by {
                assert(t[i] == s[i]);
            }
            if at < t.len() {
                assert(t[at] == s[at]);
            }
            lemma_count_below(t, key, at);
            assert(s[at].0 <= s.last().0);
        }
    }
}

/// Giving a key a value keeps the keys ascending.
pub proof fn lemma_with_entry_ascends<V>(s: Seq<(u64, V)>, key: u64, value: V, at: int)
    requires
        keys_ascend(s),
        0 <= at <= s.len(),
        forall|i: int| 0 <= i < at ==> (#[trigger] s[i]).0 < key,
        at < s.len() ==> s[at].0 >= key,
    ensures
        count_below(s, key) == at,
        keys_ascend(with_entry(s, key, value)),
{
    lemma_count_below(s, key, at);
    let r = with_entry(s, key, value);
    let after = if at < s.len() && s[at].0 == key {
        at + 1
    } else {
        at
    };
    assert forall|i: int, j: int| 0 <= i < j < r.len() implies r[i].0 < r[j].0 by {
        if i < at {
            assert(r[i] == s[i]);
        } else if i > at {
            assert(r[i] == s[i - at - 1 + after]);
        }
        if j < at {
            assert(r[j] == s[j]);
        } else if j > at {
            assert(r[j] == s[j - at - 1 + after]);
            if at < s.len() {
                assert(s[at].0 <= s[j - at - 1 + after].0);
            }
        }
    }
}

/// A map from 64-bit keys to values. It holds each key once and is walked in
/// ascending order of the keys.
#[derive(Debug)]
pub struct OrderedMap<V> {
    entries: Vec<(u64, V)>,
}

impl<V> View for OrderedMap<V> {
    type V = Seq<(u64, V)>;

    /// The entries in the order in which the map is walked.
    closed spec fn view(&self) -> Seq<(u64, V)> {
        self.entries@
    }
}

impl<V> OrderedMap<V> {
    #[verifier::type_invariant]
    spec fn ordered(self) -> bool {
        keys_ascend(self.entries@)
    }

    /// The map without entries.
    pub fn new() -> (m: Self)
        ensures
            m@ == Seq::<(u64, V)>::empty(),
    {
        OrderedMap { entries: Vec::new() }
    }

    /// The number of entries. The keys of every map ascend strictly.
    pub fn len(&self) -> (n: usize)
        ensures
            n == self@.len(),
            keys_ascend(self@),
    {
        proof {
            use_type_invariant(self);
        }
        self.entries.len()
    }

    /// Whether the map has no entries.
    pub fn is_empty(&self) -> (b: bool)
        ensures
            b == (self@.len() == 0),
    {
        self.entries.len() == 0
    }

    /// The key of the entry at position `i` of the walk.
    pub fn key_at(&self, i: usize) -> (k: u64)
        requires
            i < self@.len(),
        ensures
            k == self@[i as int].0,
    {
        self.entries[i].0
    }

    /// The value of the entry at position `i` of the walk.
    pub fn value_at(&self, i: usize) -> (v: &V)
        requires
            i < self@.len(),
        ensures
            *v == self@[i as int].1,
    {
        &self.entries[i].1
    }

    /// Gives `key` the value `value`, in place of the value it had, if any.
    pub fn insert(&mut self, key: u64, value: V)
        ensures
            final(self)@ == with_entry(old(self)@, key, value),
            keys_ascend(final(self)@),
    {
        proof {
            use_type_invariant(&*self);
        }
        let mut entries: Vec<(u64, V)> = Vec::new();
        std::mem::swap(&mut entries, &mut self.entries);
        let ghost before = entries@;
        let n = entries.len();
        let mut at: usize = 0;
        while at < n && entries[at].0 < key
            invariant
                at <= n,
                n == entries@.len(),
                entries@ == before,
                forall|i: int| 0 <= i < at ==> (#[trigger] before[i]).0 < key,
            decreases n - at,
        {
            at = at + 1;
        }
        proof {
            lemma_with_entry_ascends(before, key, value, at as int);
        }
        if at < n && entries[at].0 == key {
            entries.set(at, (key, value));
            assert(entries@ =~= with_entry(before, key, value));
        } else {
            entries.insert(at, (key, value));
            assert(entries@ =~= with_entry(before, key, value));
        }
        self.entries = entries;
    }
}

} // verus!
