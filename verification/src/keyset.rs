//! Ordered sets: items kept in ascending order of their keys, none twice.

use vstd::prelude::*;
use crate::ids::{bytes_lt, lemma_bytes_lt_irreflexive, lemma_bytes_lt_total,
    lemma_bytes_lt_transitive, slice_eq, slice_lt, Did, Oid};

verus! {

/// What can be held in a [`KeySet`]: an item that is found and ordered by a
/// key of bytes.
pub trait SetItem: Sized {
    /// The bytes by which the item is found and ordered.
    spec fn key(&self) -> Seq<u8>;

    /// Whether two items have the same key.
    fn key_eq(&self, other: &Self) -> (r: bool)
        ensures
            r == (self.key() == other.key()),
    ;

    /// Whether this item's key comes strictly before the other's.
    fn key_lt(&self, other: &Self) -> (r: bool)
        ensures
            r == bytes_lt(self.key(), other.key()),
    ;
}

impl SetItem for Oid {
    open spec fn key(&self) -> Seq<u8> {
        self.bytes@
    }

    fn key_eq(&self, other: &Self) -> (r: bool) {
        slice_eq(self.bytes.as_slice(), other.bytes.as_slice())
    }

    fn key_lt(&self, other: &Self) -> (r: bool) {
        slice_lt(self.bytes.as_slice(), other.bytes.as_slice())
    }
}

impl SetItem for Did {
    open spec fn key(&self) -> Seq<u8> {
        self.key.bytes@
    }

    fn key_eq(&self, other: &Self) -> (r: bool) {
        slice_eq(self.key.bytes.as_slice(), other.key.bytes.as_slice())
    }

    fn key_lt(&self, other: &Self) -> (r: bool) {
        slice_lt(self.key.bytes.as_slice(), other.key.bytes.as_slice())
    }
}

/// A string is found and ordered by its UTF-8 encoding.
impl SetItem for String {
    open spec fn key(&self) -> Seq<u8> {
        vstd::utf8::encode_utf8(self@)
    }

    fn key_eq(&self, other: &Self) -> (r: bool) {
        slice_eq(self.as_str().as_bytes(), other.as_str().as_bytes())
    }

    fn key_lt(&self, other: &Self) -> (r: bool) {
        slice_lt(self.as_str().as_bytes(), other.as_str().as_bytes())
    }
}

/// Whether the keys stand in strictly ascending order.
pub open spec fn ascending(keys: Seq<Seq<u8>>) -> bool {
    forall|i: int, j: int| 0 <= i < j < keys.len() ==> bytes_lt(#[trigger] keys[i], #[trigger] keys[j])
}

/// Two ascending sequences that hold the same keys are the same sequence.
pub proof fn lemma_ascending_unique(a: Seq<Seq<u8>>, b: Seq<Seq<u8>>)
    requires
        ascending(a),
        ascending(b),
        a.to_set() == b.to_set(),
    ensures
        a == b,
    decreases a.len(),
{
    if a.len() == 0 {
        if b.len() > 0 {
            assert(b.to_set().contains(b[0]));
            assert(a.contains(b[0]));
        }
        assert(a =~= b);
    } else {
        assert(a.to_set().contains(a[0]));
        assert(b.contains(a[0]));
        let jb = choose|j: int| 0 <= j < b.len() && b[j] == a[0];
        assert(b.to_set().contains(b[0]));
        assert(a.contains(b[0]));
        let ja = choose|j: int| 0 <= j < a.len() && a[j] == b[0];
        if jb > 0 {
            // b[0] < b[jb] == a[0] <= a[ja] == b[0]
            assert(bytes_lt(b[0], b[jb]));
            if ja > 0 {
                assert(bytes_lt(a[0], a[ja]));
                lemma_bytes_lt_transitive(b[0], a[0], b[0]);
            }
            lemma_bytes_lt_irreflexive(b[0]);
            assert(false);
        }
        assert(a[0] == b[0]);
        let a1 = a.drop_first();
        let b1 = b.drop_first();
        assert(ascending(a1)) by {
            assert forall|i: int, j: int| 0 <= i < j < a1.len() implies bytes_lt(
                #[trigger] a1[i],
                #[trigger] a1[j],
            ) by {
                assert(bytes_lt(a[i + 1], a[j + 1]));
            }
        }
        assert(ascending(b1)) by {
            assert forall|i: int, j: int| 0 <= i < j < b1.len() implies bytes_lt(
                #[trigger] b1[i],
                #[trigger] b1[j],
            ) by {
                assert(bytes_lt(b[i + 1], b[j + 1]));
            }
        }
        assert(a1.to_set() =~= b1.to_set()) by {
            assert forall|k: Seq<u8>| a1.to_set().contains(k) <==> b1.to_set().contains(k) by {
                if a1.contains(k) {
                    let i = choose|i: int| 0 <= i < a1.len() && a1[i] == k;
                    assert(a[i + 1] == k);
                    assert(bytes_lt(a[0], a[i + 1]));
                    assert(a.to_set().contains(k));
                    assert(b.contains(k));
                    let j = choose|j: int| 0 <= j < b.len() && b[j] == k;
                    if j == 0 {
                        lemma_bytes_lt_irreflexive(k);
                    }
                    assert(b1[j - 1] == k);
                }
                if b1.contains(k) {
                    let i = choose|i: int| 0 <= i < b1.len() && b1[i] == k;
                    assert(b[i + 1] == k);
                    assert(bytes_lt(b[0], b[i + 1]));
                    assert(b.to_set().contains(k));
                    assert(a.contains(k));
                    let j = choose|j: int| 0 <= j < a.len() && a[j] == k;
                    if j == 0 {
                        lemma_bytes_lt_irreflexive(k);
                    }
                    assert(a1[j - 1] == k);
                }
            }
        }
        lemma_ascending_unique(a1, b1);
        assert(a =~= seq![a[0]] + a1);
        assert(b =~= seq![b[0]] + b1);
    }
}

/// Where `key` belongs among ascending `keys`: the number of keys that come
/// before it.
pub open spec fn rank(keys: Seq<Seq<u8>>, key: Seq<u8>) -> int
    decreases keys.len(),
{
    if keys.len() == 0 {
        0
    } else if bytes_lt(keys.last(), key) {
        keys.len() as int
    } else {
        rank(keys.drop_last(), key)
    }
}

/// The keys with `key` among them: where it was missing it stands at its
/// place in the order.
pub open spec fn with_key(keys: Seq<Seq<u8>>, key: Seq<u8>) -> Seq<Seq<u8>> {
    if keys.contains(key) {
        keys
    } else {
        keys.insert(rank(keys, key), key)
    }
}

/// The keys without `key`.
pub open spec fn without_key(keys: Seq<Seq<u8>>, key: Seq<u8>) -> Seq<Seq<u8>> {
    if keys.contains(key) {
        keys.remove(keys.index_of(key))
    } else {
        keys
    }
}

/// A prefix of ascending keys is ascending.
proof fn lemma_ascending_prefix(keys: Seq<Seq<u8>>)
    requires
        ascending(keys),
        keys.len() > 0,
    ensures
        ascending(keys.drop_last()),
{
    let shorter = keys.drop_last();
    assert forall|i: int, j: int| 0 <= i < j < shorter.len() implies bytes_lt(
        #[trigger] shorter[i],
        #[trigger] shorter[j],
    ) by {
        assert(bytes_lt(keys[i], keys[j]));
    }
}

/// The keys before the rank of `key` come before `key`, and the key at its
/// rank does not.
pub proof fn lemma_rank(keys: Seq<Seq<u8>>, key: Seq<u8>)
    requires
        ascending(keys),
    ensures
        0 <= rank(keys, key) <= keys.len(),
        forall|j: int| 0 <= j < rank(keys, key) ==> bytes_lt(#[trigger] keys[j], key),
        rank(keys, key) < keys.len() ==> !bytes_lt(keys[rank(keys, key)], key),
    decreases keys.len(),
{
    if keys.len() > 0 {
        if bytes_lt(keys.last(), key) {
            assert forall|j: int| 0 <= j < keys.len() implies bytes_lt(#[trigger] keys[j], key) by {
                if j < keys.len() - 1 {
                    assert(bytes_lt(keys[j], keys[keys.len() - 1]));
                    lemma_bytes_lt_transitive(keys[j], keys.last(), key);
                }
            }
        } else {
            let shorter = keys.drop_last();
            lemma_ascending_prefix(keys);
            lemma_rank(shorter, key);
            let r = rank(shorter, key);
            assert forall|j: int| 0 <= j < r implies bytes_lt(#[trigger] keys[j], key) by {
                assert(shorter[j] == keys[j]);
            }
            if r < shorter.len() {
                assert(shorter[r] == keys[r]);
            }
        }
    }
}

/// The rank of `key` is the one place before which all keys come before
/// `key` and at which the key does not.
pub proof fn lemma_rank_is(keys: Seq<Seq<u8>>, key: Seq<u8>, i: int)
    requires
        ascending(keys),
        0 <= i <= keys.len(),
        forall|j: int| 0 <= j < i ==> bytes_lt(#[trigger] keys[j], key),
        i < keys.len() ==> !bytes_lt(keys[i], key),
    ensures
        rank(keys, key) == i,
{
    lemma_rank(keys, key);
    let r = rank(keys, key);
    if r < i {
        assert(bytes_lt(keys[r], key));
    }
    if i < r {
        assert(bytes_lt(keys[i], key));
    }
}

/// Adding a key to a set: the keys stay in ascending order, they are the
/// keys from before and the new one, and adding the key once more changes
/// nothing.
pub proof fn lemma_with_key(keys: Seq<Seq<u8>>, key: Seq<u8>)
    requires
        ascending(keys),
    ensures
        ascending(with_key(keys, key)),
        with_key(keys, key).to_set() == keys.to_set().insert(key),
        with_key(with_key(keys, key), key) == with_key(keys, key),
{
    let after = with_key(keys, key);
    if keys.contains(key) {
        assert(keys.to_set() =~= keys.to_set().insert(key));
    } else {
        lemma_rank(keys, key);
        let i = rank(keys, key);
        assert forall|a: int, b: int| 0 <= a < b < after.len() implies bytes_lt(
            #[trigger] after[a],
            #[trigger] after[b],
        ) by {
            let pa = if a < i { a } else { a - 1 };
            let pb = if b < i { b } else { b - 1 };
            if a == i {
                // The key comes before what stood at its rank or after.
                assert(after[b] == keys[b - 1]);
                lemma_bytes_lt_total(keys[b - 1], key);
                if b - 1 > i {
                    assert(bytes_lt(keys[i], keys[b - 1]));
                    if bytes_lt(keys[b - 1], key) {
                        lemma_bytes_lt_transitive(keys[i], keys[b - 1], key);
                    }
                }
                if keys[b - 1] == key {
                    assert(keys.contains(key));
                }
            } else if b == i {
                assert(after[a] == keys[a]);
            } else {
                assert(after[a] == keys[pa]);
                assert(after[b] == keys[pb]);
                assert(bytes_lt(keys[pa], keys[pb]));
            }
        }
        assert(after.to_set() =~= keys.to_set().insert(key)) by {
            assert forall|k: Seq<u8>| after.to_set().contains(k) <==> keys.to_set().insert(
                key,
            ).contains(k) by {
                if after.contains(k) {
                    let j = choose|j: int| 0 <= j < after.len() && after[j] == k;
                    if j < i {
                        assert(keys[j] == k);
                    } else if j > i {
                        assert(keys[j - 1] == k);
                    }
                }
                if keys.contains(k) {
                    let j = choose|j: int| 0 <= j < keys.len() && keys[j] == k;
                    if j < i {
                        assert(after[j] == k);
                    } else {
                        assert(after[j + 1] == k);
                    }
                }
                if k == key {
                    assert(after[i] == k);
                }
            }
        }
        assert(after[i] == key);
        assert(after.contains(key));
    }
}

/// Taking a key out of a set: the keys stay in ascending order, they are
/// the keys from before but that one, and taking the key out once more
/// changes nothing.
pub proof fn lemma_without_key(keys: Seq<Seq<u8>>, key: Seq<u8>)
    requires
        ascending(keys),
    ensures
        ascending(without_key(keys, key)),
        without_key(keys, key).to_set() == keys.to_set().remove(key),
        without_key(without_key(keys, key), key) == without_key(keys, key),
{
    let after = without_key(keys, key);
    if !keys.contains(key) {
        assert(keys.to_set() =~= keys.to_set().remove(key));
    } else {
        let i = keys.index_of(key);
        assert(0 <= i < keys.len() && keys[i] == key);
        assert forall|a: int, b: int| 0 <= a < b < after.len() implies bytes_lt(
            #[trigger] after[a],
            #[trigger] after[b],
        ) by {
            let pa = if a < i { a } else { a + 1 };
            let pb = if b < i { b } else { b + 1 };
            assert(after[a] == keys[pa]);
            assert(after[b] == keys[pb]);
            assert(bytes_lt(keys[pa], keys[pb]));
        }
        assert forall|j: int| 0 <= j < after.len() implies after[j] != key by {
            let pj = if j < i { j } else { j + 1 };
            assert(after[j] == keys[pj]);
            if pj < i {
                assert(bytes_lt(keys[pj], keys[i]));
            } else {
                assert(bytes_lt(keys[i], keys[pj]));
            }
            lemma_bytes_lt_irreflexive(key);
        }
        assert(!after.contains(key));
        assert(after.to_set() =~= keys.to_set().remove(key)) by {
            assert forall|k: Seq<u8>| after.to_set().contains(k) <==> keys.to_set().remove(
                key,
            ).contains(k) by {
                if after.contains(k) {
                    let j = choose|j: int| 0 <= j < after.len() && after[j] == k;
                    let pj = if j < i { j } else { j + 1 };
                    assert(keys[pj] == k);
                }
                if keys.contains(k) && k != key {
                    let j = choose|j: int| 0 <= j < keys.len() && keys[j] == k;
                    if j < i {
                        assert(after[j] == k);
                    } else {
                        assert(after[j - 1] == k);
                    }
                }
            }
        }
    }
}

/// The order in which two keys are added does not matter.
pub proof fn lemma_with_key_commutes(keys: Seq<Seq<u8>>, one: Seq<u8>, other: Seq<u8>)
    requires
        ascending(keys),
    ensures
        with_key(with_key(keys, one), other) == with_key(with_key(keys, other), one),
{
    lemma_with_key(keys, one);
    lemma_with_key(keys, other);
    lemma_with_key(with_key(keys, one), other);
    lemma_with_key(with_key(keys, other), one);
    assert(keys.to_set().insert(one).insert(other) =~= keys.to_set().insert(other).insert(one));
    lemma_ascending_unique(
        with_key(with_key(keys, one), other),
        with_key(with_key(keys, other), one),
    );
}

/// The order in which two keys are taken out does not matter.
pub proof fn lemma_without_key_commutes(keys: Seq<Seq<u8>>, one: Seq<u8>, other: Seq<u8>)
    requires
        ascending(keys),
    ensures
        without_key(without_key(keys, one), other) == without_key(without_key(keys, other), one),
{
    lemma_without_key(keys, one);
    lemma_without_key(keys, other);
    lemma_without_key(without_key(keys, one), other);
    lemma_without_key(without_key(keys, other), one);
    assert(keys.to_set().remove(one).remove(other) =~= keys.to_set().remove(other).remove(one));
    lemma_ascending_unique(
        without_key(without_key(keys, one), other),
        without_key(without_key(keys, other), one),
    );
}

/// A set of items, kept in ascending order of their keys.
///
/// Its view is the sequence of the keys it holds, in ascending order.
#[derive(Clone, Debug, PartialEq, Eq)]
pub struct KeySet<T> {
    items: Vec<T>,
}

impl<T: SetItem> View for KeySet<T> {
    type V = Seq<Seq<u8>>;

    closed spec fn view(&self) -> Seq<Seq<u8>> {
        Seq::new(self.items@.len(), |i: int| self.items@[i].key())
    }
}

impl<T: SetItem> KeySet<T> {
    /// The set's invariant: its keys ascend strictly, so none occurs twice.
    pub open spec fn wf(&self) -> bool {
        ascending(self@)
    }

    /// The items themselves, in the order of their keys.
    pub closed spec fn items_view(&self) -> Seq<T> {
        self.items@
    }

    /// The empty set.
    pub fn new() -> (s: Self)
        ensures
            s.wf(),
            s@ == Seq::<Seq<u8>>::empty(),
    {
        let s = KeySet { items: Vec::new() };
        assert(s@ =~= Seq::<Seq<u8>>::empty());
        s
    }

    /// The number of items.
    pub fn len(&self) -> (n: usize)
        ensures
            n == self@.len(),
    {
        self.items.len()
    }

    /// Whether the set holds nothing.
    pub fn is_empty(&self) -> (b: bool)
        ensures
            b == (self@.len() == 0),
    {
        self.items.len() == 0
    }

    /// The items in ascending order of their keys.
    pub fn items(&self) -> (v: &Vec<T>)
        ensures
            v@ == self.items_view(),
            v@.len() == self@.len(),
            forall|i: int| 0 <= i < v@.len() ==> (#[trigger] v@[i]).key() == self@[i],
    {
        &self.items
    }

    /// The index of the first item whose key is not below `item`'s.
    fn lower_bound(&self, item: &T) -> (i: usize)
        requires
            self.wf(),
        ensures
            i <= self@.len(),
            forall|j: int| 0 <= j < i ==> bytes_lt(#[trigger] self@[j], item.key()),
            i < self@.len() ==> !bytes_lt(self@[i as int], item.key()),
    {
        let mut i: usize = 0;
        while i < self.items.len()
            invariant
                i <= self.items@.len(),
                self@.len() == self.items@.len(),
                forall|j: int| 0 <= j < self@.len() ==> self@[j] == self.items@[j].key(),
                forall|j: int| 0 <= j < i ==> bytes_lt(#[trigger] self@[j], item.key()),
            decreases self.items@.len() - i,
        {
            if !self.items[i].key_lt(item) {
                return i;
            }
            i += 1;
        }
        i
    }

    /// Whether the set holds an item with `item`'s key.
    pub fn contains(&self, item: &T) -> (b: bool)
        requires
            self.wf(),
        ensures
            b == self@.contains(item.key()),
    {
        let i = self.lower_bound(item);
        if i < self.items.len() && self.items[i].key_eq(item) {
            assert(self@[i as int] == item.key());
            true
        } else {
            proof {
                self.lemma_absent(item.key(), i as int);
            }
            false
        }
    }

    /// A key that is not at its lower bound is not in the set.
    proof fn lemma_absent(&self, key: Seq<u8>, i: int)
        requires
            self.wf(),
            0 <= i <= self@.len(),
            forall|j: int| 0 <= j < i ==> bytes_lt(#[trigger] self@[j], key),
            i < self@.len() ==> !bytes_lt(self@[i], key) && self@[i] != key,
        ensures
            !self@.contains(key),
    {
        if self@.contains(key) {
            let j = choose|j: int| 0 <= j < self@.len() && self@[j] == key;
            if j < i {
                lemma_bytes_lt_irreflexive(key);
            } else if j > i {
                assert(bytes_lt(self@[i], self@[j]));
            }
        }
    }

    /// Adds an item. If the set holds an item with the same key, nothing
    /// changes. Returns whether the item was added.
    pub fn insert(&mut self, item: T) -> (added: bool)
        requires
            old(self).wf(),
        ensures
            final(self).wf(),
            final(self)@ == with_key(old(self)@, item.key()),
            final(self)@.to_set() == old(self)@.to_set().insert(item.key()),
            added == !old(self)@.contains(item.key()),
    {
        let ghost before = self@;
        let ghost key = item.key();
        proof {
            lemma_with_key(before, key);
        }
        let i = self.lower_bound(&item);
        if i < self.items.len() && self.items[i].key_eq(&item) {
            assert(self@[i as int] == key);
            return false;
        }
        proof {
            self.lemma_absent(key, i as int);
            lemma_rank_is(before, key, i as int);
        }
        self.items.insert(i, item);
        assert(self@ =~= before.insert(i as int, key));
        true
    }

    /// Takes out the item with `item`'s key, if the set holds one. Returns
    /// whether it did.
    pub fn remove(&mut self, item: &T) -> (removed: bool)
        requires
            old(self).wf(),
        ensures
            final(self).wf(),
            final(self)@ == without_key(old(self)@, item.key()),
            final(self)@.to_set() == old(self)@.to_set().remove(item.key()),
            removed == old(self)@.contains(item.key()),
    {
        let ghost before = self@;
        let ghost key = item.key();
        proof {
            lemma_without_key(before, key);
        }
        let i = self.lower_bound(item);
        if !(i < self.items.len() && self.items[i].key_eq(item)) {
            proof {
                self.lemma_absent(key, i as int);
            }
            return false;
        }
        proof {
            assert(before[i as int] == key);
            let at = before.index_of(key);
            assert(0 <= at < before.len() && before[at] == key);
            if at < i {
                assert(bytes_lt(before[at], before[i as int]));
                lemma_bytes_lt_irreflexive(key);
            }
            if i < at {
                assert(bytes_lt(before[i as int], before[at]));
                lemma_bytes_lt_irreflexive(key);
            }
        }
        self.items.remove(i);
        assert(self@ =~= before.remove(i as int));
        true
    }

    /// The set of the items of `items`.
    pub fn from_vec(items: Vec<T>) -> (s: Self)
        ensures
            s.wf(),
            s@.to_set() == Seq::new(items@.len(), |i: int| items@[i].key()).to_set(),
    {
        let ghost keys = Seq::new(items@.len(), |i: int| items@[i].key());
        let mut s = KeySet::new();
        for item in it: items
            invariant
                it.seq() == items@,
                keys == Seq::new(items@.len(), |i: int| items@[i].key()),
                s.wf(),
                s@.to_set() == keys.take(it.index() as int).to_set(),
        {
            let ghost n = it.index() as int;
            let ghost k = item.key();
            assert(k == keys[n]);
            s.insert(item);
            proof {
                assert(keys.take(n + 1) =~= keys.take(n).push(k));
                assert(keys.take(n + 1).to_set() =~= keys.take(n).to_set().insert(k)) by {
                    assert forall|x: Seq<u8>| keys.take(n + 1).to_set().contains(x)
                        <==> keys.take(n).to_set().insert(k).contains(x) by {
                        let a = keys.take(n);
                        let b = a.push(k);
                        if b.contains(x) {
                            let j = choose|j: int| 0 <= j < b.len() && b[j] == x;
                            if j < a.len() {
                                assert(a[j] == x);
                            }
                        }
                        if a.contains(x) {
                            let j = choose|j: int| 0 <= j < a.len() && a[j] == x;
                            assert(b[j] == x);
                        }
                        if x == k {
                            assert(b[a.len() as int] == x);
                        }
                    }
                }
            }
        }
        assert(keys.take(keys.len() as int) =~= keys);
        s
    }

    /// Whether two sets hold the same keys.
    pub fn same_as(&self, other: &Self) -> (b: bool)
        ensures
            b == (self@ == other@),
    {
        if self.items.len() != other.items.len() {
            return false;
        }
        let mut i: usize = 0;
        while i < self.items.len()
            invariant
                i <= self.items@.len(),
                self.items@.len() == other.items@.len(),
                self@.len() == self.items@.len(),
                other@.len() == other.items@.len(),
                forall|j: int| 0 <= j < self@.len() ==> self@[j] == self.items@[j].key(),
                forall|j: int| 0 <= j < other@.len() ==> other@[j] == other.items@[j].key(),
                forall|j: int| 0 <= j < i ==> self@[j] == other@[j],
            decreases self.items@.len() - i,
        {
            if !self.items[i].key_eq(&other.items[i]) {
                assert(self@[i as int] != other@[i as int]);
                return false;
            }
            i += 1;
        }
        assert(self@ =~= other@);
        true
    }
}

} // verus!
