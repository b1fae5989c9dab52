//! A keyed table: the in-memory form of one map of ledger state.
//!
//! A table holds at most one value per key. Its model is a `Map` from keys to
//! values; every operation is specified over that model.

use vstd::prelude::*;

verus! {

/// A type that can key a [`Table`]: executable equality that agrees with
/// equality in specifications, and a copy that is equal to its source.
pub trait Key: Sized {
    /// Whether the two keys are equal.
    fn same(&self, other: &Self) -> (r: bool)
        ensures
            r == (*self == *other),
    ;

    /// A copy of the key.
    fn dup(&self) -> (r: Self)
        ensures
            r == *self,
    ;
}

impl Key for u8 {
    fn same(&self, other: &Self) -> (r: bool) {
        *self == *other
    }

    fn dup(&self) -> (r: Self) {
        *self
    }
}

impl Key for u32 {
    fn same(&self, other: &Self) -> (r: bool) {
        *self == *other
    }

    fn dup(&self) -> (r: Self) {
        *self
    }
}

impl Key for u64 {
    fn same(&self, other: &Self) -> (r: bool) {
        *self == *other
    }

    fn dup(&self) -> (r: Self) {
        *self
    }
}

impl<A: Key> Key for Option<A> {
    fn same(&self, other: &Self) -> (r: bool) {
        match (self, other) {
            (Some(a), Some(b)) => a.same(b),
            (None, None) => true,
            _ => false,
        }
    }

    fn dup(&self) -> (r: Self) {
        match self {
            Some(a) => Some(a.dup()),
            None => None,
        }
    }
}

impl<A: Key, B: Key> Key for (A, B) {
    fn same(&self, other: &Self) -> (r: bool) {
        self.0.same(&other.0) && self.1.same(&other.1)
    }

    fn dup(&self) -> (r: Self) {
        (self.0.dup(), self.1.dup())
    }
}

/// One key with its value.
struct Entry<K, V> {
    key: K,
    value: V,
}

/// Whether some entry of `s` has the key `k`.
spec fn has_key<K, V>(s: Seq<Entry<K, V>>, k: K) -> bool {
    exists|i: int| 0 <= i < s.len() && (#[trigger] s[i]).key == k
}

/// The position of an entry of `s` with the key `k`.
spec fn index_of<K, V>(s: Seq<Entry<K, V>>, k: K) -> int {
    choose|i: int| 0 <= i < s.len() && (#[trigger] s[i]).key == k
}

/// No two entries of `s` have the same key.
spec fn distinct<K, V>(s: Seq<Entry<K, V>>) -> bool {
    forall|i: int, j: int|
        0 <= i < j < s.len() ==> (#[trigger] s[i]).key != (#[trigger] s[j]).key
}

/// The map that the entries of `s` stand for.
spec fn to_map<K, V>(s: Seq<Entry<K, V>>) -> Map<K, V> {
    Map::new(|k: K| has_key(s, k), |k: K| s[index_of(s, k)].value)
}

/// With distinct keys, the map gives under each entry's key that entry's value.
proof fn lemma_entry<K, V>(s: Seq<Entry<K, V>>, i: int)
    requires
        distinct(s),
        0 <= i < s.len(),
    ensures
        to_map(s).contains_key(s[i].key),
        to_map(s)[s[i].key] == s[i].value,
        index_of(s, s[i].key) == i,
{
    let k = s[i].key;
    assert(has_key(s, k));
    let j = index_of(s, k);
    assert(0 <= j < s.len() && s[j].key == k);
    if j < i {
        assert(s[j].key != s[i].key);
    } else if i < j {
        assert(s[i].key != s[j].key);
    }
}

/// A table from keys to values, at most one value per key.
#[verifier::reject_recursive_types(K)]
pub struct Table<K: Key, V> {
    entries: Vec<Entry<K, V>>,
}

impl<K: Key, V> View for Table<K, V> {
    type V = Map<K, V>;

    closed spec fn view(&self) -> Map<K, V> {
        to_map(self.entries@)
    }
}

impl<K: Key, V> Table<K, V> {
    /// No key has two entries.
    #[verifier::type_invariant]
    spec fn inv(&self) -> bool {
        distinct(self.entries@)
    }

    /// The empty table.
    pub fn new() -> (r: Self)
        ensures
            r@ == Map::<K, V>::empty(),
    {
        let r = Table { entries: Vec::new() };
        assert(r@ =~= Map::<K, V>::empty());
        r
    }

    /// The position of `key` among the entries, if it has one.
    fn position(&self, key: &K) -> (r: Option<usize>)
        ensures
            match r {
                Some(i) => i < self.entries@.len() && self.entries@[i as int].key == *key,
                None => !has_key(self.entries@, *key),
            },
    {
        let mut i: usize = 0;
        while i < self.entries.len()
            invariant
                i <= self.entries@.len(),
                forall|j: int| 0 <= j < i ==> (#[trigger] self.entries@[j]).key != *key,
            decreases self.entries@.len() - i,
        {
            if self.entries[i].key.same(key) {
                return Some(i);
            }
            i += 1;
        }
        None
    }

    /// Whether the table holds a value under `key`.
    pub fn contains_key(&self, key: &K) -> (r: bool)
        ensures
            r == self@.contains_key(*key),
    {
        self.position(key).is_some()
    }

    /// The value under `key`, if there is one.
    pub fn get(&self, key: &K) -> (r: Option<&V>)
        ensures
            match r {
                Some(v) => self@.contains_key(*key) && *v == self@[*key],
                None => !self@.contains_key(*key),
            },
    {
        match self.position(key) {
            Some(i) => {
                proof {
                    use_type_invariant(self);
                    lemma_entry(self.entries@, i as int);
                }
                Some(&self.entries[i].value)
            },
            None => None,
        }
    }

    /// Puts `value` under `key`, replacing the value that was there.
    pub fn insert(&mut self, key: K, value: V)
        ensures
            final(self)@ == old(self)@.insert(key, value),
    {
        proof {
            use_type_invariant(&*self);
        }
        let found = self.position(&key);
        let ghost before = self.entries@;
        let mut entries: Vec<Entry<K, V>> = Vec::new();
        core::mem::swap(&mut self.entries, &mut entries);
        match found {
            Some(i) => {
                entries[i] = Entry { key, value };
            },
            None => {
                entries.push(Entry { key, value });
            },
        }
        proof {
            let after = entries@;
            assert(distinct(after));
            assert forall|k: K| #[trigger] to_map(after).contains_key(k) == to_map(before).insert(key, value).contains_key(k) by {
                if has_key(after, k) {
                    let j = index_of(after, k);
                    if k != key {
                        assert(before[j].key == k);
                    }
                }
                if has_key(before, k) {
                    let j = index_of(before, k);
                    assert(after[j].key == k);
                }
                if k == key {
                    match found {
                        Some(i) => {
                            assert(after[i as int].key == k);
                        },
                        None => {
                            assert(after[before.len() as int].key == k);
                        },
                    }
                }
            }
            assert forall|k: K| to_map(after).contains_key(k) implies #[trigger] to_map(after)[k] == to_map(before).insert(key, value)[k] by {
                let j = index_of(after, k);
                lemma_entry(after, j);
                if k != key {
                    assert(before[j].key == k);
                    lemma_entry(before, j);
                }
            }
            assert(to_map(after) =~= to_map(before).insert(key, value));
        }
        core::mem::swap(&mut self.entries, &mut entries);
    }

    /// Takes the value under `key` out of the table.
    pub fn remove(&mut self, key: &K) -> (r: Option<V>)
        ensures
            final(self)@ == old(self)@.remove(*key),
            match r {
                Some(v) => old(self)@.contains_key(*key) && v == old(self)@[*key],
                None => !old(self)@.contains_key(*key),
            },
    {
        proof {
            use_type_invariant(&*self);
        }
        match self.position(key) {
            Some(i) => {
                let ghost before = self.entries@;
                let mut entries: Vec<Entry<K, V>> = Vec::new();
                core::mem::swap(&mut self.entries, &mut entries);
                let entry = entries.remove(i);
                proof {
                    let after = entries@;
                    lemma_entry(before, i as int);
                    assert(after == before.remove(i as int));
                    assert forall|a: int, b: int| 0 <= a < b < after.len() implies (#[trigger] after[a]).key != (#[trigger] after[b]).key by {
                        let a0 = if a < i { a } else { a + 1 };
                        let b0 = if b < i { b } else { b + 1 };
                        assert(after[a] == before[a0]);
                        assert(after[b] == before[b0]);
                    }
                    assert forall|k: K| #[trigger] to_map(after).contains_key(k) == to_map(before).remove(*key).contains_key(k) by {
                        if has_key(after, k) {
                            let j = index_of(after, k);
                            let j0 = if j < i { j } else { j + 1 };
                            assert(after[j] == before[j0]);
                            assert(before[j0].key == k);
                            if k == *key {
                                lemma_entry(before, j0);
                            }
                        }
                        if has_key(before, k) && k != *key {
                            let j = index_of(before, k);
                            let j1 = if j < i { j } else { j - 1 };
                            assert(after[j1] == before[j]);
                        }
                    }
                    assert forall|k: K| to_map(after).contains_key(k) implies #[trigger] to_map(after)[k] == to_map(before).remove(*key)[k] by {
                        let j = index_of(after, k);
                        lemma_entry(after, j);
                        let j0 = if j < i { j } else { j + 1 };
                        assert(after[j] == before[j0]);
                        lemma_entry(before, j0);
                    }
                    assert(to_map(after) =~= to_map(before).remove(*key));
                }
                core::mem::swap(&mut self.entries, &mut entries);
                Some(entry.value)
            },
            None => {
                assert(self@.remove(*key) =~= self@);
                None
            },
        }
    }
}

/// The value under `key`, or zero where there is none.
pub open spec fn value_or_zero<K>(map: Map<K, u64>, key: K) -> u64 {
    if map.contains_key(key) {
        map[key]
    } else {
        0
    }
}

/// The value under `key`, or zero where the table has none.
pub fn read_or_zero<K: Key>(table: &Table<K, u64>, key: &K) -> (r: u64)
    ensures
        r == value_or_zero(table@, *key),
{
    match table.get(key) {
        Some(v) => *v,
        None => 0,
    }
}

/// The list under `key`, or the empty list where there is none.
pub open spec fn list_or_empty<K, T>(lists: Map<K, Seq<T>>, key: K) -> Seq<T> {
    if lists.contains_key(key) {
        lists[key]
    } else {
        Seq::empty()
    }
}

/// The lists after `item` was put at the end of the list under `key`, unless
/// that list holds it already.
pub open spec fn with_last<K, T>(lists: Map<K, Seq<T>>, key: K, item: T) -> Map<K, Seq<T>> {
    if list_or_empty(lists, key).contains(item) {
        lists
    } else {
        lists.insert(key, list_or_empty(lists, key).push(item))
    }
}

/// Whether `item` stands in the list exactly once, and nothing in the list
/// stands twice.
pub open spec fn listed_once<T>(list: Seq<T>, item: T) -> bool {
    list.contains(item) && list.no_duplicates()
}

/// Putting an item at the end of a list that does not hold it keeps the
/// list free of repeats, and the item then stands in it exactly once.
pub proof fn lemma_with_last<K, T>(lists: Map<K, Seq<T>>, key: K, item: T)
    requires
        list_or_empty(lists, key).no_duplicates(),
    ensures
        listed_once(list_or_empty(with_last(lists, key, item), key), item),
        forall|other: K|
            other != key ==> #[trigger] list_or_empty(with_last(lists, key, item), other)
                == list_or_empty(lists, other),
{
    let before = list_or_empty(lists, key);
    let after = list_or_empty(with_last(lists, key, item), key);
    if !before.contains(item) {
        assert(after == before.push(item));
        assert(after[before.len() as int] == item);
        assert forall|i: int, j: int| 0 <= i < after.len() && 0 <= j < after.len() && i
            != j implies after[i] != after[j] by {
            if i < before.len() && j < before.len() {
                assert(before[i] != before[j]);
            } else if i < before.len() {
                assert(before.contains(before[i]));
            } else {
                assert(before.contains(before[j]));
            }
        }
    }
}

/// Putting an item at the front of a list that does not hold it keeps the
/// list free of repeats, and the item then stands in it exactly once.
pub proof fn lemma_with_first<K, T>(lists: Map<K, Seq<T>>, key: K, item: T)
    requires
        list_or_empty(lists, key).no_duplicates(),
    ensures
        listed_once(list_or_empty(with_first(lists, key, item), key), item),
        forall|other: K|
            other != key ==> #[trigger] list_or_empty(with_first(lists, key, item), other)
                == list_or_empty(lists, other),
{
    let before = list_or_empty(lists, key);
    let after = list_or_empty(with_first(lists, key, item), key);
    if !before.contains(item) {
        assert(after == seq![item] + before);
        assert(after[0] == item);
        assert forall|i: int, j: int| 0 <= i < after.len() && 0 <= j < after.len() && i
            != j implies after[i] != after[j] by {
            if i > 0 && j > 0 {
                assert(before[i - 1] != before[j - 1]);
            } else if i > 0 {
                assert(before.contains(before[i - 1]));
            } else {
                assert(before.contains(before[j - 1]));
            }
        }
    }
}

/// What is left of a list without `item` does not hold `item`, holds
/// nothing that the list did not hold, and has no repeats if the list had
/// none.
pub proof fn lemma_without<T>(list: Seq<T>, item: T)
    ensures
        !without(list, item).contains(item),
        forall|x: T| #[trigger] without(list, item).contains(x) ==> list.contains(x),
        list.no_duplicates() ==> without(list, item).no_duplicates(),
    decreases list.len(),
{
    if list.len() > 0 {
        let front = list.drop_last();
        let last = list.last();
        let rest = without(front, item);
        let all = without(list, item);
        lemma_without(front, item);
        assert forall|x: T| front.contains(x) implies list.contains(x) by {
            let i = choose|i: int| 0 <= i < front.len() && front[i] == x;
            assert(list[i] == x);
        }
        assert(list.contains(last)) by {
            assert(list[list.len() - 1] == last);
        }
        assert forall|x: T| #[trigger] all.contains(x) implies list.contains(x) by {
            let j = choose|j: int| 0 <= j < all.len() && all[j] == x;
            if last != item && j == rest.len() {
            } else {
                assert(rest[j] == x);
                assert(rest.contains(x));
            }
        }
        if all.contains(item) {
            let j = choose|j: int| 0 <= j < all.len() && all[j] == item;
            if last != item && j < rest.len() {
                assert(rest[j] == item);
                assert(rest.contains(item));
            } else if last == item {
                assert(rest.contains(item));
            }
        }
        if list.no_duplicates() {
            assert forall|i: int, j: int| 0 <= i < front.len() && 0 <= j < front.len() && i
                != j implies front[i] != front[j] by {
                assert(list[i] != list[j]);
            }
            assert(front.no_duplicates());
            if last != item {
                assert(!rest.contains(last)) by {
                    if rest.contains(last) {
                        assert(front.contains(last));
                        let i = choose|i: int| 0 <= i < front.len() && front[i] == last;
                        assert(list[i] == list[list.len() - 1]);
                    }
                }
                assert forall|i: int, j: int| 0 <= i < all.len() && 0 <= j < all.len() && i
                    != j implies all[i] != all[j] by {
                    if i < rest.len() && j < rest.len() {
                        assert(rest[i] != rest[j]);
                    } else if i < rest.len() {
                        assert(rest.contains(rest[i]));
                    } else {
                        assert(rest.contains(rest[j]));
                    }
                }
            }
        }
    }
}

/// Taking an item out of a list without repeats leaves a list without
/// repeats that does not hold the item.
pub proof fn lemma_with_none_of<K, T>(lists: Map<K, Seq<T>>, key: K, item: T)
    requires
        list_or_empty(lists, key).no_duplicates(),
    ensures
        list_or_empty(with_none_of(lists, key, item), key).no_duplicates(),
        !list_or_empty(with_none_of(lists, key, item), key).contains(item),
        forall|other: K|
            other != key ==> #[trigger] list_or_empty(with_none_of(lists, key, item), other)
                == list_or_empty(lists, other),
{
    lemma_without(list_or_empty(lists, key), item);
}

/// No list of the table holds anything twice.
pub open spec fn all_distinct<K, T>(lists: Map<K, Seq<T>>) -> bool {
    forall|key: K| #[trigger] list_or_empty(lists, key).no_duplicates()
}

/// The lists after `item` was put at the front of the list under `key`,
/// unless that list holds it already.
pub open spec fn with_first<K, T>(lists: Map<K, Seq<T>>, key: K, item: T) -> Map<K, Seq<T>> {
    if list_or_empty(lists, key).contains(item) {
        lists
    } else {
        lists.insert(key, seq![item] + list_or_empty(lists, key))
    }
}

/// The list without any occurrence of `item`, the rest in their order.
pub open spec fn without<T>(list: Seq<T>, item: T) -> Seq<T>
    decreases list.len(),
{
    if list.len() == 0 {
        list
    } else if list.last() == item {
        without(list.drop_last(), item)
    } else {
        without(list.drop_last(), item).push(list.last())
    }
}

/// Nothing is left of a list that holds nothing but `item`.
pub proof fn lemma_without_all<T>(list: Seq<T>, item: T)
    requires
        forall|i: int| 0 <= i < list.len() ==> #[trigger] list[i] == item,
    ensures
        without(list, item).len() == 0,
    decreases list.len(),
{
    if list.len() > 0 {
        lemma_without_all(list.drop_last(), item);
    }
}

/// The lists after every occurrence of `item` was taken out of the list
/// under `key`. A key without a list gets the empty list.
pub open spec fn with_none_of<K, T>(lists: Map<K, Seq<T>>, key: K, item: T) -> Map<K, Seq<T>> {
    lists.insert(key, without(list_or_empty(lists, key), item))
}

/// Whether `list` holds `item`.
pub fn list_contains<T: Key>(list: &Vec<T>, item: &T) -> (r: bool)
    ensures
        r == list@.contains(*item),
{
    let mut i: usize = 0;
    while i < list.len()
        invariant
            i <= list@.len(),
            forall|j: int| 0 <= j < i ==> list@[j] != *item,
        decreases list@.len() - i,
    {
        if list[i].same(item) {
            return true;
        }
        i += 1;
    }
    false
}

/// A copy of `list` without any occurrence of `item`.
pub fn list_without<T: Key>(list: &Vec<T>, item: &T) -> (r: Vec<T>)
    ensures
        r@ == without(list@, *item),
{
    let mut out: Vec<T> = Vec::new();
    let mut i: usize = 0;
    while i < list.len()
        invariant
            i <= list@.len(),
            out@ == without(list@.take(i as int), *item),
        decreases list@.len() - i,
    {
        proof {
            assert(list@.take(i + 1).drop_last() =~= list@.take(i as int));
        }
        if !list[i].same(item) {
            out.push(list[i].dup());
        }
        i += 1;
    }
    proof {
        assert(list@.take(i as int) =~= list@);
    }
    out
}

/// A copy of `list` from the place `from` on.
pub fn list_from<T: Key>(list: &Vec<T>, from: usize) -> (r: Vec<T>)
    requires
        from <= list@.len(),
    ensures
        r@ == list@.skip(from as int),
{
    let mut out: Vec<T> = Vec::new();
    let mut i: usize = from;
    proof {
        assert(list@.subrange(from as int, from as int) =~= Seq::<T>::empty());
    }
    while i < list.len()
        invariant
            from <= i <= list@.len(),
            out@ == list@.subrange(from as int, i as int),
        decreases list@.len() - i,
    {
        out.push(list[i].dup());
        proof {
            assert(list@.subrange(from as int, i + 1) =~= list@.subrange(
                from as int,
                i as int,
            ).push(list@[i as int]));
        }
        i += 1;
    }
    proof {
        assert(list@.subrange(from as int, i as int) =~= list@.skip(from as int));
    }
    out
}

/// A copy of `list`.
pub fn list_copy<T: Key>(list: &Vec<T>) -> (r: Vec<T>)
    ensures
        r@ == list@,
{
    let mut out: Vec<T> = Vec::new();
    let mut i: usize = 0;
    while i < list.len()
        invariant
            i <= list@.len(),
            out@ == list@.take(i as int),
        decreases list@.len() - i,
    {
        out.push(list[i].dup());
        proof {
            assert(list@.take(i + 1) =~= list@.take(i as int).push(list@[i as int]));
        }
        i += 1;
    }
    proof {
        assert(list@.take(i as int) =~= list@);
    }
    out
}

/// A table of lists. A key without a list reads as the empty list.
#[verifier::reject_recursive_types(K)]
pub struct ListTable<K: Key, T: Key> {
    table: Table<K, Vec<T>>,
}

impl<K: Key, T: Key> View for ListTable<K, T> {
    type V = Map<K, Seq<T>>;

    closed spec fn view(&self) -> Map<K, Seq<T>> {
        self.table@.map_values(|v: Vec<T>| v@)
    }
}

impl<K: Key, T: Key> ListTable<K, T> {
    /// The table without any list.
    pub fn new() -> (r: Self)
        ensures
            r@ == Map::<K, Seq<T>>::empty(),
    {
        let r = ListTable { table: Table::new() };
        assert(r@ =~= Map::<K, Seq<T>>::empty());
        r
    }

    /// A copy of the list under `key`; the empty list where there is none.
    pub fn get(&self, key: &K) -> (r: Vec<T>)
        ensures
            r@ == list_or_empty(self@, *key),
    {
        match self.table.get(key) {
            Some(list) => list_copy(list),
            None => Vec::new(),
        }
    }

    /// Puts `list` under `key`, replacing the list that was there.
    pub fn insert(&mut self, key: K, list: Vec<T>)
        ensures
            final(self)@ == old(self)@.insert(key, list@),
    {
        self.table.insert(key, list);
        assert(self@ =~= old(self)@.insert(key, list@));
    }

    /// Puts `item` at the end of the list under `key`.
    pub fn push(&mut self, key: K, item: T)
        ensures
            final(self)@ == old(self)@.insert(key, list_or_empty(old(self)@, key).push(item)),
    {
        let mut list = self.get(&key);
        list.push(item);
        self.insert(key, list);
    }

    /// Puts `item` at the end of the list under `key`, unless the list holds
    /// it already.
    pub fn add_last(&mut self, key: K, item: T)
        ensures
            final(self)@ == with_last(old(self)@, key, item),
    {
        let present = match self.table.get(&key) {
            Some(list) => list_contains(list, &item),
            None => false,
        };
        if !present {
            let mut list = self.get(&key);
            list.push(item);
            self.insert(key, list);
        }
    }

    /// Puts `item` at the front of the list under `key`, unless the list
    /// holds it already.
    pub fn add_first(&mut self, key: K, item: T)
        ensures
            final(self)@ == with_first(old(self)@, key, item),
    {
        let present = match self.table.get(&key) {
            Some(list) => list_contains(list, &item),
            None => false,
        };
        if !present {
            let mut list = self.get(&key);
            list.insert(0, item);
            assert(list@ =~= seq![item] + list_or_empty(old(self)@, key));
            self.insert(key, list);
        }
    }

    /// Takes every occurrence of `item` out of the list under `key`.
    pub fn remove_item(&mut self, key: K, item: &T)
        ensures
            final(self)@ == with_none_of(old(self)@, key, *item),
    {
        let list = match self.table.get(&key) {
            Some(list) => list_without(list, item),
            None => Vec::new(),
        };
        self.insert(key, list);
    }
}

/// A table of lists in which nothing stands twice. A key without a list
/// reads as the empty list.
#[verifier::reject_recursive_types(K)]
pub struct Roster<K: Key, T: Key> {
    lists: ListTable<K, T>,
}

impl<K: Key, T: Key> View for Roster<K, T> {
    type V = Map<K, Seq<T>>;

    closed spec fn view(&self) -> Map<K, Seq<T>> {
        self.lists@
    }
}

impl<K: Key, T: Key> Roster<K, T> {
    #[verifier::type_invariant]
    spec fn inv(&self) -> bool {
        all_distinct(self.lists@)
    }

    /// The table without any list.
    pub fn new() -> (r: Self)
        ensures
            r@ == Map::<K, Seq<T>>::empty(),
            all_distinct(r@),
    {
        Roster { lists: ListTable::new() }
    }

    /// Does nothing; tells the caller that no list of the table holds
    /// anything twice.
    pub fn distinct(&self)
        ensures
            all_distinct(self@),
    {
        proof {
            use_type_invariant(self);
        }
    }

    /// A copy of the list under `key`; the empty list where there is none.
    pub fn get(&self, key: &K) -> (r: Vec<T>)
        ensures
            r@ == list_or_empty(self@, *key),
            r@.no_duplicates(),
    {
        proof {
            use_type_invariant(self);
        }
        self.lists.get(key)
    }

    /// Puts `item` at the end of the list under `key`, unless the list holds
    /// it already.
    pub fn add_last(&mut self, key: K, item: T)
        ensures
            final(self)@ == with_last(old(self)@, key, item),
            all_distinct(final(self)@),
            listed_once(list_or_empty(final(self)@, key), item),
    {
        proof {
            use_type_invariant(&*self);
            lemma_with_last(self@, key, item);
        }
        let mut lists = ListTable::new();
        core::mem::swap(&mut self.lists, &mut lists);
        lists.add_last(key, item);
        proof {
            assert forall|other: K| #[trigger]
                list_or_empty(lists@, other).no_duplicates() by {
                assert(list_or_empty(old(self)@, other).no_duplicates());
            }
        }
        core::mem::swap(&mut self.lists, &mut lists);
    }

    /// Puts `item` at the front of the list under `key`, unless the list
    /// holds it already.
    pub fn add_first(&mut self, key: K, item: T)
        ensures
            final(self)@ == with_first(old(self)@, key, item),
            all_distinct(final(self)@),
            listed_once(list_or_empty(final(self)@, key), item),
    {
        proof {
            use_type_invariant(&*self);
            lemma_with_first(self@, key, item);
        }
        let mut lists = ListTable::new();
        core::mem::swap(&mut self.lists, &mut lists);
        lists.add_first(key, item);
        proof {
            assert forall|other: K| #[trigger]
                list_or_empty(lists@, other).no_duplicates() by {
                assert(list_or_empty(old(self)@, other).no_duplicates());
            }
        }
        core::mem::swap(&mut self.lists, &mut lists);
    }

    /// Takes `item` out of the list under `key`.
    pub fn remove_item(&mut self, key: K, item: &T)
        ensures
            final(self)@ == with_none_of(old(self)@, key, *item),
            all_distinct(final(self)@),
            !list_or_empty(final(self)@, key).contains(*item),
    {
        proof {
            use_type_invariant(&*self);
            lemma_with_none_of(self@, key, *item);
        }
        let mut lists = ListTable::new();
        core::mem::swap(&mut self.lists, &mut lists);
        lists.remove_item(key, item);
        proof {
            assert forall|other: K| #[trigger]
                list_or_empty(lists@, other).no_duplicates() by {
                assert(list_or_empty(old(self)@, other).no_duplicates());
            }
        }
        core::mem::swap(&mut self.lists, &mut lists);
    }
}

} // verus!
