//! A small map kept as a list of entries with distinct keys.

use vstd::prelude::*;

verus! {

/// What entries of a [`Table`] are found by.
pub trait TableKey: Sized {
    /// What a key is, apart from how it is stored.
    type Id;

    /// The identity of this key.
    spec fn id(&self) -> Self::Id;

    /// Whether two keys are the same.
    fn same(&self, other: &Self) -> (out: bool)
        ensures
            out == (self.id() == other.id()),
    ;

    /// Another copy of the key.
    fn duplicate(&self) -> (out: Self)
        ensures
            out.id() == self.id(),
    ;
}

impl TableKey for String {
    type Id = Seq<char>;

    open spec fn id(&self) -> Seq<char> {
        self@
    }

    fn same(&self, other: &Self) -> (out: bool) {
        *self == *other
    }

    fn duplicate(&self) -> (out: Self) {
        self.clone()
    }
}

impl TableKey for u32 {
    type Id = u32;

    open spec fn id(&self) -> u32 {
        *self
    }

    fn same(&self, other: &Self) -> (out: bool) {
        *self == *other
    }

    fn duplicate(&self) -> (out: Self) {
        *self
    }
}

impl TableKey for (String, String) {
    type Id = (Seq<char>, Seq<char>);

    open spec fn id(&self) -> (Seq<char>, Seq<char>) {
        (self.0@, self.1@)
    }

    fn same(&self, other: &Self) -> (out: bool) {
        self.0 == other.0 && self.1 == other.1
    }

    fn duplicate(&self) -> (out: Self) {
        (self.0.clone(), self.1.clone())
    }
}

/// Whether an entry has the key `id`.
pub open spec fn has_key<K: TableKey, V>(entries: Seq<(K, V)>, id: K::Id) -> bool {
    exists|i: int| 0 <= i < entries.len() && (#[trigger] entries[i]).0.id() == id
}

/// The position of an entry with the key `id`.
pub open spec fn key_position<K: TableKey, V>(entries: Seq<(K, V)>, id: K::Id) -> int {
    choose|i: int| 0 <= i < entries.len() && (#[trigger] entries[i]).0.id() == id
}

/// No key occurs twice.
pub open spec fn distinct_keys<K: TableKey, V>(entries: Seq<(K, V)>) -> bool {
    forall|i: int, j: int|
        0 <= i < j < entries.len() ==> (#[trigger] entries[i]).0.id() != (
        #[trigger] entries[j]).0.id()
}

/// The values of the entries by key.
pub open spec fn entry_map<K: TableKey, V>(entries: Seq<(K, V)>) -> Map<K::Id, V> {
    Map::new(
        |id: K::Id| has_key(entries, id),
        |id: K::Id| entries[key_position(entries, id)].1,
    )
}

/// An entry is what the map holds under its key.
pub proof fn lemma_entry<K: TableKey, V>(entries: Seq<(K, V)>, i: int)
    requires
        distinct_keys(entries),
        0 <= i < entries.len(),
    ensures
        entry_map(entries).contains_key(entries[i].0.id()),
        entry_map(entries)[entries[i].0.id()] == entries[i].1,
{
    let id = entries[i].0.id();
    assert(has_key(entries, id));
    let p = key_position(entries, id);
    assert(entries[p].0.id() == id);
    if p < i {
        assert(entries[p].0.id() != entries[i].0.id());
    }
    if i < p {
        assert(entries[i].0.id() != entries[p].0.id());
    }
}

proof fn lemma_push<K: TableKey, V>(entries: Seq<(K, V)>, entry: (K, V))
    requires
        distinct_keys(entries),
        !has_key(entries, entry.0.id()),
    ensures
        distinct_keys(entries.push(entry)),
        entry_map(entries.push(entry)) == entry_map(entries).insert(entry.0.id(), entry.1),
{
    let pushed = entries.push(entry);
    assert forall|i: int, j: int| 0 <= i < j < pushed.len() implies (#[trigger] pushed[i]).0.id()
        != (#[trigger] pushed[j]).0.id() by {
        if j == entries.len() {
            assert(pushed[i] == entries[i]);
        } else {
            assert(pushed[i] == entries[i] && pushed[j] == entries[j]);
        }
    }
    let left = entry_map(pushed);
    let right = entry_map(entries).insert(entry.0.id(), entry.1);
    assert forall|id: K::Id| left.contains_key(id) <==> right.contains_key(id) by {
        if has_key(pushed, id) {
            let i = key_position(pushed, id);
            if i < entries.len() {
                assert(entries[i].0.id() == id);
            }
        }
        if has_key(entries, id) {
            let i = key_position(entries, id);
            assert(pushed[i].0.id() == id);
        }
        assert(pushed[entries.len() as int].0.id() == entry.0.id());
    }
    assert forall|id: K::Id| left.contains_key(id) implies left[id] == right[id] by {
        let i = key_position(pushed, id);
        lemma_entry(pushed, i);
        if i < entries.len() {
            assert(entries[i] == pushed[i]);
            lemma_entry(entries, i);
            assert(pushed[i].0.id() != pushed[entries.len() as int].0.id());
        }
    }
    assert(left =~= right);
}

proof fn lemma_remove<K: TableKey, V>(entries: Seq<(K, V)>, at: int)
    requires
        distinct_keys(entries),
        0 <= at < entries.len(),
    ensures
        distinct_keys(entries.remove(at)),
        entry_map(entries.remove(at)) == entry_map(entries).remove(entries[at].0.id()),
{
    let rest = entries.remove(at);
    assert forall|i: int| 0 <= i < rest.len() implies #[trigger] rest[i] == entries[if i < at {
        i
    } else {
        i + 1
    }] by {}
    assert forall|i: int, j: int| 0 <= i < j < rest.len() implies (#[trigger] rest[i]).0.id() != (
    #[trigger] rest[j]).0.id() by {
        let a = if i < at { i } else { i + 1 };
        let b = if j < at { j } else { j + 1 };
        assert(entries[a].0.id() != entries[b].0.id());
    }
    let left = entry_map(rest);
    let right = entry_map(entries).remove(entries[at].0.id());
    assert forall|id: K::Id| left.contains_key(id) <==> right.contains_key(id) by {
        if has_key(rest, id) {
            let i = key_position(rest, id);
            let a = if i < at { i } else { i + 1 };
            assert(entries[a].0.id() == id);
            if a < at {
                assert(entries[a].0.id() != entries[at].0.id());
            } else {
                assert(entries[at].0.id() != entries[a].0.id());
            }
        }
        if has_key(entries, id) && id != entries[at].0.id() {
            let a = key_position(entries, id);
            let i = if a < at { a } else { a - 1 };
            assert(rest[i].0.id() == id);
        }
    }
    assert forall|id: K::Id| left.contains_key(id) implies left[id] == right[id] by {
        let i = key_position(rest, id);
        let a = if i < at { i } else { i + 1 };
        lemma_entry(rest, i);
        lemma_entry(entries, a);
    }
    assert(left =~= right);
}

/// A table has as many keys as entries.
pub proof fn lemma_len<K: TableKey, V>(entries: Seq<(K, V)>)
    requires
        distinct_keys(entries),
    ensures
        entry_map(entries).dom().finite(),
        entry_map(entries).len() == entries.len(),
    decreases entries.len(),
{
    if entries.len() == 0 {
        assert(entry_map(entries) =~= Map::<K::Id, V>::empty());
    } else {
        let rest = entries.drop_last();
        let last = entries.last();
        assert(entries =~= rest.push(last));
        assert forall|i: int, j: int| 0 <= i < j < rest.len() implies (#[trigger] rest[i]).0.id()
            != (#[trigger] rest[j]).0.id() by {
            assert(entries[i].0.id() != entries[j].0.id());
        }
        if has_key(rest, last.0.id()) {
            let i = key_position(rest, last.0.id());
            assert(entries[i].0.id() != entries[entries.len() - 1].0.id());
        }
        lemma_len(rest);
        lemma_push(rest, last);
        assert(!entry_map(rest).dom().contains(last.0.id()));
        assert(entry_map(entries).dom() =~= entry_map(rest).dom().insert(last.0.id()));
    }
}

/// Whether `id` is the identity of one of the keys.
pub open spec fn listed<K: TableKey>(keys: Seq<K>, id: K::Id) -> bool {
    exists|i: int| 0 <= i < keys.len() && (#[trigger] keys[i]).id() == id
}

/// The map without the keys `take`, and then with the entries `put`.
pub open spec fn changed<K: TableKey, V>(map: Map<K::Id, V>, take: Seq<K>, put: Seq<(K, V)>) -> Map<
    K::Id,
    V,
> {
    Map::new(
        |id: K::Id| has_key(put, id) || (map.contains_key(id) && !listed(take, id)),
        |id: K::Id|
            if has_key(put, id) {
                put[key_position(put, id)].1
            } else {
                map[id]
            },
    )
}

/// A change of a [`Table`]: keys that leave, then entries that come in.
pub struct TableChange<K: TableKey, V> {
    pub take: Vec<K>,
    pub put: Vec<(K, V)>,
}

impl<K: TableKey, V> TableChange<K, V> {
    /// What the change makes of a table.
    pub open spec fn applied(&self, map: Map<K::Id, V>) -> Map<K::Id, V> {
        changed(map, self.take@, self.put@)
    }

    /// The change that changes nothing.
    pub open spec fn is_none(&self) -> bool {
        self.take@.len() == 0 && self.put@.len() == 0
    }

    /// No change.
    pub fn none() -> (out: Self)
        ensures
            out.is_none(),
            distinct_keys(out.put@),
    {
        TableChange { take: Vec::new(), put: Vec::new() }
    }

    /// One entry comes in.
    pub fn put_one(key: K, value: V) -> (out: Self)
        ensures
            out.take@.len() == 0,
            out.put@ == seq![(key, value)],
            distinct_keys(out.put@),
    {
        let mut put: Vec<(K, V)> = Vec::new();
        put.push((key, value));
        assert(put@ =~= seq![(key, value)]);
        TableChange { take: Vec::new(), put }
    }

    /// One key leaves.
    pub fn take_one(key: K) -> (out: Self)
        ensures
            out.take@ == seq![key],
            out.put@.len() == 0,
            distinct_keys(out.put@),
    {
        let mut take: Vec<K> = Vec::new();
        take.push(key);
        assert(take@ =~= seq![key]);
        TableChange { take, put: Vec::new() }
    }
}

/// What bringing one entry in does.
pub proof fn lemma_put_one<K: TableKey, V>(map: Map<K::Id, V>, take: Seq<K>, entry: (K, V))
    requires
        take.len() == 0,
    ensures
        changed(map, take, seq![entry]) == map.insert(entry.0.id(), entry.1),
{
    let put = seq![entry];
    assert(put[0].0.id() == entry.0.id());
    assert(has_key(put, entry.0.id()));
    assert(changed(map, take, put) =~= map.insert(entry.0.id(), entry.1));
}

/// What taking one key out does.
pub proof fn lemma_take_one<K: TableKey, V>(map: Map<K::Id, V>, key: K, put: Seq<(K, V)>)
    requires
        put.len() == 0,
    ensures
        changed(map, seq![key], put) == map.remove(key.id()),
{
    let take = seq![key];
    assert(take[0].id() == key.id());
    assert(listed(take, key.id()));
    assert(changed(map, take, put) =~= map.remove(key.id()));
}

/// `undo` holds, as they were in `before`, the entries that the change has
/// touched.
spec fn restores<K: TableKey, V>(
    before: Map<K::Id, V>,
    undo: Seq<(K, V)>,
    take: Seq<K>,
    put: Seq<(K, V)>,
) -> bool {
    &&& forall|j: int|
        0 <= j < undo.len() ==> {
            let entry = #[trigger] undo[j];
            &&& before.contains_key(entry.0.id())
            &&& before[entry.0.id()] == entry.1
            &&& listed(take, entry.0.id()) || has_key(put, entry.0.id())
        }
    &&& forall|id: K::Id| #[trigger]
        before.contains_key(id) && (listed(take, id) || has_key(put, id)) ==> has_key(undo, id)
}

proof fn lemma_restores_step<K: TableKey, V>(
    before: Map<K::Id, V>,
    undo: Seq<(K, V)>,
    next: Seq<(K, V)>,
    id: K::Id,
    take: Seq<K>,
    put: Seq<(K, V)>,
    next_take: Seq<K>,
    next_put: Seq<(K, V)>,
)
    requires
        restores(before, undo, take, put),
        forall|x: K::Id|
            (#[trigger] listed(next_take, x) || has_key(next_put, x)) <==> (listed(take, x)
                || has_key(put, x) || x == id),
        next == undo && (before.contains_key(id) ==> has_key(undo, id)) || (next.len() == undo.len()
            + 1 && next.drop_last() == undo && next.last().0.id() == id && before.contains_key(id)
            && before[id] == next.last().1),
    ensures
        restores(before, next, next_take, next_put),
{
    assert forall|j: int| 0 <= j < next.len() implies {
        let entry = #[trigger] next[j];
        &&& before.contains_key(entry.0.id())
        &&& before[entry.0.id()] == entry.1
        &&& listed(next_take, entry.0.id()) || has_key(next_put, entry.0.id())
    } by {
        if j < undo.len() {
            assert(next[j] == undo[j]);
        }
    }
    assert forall|x: K::Id| #[trigger]
        before.contains_key(x) && (listed(next_take, x) || has_key(next_put, x)) implies has_key(
        next,
        x,
    ) by {
        if x == id && next.len() == undo.len() + 1 {
            assert(next[undo.len() as int].0.id() == x);
        } else {
            assert(has_key(undo, x));
            let j = key_position(undo, x);
            assert(next[j].0.id() == x);
        }
    }
}

proof fn lemma_listed_push<K: TableKey>(keys: Seq<K>, key: K)
    ensures
        forall|x: K::Id| #[trigger]
            listed(keys.push(key), x) <==> (listed(keys, x) || x == key.id()),
{
    let pushed = keys.push(key);
    assert forall|x: K::Id| #[trigger] listed(pushed, x) <==> (listed(keys, x) || x
        == key.id()) by {
        if listed(keys, x) {
            let j = choose|j: int| 0 <= j < keys.len() && (#[trigger] keys[j]).id() == x;
            assert(pushed[j].id() == x);
        }
        assert(pushed[keys.len() as int].id() == key.id());
        if listed(pushed, x) {
            let j = choose|j: int| 0 <= j < pushed.len() && (#[trigger] pushed[j]).id() == x;
            if j < keys.len() {
                assert(keys[j].id() == x);
            }
        }
    }
}

proof fn lemma_listed_step<K: TableKey>(keys: Seq<K>, i: int)
    requires
        0 <= i < keys.len(),
    ensures
        forall|x: K::Id| #[trigger]
            listed(keys.take(i + 1), x) <==> (listed(keys.take(i), x) || x == keys[i].id()),
{
    assert(keys.take(i + 1) =~= keys.take(i).push(keys[i]));
    lemma_listed_push(keys.take(i), keys[i]);
}

proof fn lemma_skip_step<K: TableKey, V>(put: Seq<(K, V)>, n: int)
    requires
        0 <= n < put.len(),
        distinct_keys(put),
    ensures
        forall|x: K::Id| #[trigger]
            has_key(put.skip(n), x) <==> (has_key(put.skip(n + 1), x) || x == put[n].0.id()),
        !has_key(put.skip(n + 1), put[n].0.id()),
        distinct_keys(put.skip(n)),
{
    let long = put.skip(n);
    let short = put.skip(n + 1);
    assert forall|x: K::Id| #[trigger] has_key(long, x) <==> (has_key(short, x) || x
        == put[n].0.id()) by {
        if has_key(short, x) {
            let j = key_position(short, x);
            assert(long[j + 1].0.id() == x);
        }
        assert(long[0].0.id() == put[n].0.id());
        if has_key(long, x) {
            let j = key_position(long, x);
            if j > 0 {
                assert(short[j - 1].0.id() == x);
            }
        }
    }
    if has_key(short, put[n].0.id()) {
        let j = key_position(short, put[n].0.id());
        assert(put[n].0.id() != put[n + 1 + j].0.id());
    }
    assert forall|i: int, j: int| 0 <= i < j < long.len() implies (#[trigger] long[i]).0.id() != (
    #[trigger] long[j]).0.id() by {
        assert(put[n + i].0.id() != put[n + j].0.id());
    }
}

proof fn lemma_changed_step<K: TableKey, V>(
    before: Map<K::Id, V>,
    take: Seq<K>,
    put: Seq<(K, V)>,
    n: int,
)
    requires
        0 <= n < put.len(),
        distinct_keys(put),
    ensures
        changed(before, take, put.skip(n)) == changed(before, take, put.skip(n + 1)).insert(
            put[n].0.id(),
            put[n].1,
        ),
{
    let long = put.skip(n);
    let short = put.skip(n + 1);
    lemma_skip_step(put, n);
    if n + 1 < put.len() {
        lemma_skip_step(put, n + 1);
    }
    let left = changed(before, take, long);
    let right = changed(before, take, short).insert(put[n].0.id(), put[n].1);
    assert forall|x: K::Id| left.contains_key(x) implies left[x] == right[x] by {
        if has_key(long, x) {
            let i = key_position(long, x);
            lemma_entry(long, i);
            if i == 0 {
                assert(long[0] == put[n]);
            } else {
                assert(long[i] == short[i - 1]);
                assert(has_key(short, x));
                lemma_entry(short, i - 1);
                if x == put[n].0.id() {
                    assert(long[0].0.id() != long[i].0.id());
                }
            }
        }
    }
    assert(left =~= right);
}

/// Whether no key occurs twice.
pub fn keys_differ<K: TableKey, V>(entries: &Vec<(K, V)>) -> (out: bool)
    ensures
        out == distinct_keys(entries@),
{
    let mut i: usize = 0;
    while i < entries.len()
        invariant
            i <= entries@.len(),
            forall|a: int, b: int|
                0 <= a < b < i ==> (#[trigger] entries@[a]).0.id() != (
                #[trigger] entries@[b]).0.id(),
        decreases entries@.len() - i,
    {
        let mut j: usize = 0;
        while j < i
            invariant
                j <= i < entries@.len(),
                forall|a: int|
                    0 <= a < j ==> (#[trigger] entries@[a]).0.id() != entries@[i as int].0.id(),
            decreases i - j,
        {
            if entries[j].0.same(&entries[i].0) {
                assert(entries@[j as int].0.id() == entries@[i as int].0.id());
                return false;
            }
            j += 1;
        }
        i += 1;
    }
    true
}

/// A map from keys to values.
pub struct Table<K: TableKey, V> {
    entries: Vec<(K, V)>,
}

impl<K: TableKey, V> View for Table<K, V> {
    type V = Map<K::Id, V>;

    closed spec fn view(&self) -> Map<K::Id, V> {
        entry_map(self.entries@)
    }
}

impl<K: TableKey, V> Table<K, V> {
    #[verifier::type_invariant]
    spec fn inv(self) -> bool {
        distinct_keys(self.entries@)
    }

    /// No entries.
    pub fn new() -> (out: Self)
        ensures
            out@ == Map::<K::Id, V>::empty(),
    {
        let entries: Vec<(K, V)> = Vec::new();
        assert(entry_map(entries@) =~= Map::<K::Id, V>::empty());
        Table { entries }
    }

    /// How many entries there are.
    pub fn len(&self) -> (out: usize)
        ensures
            out == self@.len(),
            self@.dom().finite(),
    {
        proof {
            use_type_invariant(self);
            lemma_len(self.entries@);
        }
        self.entries.len()
    }

    fn find(&self, key: &K) -> (out: Option<usize>)
        ensures
            out is Some <==> has_key(self.entries@, key.id()),
            out matches Some(i) ==> i < self.entries@.len() && self.entries@[i as int].0.id()
                == key.id(),
    {
        let mut i: usize = 0;
        while i < self.entries.len()
            invariant
                i <= self.entries@.len(),
                forall|j: int| 0 <= j < i ==> (#[trigger] self.entries@[j]).0.id() != key.id(),
            decreases self.entries@.len() - i,
        {
            if self.entries[i].0.same(key) {
                assert(self.entries@[i as int].0.id() == key.id());
                return Some(i);
            }
            i += 1;
        }
        None
    }

    /// Whether there is an entry for `key`.
    pub fn contains(&self, key: &K) -> (out: bool)
        ensures
            out == self@.contains_key(key.id()),
    {
        self.find(key).is_some()
    }

    /// The value for `key`, if there is one.
    pub fn get(&self, key: &K) -> (out: Option<&V>)
        ensures
            out is Some <==> self@.contains_key(key.id()),
            out matches Some(value) ==> *value == self@[key.id()],
    {
        proof {
            use_type_invariant(self);
        }
        match self.find(key) {
            Some(i) => {
                proof {
                    lemma_entry(self.entries@, i as int);
                }
                Some(&self.entries[i].1)
            },
            None => None,
        }
    }

    /// Takes the value for `key` out, if there is one.
    pub fn remove(&mut self, key: &K) -> (out: Option<V>)
        ensures
            final(self)@ == old(self)@.remove(key.id()),
            out is Some <==> old(self)@.contains_key(key.id()),
            out matches Some(value) ==> value == old(self)@[key.id()],
    {
        match self.remove_entry(key) {
            Some(entry) => Some(entry.1),
            None => None,
        }
    }

    /// Takes the entry for `key` out, if there is one.
    pub fn remove_entry(&mut self, key: &K) -> (out: Option<(K, V)>)
        ensures
            final(self)@ == old(self)@.remove(key.id()),
            out is Some <==> old(self)@.contains_key(key.id()),
            out matches Some(entry) ==> entry.0.id() == key.id() && entry.1
                == old(self)@[key.id()],
    {
        proof {
            use_type_invariant(&*self);
        }
        let ghost before = self.entries@;
        match self.find(key) {
            Some(i) => {
                proof {
                    lemma_remove(before, i as int);
                    lemma_entry(before, i as int);
                }
                let mut entries: Vec<(K, V)> = Vec::new();
                core::mem::swap(&mut entries, &mut self.entries);
                let taken = entries.remove(i);
                self.entries = entries;
                Some(taken)
            },
            None => {
                assert(entry_map(before) =~= entry_map(before).remove(key.id()));
                None
            },
        }
    }

    /// Puts a value in for `key`, in place of one that was there.
    pub fn insert(&mut self, key: K, value: V)
        ensures
            final(self)@ == old(self)@.insert(key.id(), value),
    {
        let ghost before = self@;
        let _previous = self.remove(&key);
        proof {
            use_type_invariant(&*self);
        }
        let ghost middle = self.entries@;
        let ghost id = key.id();
        assert(!entry_map(middle).contains_key(id));
        proof {
            lemma_push(middle, (key, value));
            assert(entry_map(middle).insert(id, value) =~= before.insert(id, value));
        }
        let mut entries: Vec<(K, V)> = Vec::new();
        core::mem::swap(&mut entries, &mut self.entries);
        entries.push((key, value));
        self.entries = entries;
    }

    /// Makes a change and says how to undo it.
    pub fn apply(&mut self, change: TableChange<K, V>) -> (undo: TableChange<K, V>)
        requires
            distinct_keys(change.put@),
        ensures
            final(self)@ == change.applied(old(self)@),
            distinct_keys(undo.put@),
            undo.applied(final(self)@) == old(self)@,
    {
        let ghost before = self@;
        let take = change.take;
        let mut put = change.put;
        let ghost all_put = put@;
        let ghost none = Seq::<(K, V)>::empty();
        let mut undo_take: Vec<K> = Vec::new();
        let mut undo_put: Vec<(K, V)> = Vec::new();
        let mut i: usize = 0;
        assert(changed(before, take@.take(0), none) =~= before);
        while i < take.len()
            invariant
                i <= take@.len(),
                none == Seq::<(K, V)>::empty(),
                self@ == changed(before, take@.take(i as int), none),
                distinct_keys(undo_put@),
                restores(before, undo_put@, take@.take(i as int), none),
            decreases take@.len() - i,
        {
            let ghost id = take@[i as int].id();
            let ghost earlier = self@;
            let ghost undo_before = undo_put@;
            proof {
                lemma_listed_step(take@, i as int);
            }
            match self.remove_entry(&take[i]) {
                Some(entry) => {
                    proof {
                        lemma_push(undo_before, entry);
                    }
                    undo_put.push(entry);
                    assert(undo_put@.drop_last() =~= undo_before);
                },
                None => {},
            }
            proof {
                lemma_restores_step(
                    before,
                    undo_before,
                    undo_put@,
                    id,
                    take@.take(i as int),
                    none,
                    take@.take(i + 1),
                    none,
                );
            }
            assert(changed(before, take@.take(i + 1), none) =~= earlier.remove(id));
            i += 1;
        }
        assert(take@.take(i as int) =~= take@);
        assert(all_put.skip(all_put.len() as int) =~= none);
        while put.len() > 0
            invariant
                put@.len() <= all_put.len(),
                put@ == all_put.take(put@.len() as int),
                distinct_keys(all_put),
                self@ == changed(before, take@, all_put.skip(put@.len() as int)),
                distinct_keys(undo_put@),
                restores(before, undo_put@, take@, all_put.skip(put@.len() as int)),
                forall|x: K::Id| #[trigger]
                    listed(undo_take@, x) <==> has_key(all_put.skip(put@.len() as int), x),
            decreases put@.len(),
        {
            let ghost n = put@.len() - 1;
            let ghost earlier = self@;
            let ghost undo_before = undo_put@;
            let ghost take_before = undo_take@;
            match put.pop() {
                Some(entry) => {
                    let ghost id = entry.0.id();
                    assert(entry == all_put[n]);
                    assert(put@ =~= all_put.take(n));
                    proof {
                        lemma_skip_step(all_put, n);
                    }
                    undo_take.push(entry.0.duplicate());
                    proof {
                        lemma_listed_push(take_before, undo_take@[take_before.len() as int]);
                        assert(undo_take@ =~= take_before.push(
                            undo_take@[take_before.len() as int],
                        ));
                    }
                    match self.remove_entry(&entry.0) {
                        Some(old_entry) => {
                            proof {
                                lemma_push(undo_before, old_entry);
                            }
                            undo_put.push(old_entry);
                            assert(undo_put@.drop_last() =~= undo_before);
                        },
                        None => {},
                    }
                    proof {
                        lemma_restores_step(
                            before,
                            undo_before,
                            undo_put@,
                            id,
                            take@,
                            all_put.skip(n + 1),
                            take@,
                            all_put.skip(n),
                        );
                    }
                    self.insert(entry.0, entry.1);
                    proof {
                        lemma_changed_step(before, take@, all_put, n);
                        assert(self@ =~= changed(before, take@, all_put.skip(n)));
                    }
                },
                None => {},
            }
        }
        assert(all_put.skip(0) =~= all_put);
        let undo = TableChange { take: undo_take, put: undo_put };
        assert forall|x: K::Id| #[trigger]
            undo.applied(self@).contains_key(x) <==> before.contains_key(x) by {
            if has_key(undo.put@, x) {
                let j = key_position(undo.put@, x);
                assert(undo.put@[j].0.id() == x);
            }
        }
        assert forall|x: K::Id| #[trigger] before.contains_key(x) implies undo.applied(self@)[x]
            == before[x] by {
            if has_key(undo.put@, x) {
                let j = key_position(undo.put@, x);
                assert(undo.put@[j].0.id() == x);
            }
        }
        assert(undo.applied(self@) =~= before);
        undo
    }

    /// A copy, made by copying each value.
    pub fn duplicate(&self) -> (out: Self) where V: Clone
        ensures
            out@.dom() == self@.dom(),
            forall|id: K::Id| #[trigger]
                self@.contains_key(id) ==> cloned::<V>(self@[id], out@[id]),
    {
        proof {
            use_type_invariant(self);
        }
        let mut entries: Vec<(K, V)> = Vec::with_capacity(self.entries.len());
        let mut i: usize = 0;
        while i < self.entries.len()
            invariant
                i <= self.entries@.len(),
                entries@.len() == i,
                distinct_keys(self.entries@),
                forall|j: int|
                    0 <= j < i ==> {
                        &&& (#[trigger] entries@[j]).0.id() == self.entries@[j].0.id()
                        &&& cloned::<V>(self.entries@[j].1, entries@[j].1)
                    },
            decreases self.entries@.len() - i,
        {
            let entry = &self.entries[i];
            entries.push((entry.0.duplicate(), entry.1.clone()));
            i += 1;
        }
        assert forall|a: int, b: int| 0 <= a < b < entries@.len() implies (
        #[trigger] entries@[a]).0.id() != (#[trigger] entries@[b]).0.id() by {
            assert(self.entries@[a].0.id() != self.entries@[b].0.id());
        }
        assert forall|id: K::Id| #[trigger]
            entry_map(entries@).contains_key(id) <==> self@.contains_key(id) by {
            if has_key(entries@, id) {
                let j = key_position(entries@, id);
                assert(self.entries@[j].0.id() == id);
            }
            if has_key(self.entries@, id) {
                let j = key_position(self.entries@, id);
                assert(entries@[j].0.id() == id);
            }
        }
        assert forall|id: K::Id| #[trigger] self@.contains_key(id) implies cloned::<V>(
            self@[id],
            entry_map(entries@)[id],
        ) by {
            let j = key_position(self.entries@, id);
            lemma_entry(self.entries@, j);
            assert(entries@[j].0.id() == id);
            lemma_entry(entries@, j);
        }
        assert(entry_map(entries@).dom() =~= self@.dom());
        Table { entries }
    }

    /// Keeps the entries whose value `keep` accepts.
    pub fn retain<F: Fn(&V) -> bool>(&mut self, keep: F)
        requires
            forall|value: &V| #[trigger] call_requires(keep, (value,)),
        ensures
            forall|id: K::Id| #[trigger]
                final(self)@.contains_key(id) ==> old(self)@.contains_key(id) && final(self)@[id]
                    == old(self)@[id] && call_ensures(keep, (&old(self)@[id],), true),
            forall|id: K::Id| #[trigger]
                old(self)@.contains_key(id) && !final(self)@.contains_key(id) ==> call_ensures(
                    keep,
                    (&old(self)@[id],),
                    false,
                ),
    {
        proof {
            use_type_invariant(&*self);
        }
        let ghost before = self@;
        let mut entries: Vec<(K, V)> = Vec::new();
        core::mem::swap(&mut entries, &mut self.entries);
        let mut i: usize = 0;
        while i < entries.len()
            invariant
                i <= entries@.len(),
                distinct_keys(entries@),
                forall|value: &V| #[trigger] call_requires(keep, (value,)),
                forall|id: K::Id| #[trigger]
                    entry_map(entries@).contains_key(id) ==> before.contains_key(id) && entry_map(
                        entries@,
                    )[id] == before[id],
                forall|id: K::Id| #[trigger]
                    before.contains_key(id) && !entry_map(entries@).contains_key(id)
                        ==> call_ensures(keep, (&before[id],), false),
                forall|j: int|
                    0 <= j < i ==> call_ensures(keep, (&(#[trigger] entries@[j]).1,), true),
            decreases entries@.len() - i,
        {
            proof {
                lemma_entry(entries@, i as int);
            }
            if keep(&entries[i].1) {
                i += 1;
            } else {
                proof {
                    lemma_remove(entries@, i as int);
                }
                let _dropped = entries.remove(i);
            }
        }
        assert forall|id: K::Id| #[trigger] entry_map(entries@).contains_key(id) implies call_ensures(
            keep,
            (&before[id],),
            true,
        ) by {
            let j = key_position(entries@, id);
            lemma_entry(entries@, j);
            assert(call_ensures(keep, (&entries@[j].1,), true));
        }
        self.entries = entries;
    }

    /// Whether there are no entries.
    pub fn is_empty(&self) -> (out: bool)
        ensures
            out == (self@ == Map::<K::Id, V>::empty()),
    {
        proof {
            use_type_invariant(self);
            if self.entries@.len() > 0 {
                lemma_entry(self.entries@, 0);
            } else {
                assert(self@ =~= Map::<K::Id, V>::empty());
            }
        }
        self.entries.len() == 0
    }

    /// The entries, taken out, in no particular order.
    pub fn into_entries(self) -> (out: Vec<(K, V)>)
        ensures
            distinct_keys(out@),
            entry_map(out@) == self@,
    {
        proof {
            use_type_invariant(&self);
        }
        self.entries
    }

    /// The entries, in no particular order.
    pub fn entries(&self) -> (out: &Vec<(K, V)>)
        ensures
            distinct_keys(out@),
            entry_map(out@) == self@,
    {
        proof {
            use_type_invariant(self);
        }
        &self.entries
    }
}

} // verus!
