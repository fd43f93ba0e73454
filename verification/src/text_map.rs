//! Maps from texts to values.
use vstd::prelude::*;
use crate::text;
use crate::text::insert_ordered;

verus! {

/// A map whose keys are texts, in the order in which they were added.
#[derive(Debug, PartialEq, Eq)]
#[verifier::reject_recursive_types(V)]
pub struct TextMap<V> {
    entries: Vec<(String, V)>,
}

/// The position of a key.
spec fn position<V>(entries: Seq<(String, V)>, key: Seq<char>) -> int {
    choose|i: int| 0 <= i < entries.len() && (#[trigger] entries[i]).0@ == key
}

/// Whether a key is there.
spec fn occurs<V>(entries: Seq<(String, V)>, key: Seq<char>) -> bool {
    exists|i: int| 0 <= i < entries.len() && (#[trigger] entries[i]).0@ == key
}

spec fn distinct<V>(entries: Seq<(String, V)>) -> bool {
    forall|i: int, j: int|
        0 <= i < entries.len() && 0 <= j < entries.len() && (#[trigger] entries[i]).0@ == (
        #[trigger] entries[j]).0@ ==> i == j
}

spec fn as_map<V>(entries: Seq<(String, V)>) -> Map<Seq<char>, V> {
    Map::new(|k: Seq<char>| occurs(entries, k), |k: Seq<char>| entries[position(entries, k)].1)
}

impl<V> View for TextMap<V> {
    type V = Map<Seq<char>, V>;

    closed spec fn view(&self) -> Map<Seq<char>, V> {
        as_map(self.entries@)
    }
}

impl<V> TextMap<V> {
    #[verifier::type_invariant]
    spec fn keys_are_distinct(self) -> bool {
        distinct(self.entries@)
    }

    /// The map without keys.
    pub fn new() -> (r: Self)
        ensures
            r@ == Map::<Seq<char>, V>::empty(),
    {
        let r = TextMap { entries: Vec::new() };
        assert(as_map(r.entries@) =~= Map::empty());
        r
    }

    /// The number of entries that were added.
    pub closed spec fn spec_len(&self) -> nat {
        self.entries@.len()
    }

    /// The key of the entry at a position.
    pub closed spec fn key(&self, i: int) -> Seq<char> {
        self.entries@[i].0@
    }

    /// The number of keys.
    pub fn len(&self) -> (r: usize)
        ensures
            r == self.spec_len(),
    {
        self.entries.len()
    }

    /// Whether there is no key.
    pub fn is_empty(&self) -> (r: bool)
        ensures
            r == (self@.dom() =~= Set::empty()),
    {
        if self.entries.len() == 0 {
            assert(self@.dom() =~= Set::empty());
            true
        } else {
            assert(occurs(self.entries@, self.entries@[0].0@));
            assert(self@.dom().contains(self.entries@[0].0@));
            false
        }
    }

    /// The key at a position.
    pub fn key_at(&self, i: usize) -> (r: &str)
        requires
            i < self.spec_len(),
        ensures
            r@ == self.key(i as int),
            self@.contains_key(r@),
    {
        assert(occurs(self.entries@, self.entries@[i as int].0@));
        self.entries[i].0.as_str()
    }

    /// The value at a position.
    pub fn value_at(&self, i: usize) -> (r: &V)
        requires
            i < self.spec_len(),
        ensures
            self@.contains_key(self.key(i as int)),
            *r == self@[self.key(i as int)],
    {
        proof {
            use_type_invariant(self);
            let key = self.entries@[i as int].0@;
            assert(occurs(self.entries@, key));
            assert(self.entries@[position(self.entries@, key)].0@ == key);
        }
        &self.entries[i].1
    }

    /// The keys are those at the positions.
    pub proof fn keys_cover(&self, key: Seq<char>)
        ensures
            self@.contains_key(key) <==> exists|i: int|
                0 <= i < self.spec_len() && #[trigger] self.key(i) == key,
    {
        if self@.contains_key(key) {
            let i = position(self.entries@, key);
            assert(self.key(i) == key);
        }
        if exists|i: int| 0 <= i < self.spec_len() && #[trigger] self.key(i) == key {
            let i = choose|i: int| 0 <= i < self.spec_len() && #[trigger] self.key(i) == key;
            assert(self.entries@[i].0@ == key);
        }
    }

    fn find(&self, key: &str) -> (r: Option<usize>)
        ensures
            match r {
                Some(i) => i < self.entries.len() && self.entries@[i as int].0@ == key@
                    && position(self.entries@, key@) == i && occurs(self.entries@, key@),
                None => !occurs(self.entries@, key@),
            },
    {
        proof {
            use_type_invariant(self);
        }
        let mut i: usize = 0;
        while i < self.entries.len()
            invariant
                0 <= i <= self.entries.len(),
                distinct(self.entries@),
                forall|j: int| 0 <= j < i ==> (#[trigger] self.entries@[j]).0@ != key@,
            decreases self.entries.len() - i,
        {
            if crate::text::same_text(self.entries[i].0.as_str(), key) {
                assert(self.entries@[i as int].0@ == key@);
                assert(self.entries@[position(self.entries@, key@)].0@ == key@);
                return Some(i);
            }
            i += 1;
        }
        None
    }

    /// The value of a key.
    pub fn get(&self, key: &str) -> (r: Option<&V>)
        ensures
            match r {
                Some(value) => self@.contains_key(key@) && *value == self@[key@],
                None => !self@.contains_key(key@),
            },
    {
        match self.find(key) {
            Some(i) => Some(&self.entries[i].1),
            None => None,
        }
    }

    /// Whether a key is there.
    pub fn has(&self, key: &str) -> (r: bool)
        ensures
            r == self@.contains_key(key@),
    {
        self.find(key).is_some()
    }

    /// Gives a key a value.
    pub fn insert(&mut self, key: String, value: V)
        ensures
            final(self)@ == old(self)@.insert(key@, value),
    {
        proof {
            use_type_invariant(&*self);
        }
        let found = self.find(key.as_str());
        let mut entries: Vec<(String, V)> = Vec::new();
        std::mem::swap(&mut entries, &mut self.entries);
        let ghost before = entries@;
        match found {
            Some(i) => {
                entries.set(i, (key, value));
                assert forall|k: Seq<char>|
                    occurs(entries@, k) == occurs(before, k) && (occurs(before, k) ==> position(
                        entries@,
                        k,
                    ) == position(before, k)) by {
                    if occurs(before, k) {
                        let p = position(before, k);
                        assert(entries@[p].0@ == k);
                    }
                    if occurs(entries@, k) {
                        let p = position(entries@, k);
                        assert(before[p].0@ == k);
                    }
                }
            },
            None => {
                entries.push((key, value));
                assert forall|k: Seq<char>|
                    occurs(entries@, k) == (occurs(before, k) || k == key@) by {
                    if occurs(before, k) {
                        assert(entries@[position(before, k)].0@ == k);
                    }
                    if k == key@ {
                        assert(entries@[before.len() as int].0@ == k);
                    }
                    if occurs(entries@, k) {
                        let p = position(entries@, k);
                        if p < before.len() {
                            assert(before[p].0@ == k);
                        }
                    }
                }
                assert(distinct(entries@)) by {
                    assert forall|i: int, j: int|
                        0 <= i < entries@.len() && 0 <= j < entries@.len() && (
                        #[trigger] entries@[i]).0@ == (#[trigger] entries@[j]).0@ implies i == j by {
                        if i < before.len() && j < before.len() {
                            assert(before[i].0@ == before[j].0@);
                        } else if i < before.len() {
                            assert(before[i].0@ == key@);
                        } else if j < before.len() {
                            assert(before[j].0@ == key@);
                        }
                    }
                }
                assert forall|k: Seq<char>| occurs(before, k) implies position(entries@, k)
                    == position(before, k) by {
                    assert(entries@[position(before, k)].0@ == k);
                    assert(entries@[position(entries@, k)].0@ == k);
                }
                assert(entries@[before.len() as int].0@ == key@);
                assert(entries@[position(entries@, key@)].0@ == key@);
            },
        }
        assert(as_map(entries@) =~= as_map(before).insert(key@, value));
        self.entries = entries;
    }

    /// Takes a key out, with its value.
    pub fn remove(&mut self, key: &str) -> (r: Option<V>)
        ensures
            final(self)@ == old(self)@.remove(key@),
            match r {
                Some(value) => old(self)@.contains_key(key@) && value == old(self)@[key@],
                None => !old(self)@.contains_key(key@),
            },
    {
        proof {
            use_type_invariant(&*self);
        }
        let found = self.find(key);
        match found {
            Some(i) => {
                let mut entries: Vec<(String, V)> = Vec::new();
                std::mem::swap(&mut entries, &mut self.entries);
                let ghost before = entries@;
                let (_, value) = entries.remove(i);
                assert(distinct(entries@)) by {
                    assert forall|a: int, b: int|
                        0 <= a < entries@.len() && 0 <= b < entries@.len() && (
                        #[trigger] entries@[a]).0@ == (#[trigger] entries@[b]).0@ implies a == b by {
                        let x = if a < i { a } else { a + 1 };
                        let y = if b < i { b } else { b + 1 };
                        assert(before[x].0@ == before[y].0@);
                    }
                }
                assert forall|k: Seq<char>| occurs(entries@, k) == (occurs(before, k) && k != key@) by {
                    if occurs(entries@, k) {
                        let p = position(entries@, k);
                        let q = if p < i { p } else { p + 1 };
                        assert(before[q].0@ == k);
                    }
                    if occurs(before, k) && k != key@ {
                        let q = position(before, k);
                        let p = if q < i { q } else { q - 1 };
                        assert(entries@[p].0@ == k);
                    }
                }
                assert forall|k: Seq<char>| occurs(before, k) && k != key@ implies entries@[position(
                    entries@,
                    k,
                )].1 == before[position(before, k)].1 by {
                    let q = position(before, k);
                    let p = if q < i { q } else { q - 1 };
                    assert(entries@[p].0@ == k);
                    assert(entries@[position(entries@, k)].0@ == k);
                }
                assert(as_map(entries@) =~= as_map(before).remove(key@));
                self.entries = entries;
                Some(value)
            },
            None => {
                assert(self@ =~= self@.remove(key@));
                None
            },
        }
    }
}

impl<V: Clone> Clone for TextMap<V> {
    fn clone(&self) -> (r: Self)
        ensures
            r.spec_len() == self.spec_len(),
            forall|i: int| 0 <= i < self.spec_len() ==> #[trigger] r.key(i) == self.key(i),
    {
        proof {
            use_type_invariant(self);
        }
        let mut entries: Vec<(String, V)> = Vec::new();
        let mut i: usize = 0;
        while i < self.entries.len()
            invariant
                0 <= i <= self.entries.len(),
                entries.len() == i,
                distinct(self.entries@),
                forall|j: int| 0 <= j < i ==> (#[trigger] entries@[j]).0@ == self.entries@[j].0@,
            decreases self.entries.len() - i,
        {
            entries.push((self.entries[i].0.clone(), self.entries[i].1.clone()));
            i += 1;
        }
        assert(distinct(entries@)) by {
            assert forall|a: int, b: int|
                0 <= a < entries@.len() && 0 <= b < entries@.len() && (#[trigger] entries@[a]).0@
                    == (#[trigger] entries@[b]).0@ implies a == b by {
                assert(self.entries@[a].0@ == self.entries@[b].0@);
            }
        }
        TextMap { entries }
    }
}

/// The contents of a map of texts.
pub open spec fn texts(map: Map<Seq<char>, String>) -> Map<Seq<char>, Seq<char>> {
    map.map_values(|s: String| s@)
}

/// Gives a key a text.
pub fn put_text(map: &mut TextMap<String>, key: &str, value: &str)
    ensures
        texts(final(map)@) == texts(old(map)@).insert(key@, value@),
{
    map.insert(key.to_owned(), value.to_owned());
    assert(texts(map@) =~= texts(old(map)@).insert(key@, value@));
}

/// Takes a key out.
pub fn drop_text(map: &mut TextMap<String>, key: &str)
    ensures
        texts(final(map)@) == texts(old(map)@).remove(key@),
{
    let _ = map.remove(key);
    assert(texts(map@) =~= texts(old(map)@).remove(key@));
}

/// The text of a key.
pub open spec fn text_at(map: Map<Seq<char>, Seq<char>>, key: Seq<char>) -> Option<Seq<char>> {
    if map.contains_key(key) {
        Some(map[key])
    } else {
        None
    }
}

/// The text of a key, as a value of its own.
pub fn lookup(map: &TextMap<String>, key: &str) -> (r: Option<String>)
    ensures
        crate::text::opt_view(r) == text_at(texts(map@), key@),
{
    match map.get(key) {
        Some(value) => Some(value.clone()),
        None => None,
    }
}

/// A second map with the same texts.
pub fn copy_map(map: &TextMap<String>) -> (r: TextMap<String>)
    ensures
        r@ == map@,
{
    proof {
        use_type_invariant(map);
    }
    let mut r: TextMap<String> = TextMap::new();
    let mut i: usize = 0;
    assert(as_map(map.entries@.take(0)) =~= Map::empty());
    while i < map.entries.len()
        invariant
            0 <= i <= map.entries.len(),
            r@ == as_map(map.entries@.take(i as int)),
            distinct(map.entries@),
        decreases map.entries.len() - i,
    {
        proof {
            lemma_take_one_more(map.entries@, i as int);
        }
        r.insert(map.entries[i].0.clone(), map.entries[i].1.clone());
        i += 1;
    }
    assert(map.entries@.take(i as int) =~= map.entries@);
    r
}

/// A list of the keys of a map, in increasing order.
pub open spec fn is_sorted_keys(list: Seq<Seq<char>>, map: Map<Seq<char>, Seq<char>>) -> bool {
    &&& text::increasing(list)
    &&& forall|k: Seq<char>| #[trigger] list.contains(k) <==> map.contains_key(k)
}

/// The keys of a map, in increasing order.
pub open spec fn sorted_keys(map: Map<Seq<char>, Seq<char>>) -> Seq<Seq<char>> {
    choose|list: Seq<Seq<char>>| is_sorted_keys(list, map)
}

/// A list in increasing order with one more text.
spec fn with_text(list: Seq<Seq<char>>, text: Seq<char>) -> Seq<Seq<char>>
    decreases list.len(),
{
    if list.len() == 0 || text::text_less(text, list[0]) {
        seq![text] + list
    } else {
        seq![list[0]] + with_text(list.skip(1), text)
    }
}

proof fn lemma_with_text(list: Seq<Seq<char>>, text: Seq<char>)
    requires
        text::increasing(list),
        !list.contains(text),
    ensures
        text::increasing(with_text(list, text)),
        forall|k: Seq<char>| #[trigger]
            with_text(list, text).contains(k) <==> list.contains(k) || k == text,
    decreases list.len(),
{
    let now = with_text(list, text);
    if list.len() == 0 || text::text_less(text, list[0]) {
        assert forall|i: int, j: int| 0 <= i < j < now.len() implies text::text_less(
            #[trigger] now[i],
            #[trigger] now[j],
        ) by {
            assert(now[j] == list[j - 1]);
            if i == 0 {
                if j > 1 {
                    text::lemma_text_less_transitive(text, list[0], list[j - 1]);
                }
            } else {
                assert(now[i] == list[i - 1]);
            }
        }
        assert forall|k: Seq<char>| #[trigger] now.contains(k) <==> list.contains(k) || k == text by {
            if list.contains(k) {
                let i = choose|i: int| 0 <= i < list.len() && list[i] == k;
                assert(now[i + 1] == k);
            }
            if k == text {
                assert(now[0] == k);
            }
            if now.contains(k) {
                let i = choose|i: int| 0 <= i < now.len() && now[i] == k;
                if i > 0 {
                    assert(list[i - 1] == k);
                }
            }
        }
    } else {
        let rest = list.skip(1);
        assert(list.contains(list[0]));
        text::lemma_text_less_total(text, list[0]);
        assert forall|i: int, j: int| 0 <= i < j < rest.len() implies text::text_less(
            #[trigger] rest[i],
            #[trigger] rest[j],
        ) by {
            assert(text::text_less(list[i + 1], list[j + 1]));
        }
        assert(!rest.contains(text)) by {
            if rest.contains(text) {
                let i = choose|i: int| 0 <= i < rest.len() && rest[i] == text;
                assert(list[i + 1] == text);
            }
        }
        lemma_with_text(rest, text);
        let after = with_text(rest, text);
        assert forall|i: int, j: int| 0 <= i < j < now.len() implies text::text_less(
            #[trigger] now[i],
            #[trigger] now[j],
        ) by {
            assert(now[j] == after[j - 1]);
            if i == 0 {
                assert(after.contains(after[j - 1]));
                if after[j - 1] != text {
                    assert(rest.contains(after[j - 1]));
                    let m = choose|m: int| 0 <= m < rest.len() && rest[m] == after[j - 1];
                    assert(list[m + 1] == after[j - 1]);
                    assert(text::text_less(list[0], list[m + 1]));
                }
            } else {
                assert(now[i] == after[i - 1]);
            }
        }
        assert forall|k: Seq<char>| #[trigger] now.contains(k) <==> list.contains(k) || k == text by {
            if list.contains(k) {
                let i = choose|i: int| 0 <= i < list.len() && list[i] == k;
                if i == 0 {
                    assert(now[0] == k);
                } else {
                    assert(rest[i - 1] == k);
                    assert(after.contains(k));
                }
            }
            if k == text {
                assert(after.contains(k));
            }
            if after.contains(k) {
                let i = choose|i: int| 0 <= i < after.len() && after[i] == k;
                assert(now[i + 1] == k);
                if k != text {
                    assert(rest.contains(k));
                    let m = choose|m: int| 0 <= m < rest.len() && rest[m] == k;
                    assert(list[m + 1] == k);
                }
            }
            if now.contains(k) {
                let i = choose|i: int| 0 <= i < now.len() && now[i] == k;
                if i > 0 {
                    assert(after[i - 1] == k);
                    assert(after.contains(k));
                }
            }
        }
    }
}

proof fn lemma_sorted_exists(map: Map<Seq<char>, Seq<char>>) -> (list: Seq<Seq<char>>)
    requires
        map.dom().finite(),
    ensures
        is_sorted_keys(list, map),
    decreases map.dom().len(),
{
    if map.dom() =~= Set::empty() {
        let list: Seq<Seq<char>> = Seq::empty();
        assert forall|k: Seq<char>| #[trigger] list.contains(k) <==> map.contains_key(k) by {
            assert(map.dom().contains(k) == Set::<Seq<char>>::empty().contains(k));
        }
        list
    } else {
        let key = map.dom().choose();
        let rest = map.remove(key);
        assert(rest.dom() =~= map.dom().remove(key));
        let before = lemma_sorted_exists(rest);
        assert(!before.contains(key));
        lemma_with_text(before, key);
        let list = with_text(before, key);
        assert forall|k: Seq<char>| #[trigger] list.contains(k) <==> map.contains_key(k) by {
            assert(before.contains(k) <==> rest.contains_key(k));
        }
        list
    }
}

/// The keys of a finite map can be put in increasing order.
pub proof fn lemma_sorted_keys(map: Map<Seq<char>, Seq<char>>)
    requires
        map.dom().finite(),
    ensures
        is_sorted_keys(sorted_keys(map), map),
{
    let list = lemma_sorted_exists(map);
    assert(is_sorted_keys(list, map));
}

/// The keys of a map, in increasing order.
pub fn keys_of<V>(map: &TextMap<V>) -> (r: Vec<String>)
    ensures
        text::increasing(text::views(r@)),
        forall|k: Seq<char>| #[trigger] text::views(r@).contains(k) <==> map@.contains_key(k),
{
    let mut r: Vec<String> = Vec::new();
    let mut i: usize = 0;
    assert(text::views(r@) =~= Seq::empty());
    while i < map.len()
        invariant
            0 <= i <= map.spec_len(),
            text::increasing(text::views(r@)),
            forall|k: Seq<char>| #[trigger]
                text::views(r@).contains(k) <==> exists|j: int| 0 <= j < i && #[trigger] map.key(j) == k,
        decreases map.spec_len() - i,
    {
        let ghost before = text::views(r@);
        insert_ordered(&mut r, map.key_at(i));
        assert forall|k: Seq<char>| #[trigger] text::views(r@).contains(k) <==> exists|j: int|
            0 <= j < i + 1 && #[trigger] map.key(j) == k by {
            if text::views(r@).contains(k) {
                if before.contains(k) {
                    let j = choose|j: int| 0 <= j < i && #[trigger] map.key(j) == k;
                    assert(0 <= j < i + 1 && map.key(j) == k);
                } else {
                    assert(map.key(i as int) == k);
                }
            }
            if exists|j: int| 0 <= j < i + 1 && #[trigger] map.key(j) == k {
                let j = choose|j: int| 0 <= j < i + 1 && #[trigger] map.key(j) == k;
                if j < i {
                    assert(before.contains(k));
                }
            }
        }
        i += 1;
    }
    assert forall|k: Seq<char>| #[trigger] text::views(r@).contains(k) <==> map@.contains_key(k) by {
        map.keys_cover(k);
    }
    r
}

/// The keys of a map of texts, in increasing order.
pub fn names_of(map: &TextMap<String>) -> (r: Vec<String>)
    ensures
        is_sorted_keys(text::views(r@), texts(map@)),
        text::views(r@) == sorted_keys(texts(map@)),
{
    let r = keys_of(map);
    assert(is_sorted_keys(text::views(r@), texts(map@)));
    proof {
        text::lemma_increasing_unique(text::views(r@), sorted_keys(texts(map@)));
    }
    r
}

proof fn lemma_take_one_more(entries: Seq<(String, String)>, i: int)
    requires
        0 <= i < entries.len(),
        distinct(entries),
    ensures
        as_map(entries.take(i + 1)) == as_map(entries.take(i)).insert(entries[i].0@, entries[i].1),
{
    let now = entries.take(i);
    let next = entries.take(i + 1);
    assert forall|k: Seq<char>| occurs(next, k) == (occurs(now, k) || k == entries[i].0@) by {
        if occurs(now, k) {
            assert(next[position(now, k)].0@ == k);
        }
        if k == entries[i].0@ {
            assert(next[i].0@ == k);
        }
        if occurs(next, k) {
            let p = position(next, k);
            if p < i {
                assert(now[p].0@ == k);
            }
        }
    }
    assert forall|k: Seq<char>| occurs(now, k) && k != entries[i].0@ implies next[position(
        next,
        k,
    )].1 == now[position(now, k)].1 by {
        let p = position(now, k);
        assert(next[p].0@ == k);
        let q = position(next, k);
        assert(next[q].0@ == k);
        assert(entries[p].0@ == entries[q].0@);
    }
    assert(next[i].0@ == entries[i].0@);
    let q = position(next, entries[i].0@);
    assert(next[q].0@ == entries[i].0@);
    assert(entries[q].0@ == entries[i].0@);
    assert(as_map(next) =~= as_map(now).insert(entries[i].0@, entries[i].1));
}

} // verus!
