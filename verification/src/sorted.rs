//! Sets and maps keyed by strings, kept in ascending order of their keys.

use crate::text::{same, texts};
use vstd::prelude::*;

verus! {

/// Dictionary order, character by character.
pub open spec fn before(a: Seq<char>, b: Seq<char>) -> bool
    decreases a.len(),
{
    if b.len() == 0 {
        false
    } else if a.len() == 0 {
        true
    } else if a[0] != b[0] {
        a[0] < b[0]
    } else {
        before(a.skip(1), b.skip(1))
    }
}

/// Nothing comes before itself.
pub proof fn before_irreflexive(a: Seq<char>)
    ensures
        !before(a, a),
    decreases a.len(),
{
    if a.len() > 0 {
        before_irreflexive(a.skip(1));
    }
}

/// The order is transitive.
pub proof fn before_transitive(a: Seq<char>, b: Seq<char>, c: Seq<char>)
    requires
        before(a, b),
        before(b, c),
    ensures
        before(a, c),
    decreases a.len(),
{
    if a.len() > 0 && a[0] == b[0] && b[0] == c[0] {
        before_transitive(a.skip(1), b.skip(1), c.skip(1));
    }
}

/// Of two different strings, one comes before the other.
pub proof fn before_total(a: Seq<char>, b: Seq<char>)
    requires
        a != b,
    ensures
        before(a, b) || before(b, a),
    decreases a.len(),
{
    if a.len() == 0 {
        assert(b.len() > 0) by {
            if b.len() == 0 {
                assert(a =~= b);
            }
        }
    } else if b.len() > 0 && a[0] == b[0] {
        if a.skip(1) == b.skip(1) {
            assert(a =~= seq![a[0]] + a.skip(1));
            assert(b =~= seq![b[0]] + b.skip(1));
        }
        before_total(a.skip(1), b.skip(1));
    }
}

/// Whether `a` comes before `b`.
pub fn precedes(a: &str, b: &str) -> (r: bool)
    ensures
        r == before(a@, b@),
{
    let x = crate::text::chars_of(a);
    let y = crate::text::chars_of(b);
    let mut i: usize = 0;
    assert(x@.skip(0) == x@ && y@.skip(0) == y@);
    while i < x.len() && i < y.len()
        invariant
            i <= x@.len(),
            i <= y@.len(),
            before(x@, y@) == before(x@.skip(i as int), y@.skip(i as int)),
            x@ == a@,
            y@ == b@,
        decreases x@.len() - i,
    {
        assert(x@.skip(i as int).skip(1) == x@.skip(i as int + 1));
        assert(y@.skip(i as int).skip(1) == y@.skip(i as int + 1));
        if x[i] != y[i] {
            return x[i] < y[i];
        }
        i += 1;
    }
    i < y.len()
}

/// Strictly ascending: sorted, with nothing twice.
pub open spec fn ascending(keys: Seq<Seq<char>>) -> bool {
    forall|i: int, j: int| 0 <= i < j < keys.len() ==> before(#[trigger] keys[i], #[trigger] keys[j])
}

/// A strictly ascending list holds nothing twice.
pub proof fn ascending_distinct(keys: Seq<Seq<char>>)
    requires
        ascending(keys),
    ensures
        keys.no_duplicates(),
{
    assert forall|i: int, j: int| 0 <= i < j < keys.len() implies keys[i] != keys[j] by {
        before_irreflexive(keys[i]);
        assert(before(keys[i], keys[j]));
    }
}

/// The keys of a list of entries.
pub open spec fn names<V>(entries: Seq<(String, V)>) -> Seq<Seq<char>> {
    entries.map_values(|e: (String, V)| e.0@)
}

/// Where `key` stands in an ascending list, or where it would go.
fn slot_of<V>(keys: &Vec<(String, V)>, key: &str) -> (r: usize)
    requires
        ascending(names(keys@)),
    ensures
        r <= keys@.len(),
        forall|j: int| 0 <= j < r ==> before(#[trigger] names(keys@)[j], key@),
        forall|j: int|
            r <= j < keys@.len() && (j > r || names(keys@)[j] != key@) ==> before(
                key@,
                #[trigger] names(keys@)[j],
            ),
        names(keys@).contains(key@) == (r < keys@.len() && names(keys@)[r as int] == key@),
{
    let mut i: usize = 0;
    while i < keys.len() && precedes(keys[i].0.as_str(), key)
        invariant
            i <= keys@.len(),
            forall|j: int| 0 <= j < i ==> before(#[trigger] names(keys@)[j], key@),
        decreases keys@.len() - i,
    {
        i += 1;
    }
    proof {
        let ks = names(keys@);
        before_irreflexive(key@);
        if i < ks.len() && ks[i as int] != key@ {
            before_total(ks[i as int], key@);
        }
        assert forall|j: int| i <= j < ks.len() && (j > i || ks[j] != key@) implies before(
            key@,
            #[trigger] ks[j],
        ) by {
            if j > i {
                assert(before(ks[i as int], ks[j]));
                if ks[i as int] != key@ {
                    before_transitive(key@, ks[i as int], ks[j]);
                }
            }
        }
        if ks.contains(key@) {
            let j = choose|j: int| 0 <= j < ks.len() && ks[j] == key@;
            assert(j == i);
        }
    }
    i
}

/// Putting a new key into its slot keeps the list ascending.
proof fn ascending_insert(keys: Seq<Seq<char>>, at: int, key: Seq<char>)
    requires
        ascending(keys),
        0 <= at <= keys.len(),
        forall|j: int| 0 <= j < at ==> before(#[trigger] keys[j], key),
        forall|j: int| at <= j < keys.len() ==> before(key, #[trigger] keys[j]),
    ensures
        ascending(keys.insert(at, key)),
        forall|k: Seq<char>|
            keys.insert(at, key).contains(k) <==> (k == key || keys.contains(k)),
{
    let new = keys.insert(at, key);
    assert forall|i: int, j: int| 0 <= i < j < new.len() implies before(
        #[trigger] new[i],
        #[trigger] new[j],
    ) by {
        let a = if i < at { i } else { i - 1 };
        let b = if j < at { j } else { j - 1 };
        if i != at {
            assert(new[i] == keys[a]);
        }
        if j != at {
            assert(new[j] == keys[b]);
        }
    }
    assert forall|k: Seq<char>| new.contains(k) <==> (k == key || keys.contains(k)) by {
        if keys.contains(k) {
            let j = choose|j: int| 0 <= j < keys.len() && keys[j] == k;
            if j < at {
                assert(new[j] == k);
            } else {
                assert(new[j + 1] == k);
            }
        }
        if new.contains(k) && k != key {
            let j = choose|j: int| 0 <= j < new.len() && new[j] == k;
            if j < at {
                assert(keys[j] == k);
            } else {
                assert(keys[j - 1] == k);
            }
        }
        assert(new[at] == key);
    }
}

/// One more element of a list is one more member of its set.
pub proof fn to_set_take<A>(s: Seq<A>, i: int)
    requires
        0 <= i < s.len(),
    ensures
        s.take(i + 1).to_set() == s.take(i).to_set().insert(s[i]),
{
    assert forall|a: A|
        #![trigger s.take(i + 1).contains(a)]
        s.take(i + 1).contains(a) <==> (a == s[i] || s.take(i).contains(a)) by {
        if s.take(i).contains(a) {
            let j = choose|j: int| 0 <= j < i && s.take(i)[j] == a;
            assert(s.take(i + 1)[j] == a);
        }
        assert(s.take(i + 1)[i] == s[i]);
        if s.take(i + 1).contains(a) && a != s[i] {
            let t = s.take(i + 1);
            let j = choose|j: int| 0 <= j < t.len() && t[j] == a;
            assert(s.take(i)[j] == a);
        }
    }
    assert(s.take(i + 1).to_set() =~= s.take(i).to_set().insert(s[i]));
}

/// A map from strings, walked in ascending order of its keys.
#[derive(Debug, PartialEq, Eq)]
#[verifier::reject_recursive_types(V)]
pub struct StringMap<V> {
    entries: Vec<(String, V)>,
}

impl<V> View for StringMap<V> {
    type V = Map<Seq<char>, V>;

    closed spec fn view(&self) -> Map<Seq<char>, V> {
        Map::new(
            |k: Seq<char>| names(self.entries@).contains(k),
            |k: Seq<char>| self.entries@[names(self.entries@).index_of(k)].1,
        )
    }
}

impl<V> StringMap<V> {
    #[verifier::type_invariant]
    spec fn ordered(self) -> bool {
        ascending(names(self.entries@))
    }

    /// The keys in ascending order.
    pub closed spec fn keys_in_order(&self) -> Seq<Seq<char>> {
        names(self.entries@)
    }

    /// The map with nothing in it.
    pub fn new() -> (r: StringMap<V>)
        ensures
            r@ == Map::<Seq<char>, V>::empty(),
    {
        let r = StringMap { entries: Vec::new() };
        assert(r@ =~= Map::<Seq<char>, V>::empty());
        r
    }

    proof fn value_at(&self, i: int)
        requires
            ascending(names(self.entries@)),
            0 <= i < self.entries@.len(),
        ensures
            self@.dom().contains(names(self.entries@)[i]),
            self@[names(self.entries@)[i]] == self.entries@[i].1,
    {
        let ks = names(self.entries@);
        ascending_distinct(ks);
        let k = ks[i];
        assert(ks.contains(k));
        let j = ks.index_of(k);
        assert(0 <= j < ks.len() && ks[j] == k);
    }

    /// Maps `key` to `value`, replacing what was there.
    pub fn insert(&mut self, key: String, value: V)
        ensures
            final(self)@ == old(self)@.insert(key@, value),
    {
        proof {
            use_type_invariant(&*self);
        }
        let ghost was = *self;
        let ghost ks = names(self.entries@);
        let at = slot_of(&self.entries, key.as_str());
        if at < self.entries.len() && same(self.entries[at].0.as_str(), key.as_str()) {
            assert(names(self.entries@.update(at as int, (key, value))) =~= ks);
            let mut entries: Vec<(String, V)> = Vec::new();
            std::mem::swap(&mut self.entries, &mut entries);
            entries.set(at, (key, value));
            self.entries = entries;
            proof {
                assert forall|k: Seq<char>| ks.contains(k) implies self@[k] == was@.insert(
                    key@,
                    value,
                )[k] by {
                    let j = ks.index_of(k);
                    assert(0 <= j < ks.len() && ks[j] == k);
                    self.value_at(j);
                    was.value_at(j);
                    if k == key@ {
                        ascending_distinct(ks);
                        assert(j == at);
                    }
                }
                assert(self@ =~= was@.insert(key@, value));
            }
            return;
        }
        proof {
            ascending_insert(ks, at as int, key@);
            assert(names(self.entries@.insert(at as int, (key, value))) =~= ks.insert(
                at as int,
                key@,
            ));
        }
        let mut entries: Vec<(String, V)> = Vec::new();
        std::mem::swap(&mut self.entries, &mut entries);
        entries.insert(at, (key, value));
        self.entries = entries;
        proof {
            let new = names(self.entries@);
            self.value_at(at as int);
            assert forall|k: Seq<char>| new.contains(k) implies self@[k] == was@.insert(
                key@,
                value,
            )[k] by {
                if k != key@ {
                    let j = ks.index_of(k);
                    assert(0 <= j < ks.len() && ks[j] == k);
                    was.value_at(j);
                    if j < at {
                        self.value_at(j);
                        assert(new[j] == k);
                    } else {
                        self.value_at(j + 1);
                        assert(new[j + 1] == k);
                    }
                }
            }
            assert(self@ =~= was@.insert(key@, value));
        }
    }

    /// What `key` is mapped to.
    pub fn get(&self, key: &str) -> (r: Option<&V>)
        ensures
            match r {
                Some(v) => self@.dom().contains(key@) && *v == self@[key@],
                None => !self@.dom().contains(key@),
            },
    {
        proof {
            use_type_invariant(self);
        }
        let at = slot_of(&self.entries, key);
        if at < self.entries.len() && same(self.entries[at].0.as_str(), key) {
            proof {
                self.value_at(at as int);
            }
            Some(&self.entries[at].1)
        } else {
            None
        }
    }

    /// Whether `key` is mapped to anything.
    pub fn contains_key(&self, key: &str) -> (r: bool)
        ensures
            r == self@.dom().contains(key@),
    {
        self.get(key).is_some()
    }

    /// How many keys there are.
    pub fn len(&self) -> (r: usize)
        ensures
            r == self@.dom().len(),
            r == self.keys_in_order().len(),
            self@.dom().finite(),
    {
        proof {
            use_type_invariant(self);
            let ks = names(self.entries@);
            ascending_distinct(ks);
            ks.unique_seq_to_set();
            assert(self@.dom() =~= ks.to_set());
        }
        self.entries.len()
    }

    /// Whether there are no keys.
    pub fn is_empty(&self) -> (r: bool)
        ensures
            r == (self@.dom() == Set::<Seq<char>>::empty()),
            r == (self.keys_in_order().len() == 0),
    {
        if self.entries.len() == 0 {
            assert(self@.dom() =~= Set::<Seq<char>>::empty());
            true
        } else {
            assert(self@.dom().contains(names(self.entries@)[0]));
            false
        }
    }

    /// The entry in the given place of the ascending order.
    pub fn entry(&self, i: usize) -> (r: (&String, &V))
        requires
            i < self.keys_in_order().len(),
        ensures
            r.0@ == self.keys_in_order()[i as int],
            self@.dom().contains(r.0@),
            *r.1 == self@[r.0@],
    {
        proof {
            use_type_invariant(self);
            self.value_at(i as int);
        }
        let e = &self.entries[i];
        (&e.0, &e.1)
    }

    /// The keys, ascending.
    pub fn keys(&self) -> (r: Vec<String>)
        ensures
            texts(r@) == self.keys_in_order(),
            ascending(texts(r@)),
            texts(r@).to_set() == self@.dom(),
    {
        proof {
            use_type_invariant(self);
        }
        let mut out: Vec<String> = Vec::new();
        let mut i: usize = 0;
        while i < self.entries.len()
            invariant
                i <= self.entries@.len(),
                texts(out@) == names(self.entries@).take(i as int),
            decreases self.entries@.len() - i,
        {
            let one = self.entries[i].0.clone();
            proof {
                crate::text::texts_push(out@, one);
                assert(names(self.entries@).take(i as int + 1) == names(self.entries@).take(
                    i as int,
                ).push(one@));
            }
            out.push(one);
            i += 1;
        }
        proof {
            assert(names(self.entries@).take(i as int) == names(self.entries@));
            assert(names(self.entries@).to_set() =~= self@.dom());
        }
        out
    }

    /// The keys in order are exactly the keys of the map, ascending.
    pub proof fn keys_are_the_domain(&self)
        ensures
            self.keys_in_order().to_set() == self@.dom(),
    {
        assert(names(self.entries@).to_set() =~= self@.dom());
    }
}

/// A set of strings, walked in ascending order.
#[derive(Debug, PartialEq, Eq)]
pub struct StringSet {
    map: StringMap<()>,
}

impl View for StringSet {
    type V = Set<Seq<char>>;

    closed spec fn view(&self) -> Set<Seq<char>> {
        self.map@.dom()
    }
}

impl Clone for StringSet {
    fn clone(&self) -> (r: StringSet)
        ensures
            r@ == self@,
    {
        let members = self.to_vec();
        StringSet::from_list(&members)
    }
}

impl StringSet {
    /// The set of the strings of a list.
    pub fn from_list(list: &Vec<String>) -> (r: StringSet)
        ensures
            r@ == texts(list@).to_set(),
    {
        let mut out = StringSet::new();
        let mut i: usize = 0;
        assert(out@ =~= texts(list@).take(0).to_set());
        while i < list.len()
            invariant
                i <= list@.len(),
                out@ == texts(list@).take(i as int).to_set(),
            decreases list@.len() - i,
        {
            proof {
                to_set_take(texts(list@), i as int);
            }
            out.insert(list[i].clone());
            i += 1;
        }
        assert(texts(list@).take(i as int) == texts(list@));
        out
    }

    /// The members in ascending order.
    pub closed spec fn members(&self) -> Seq<Seq<char>> {
        self.map.keys_in_order()
    }

    /// The set with nothing in it.
    pub fn new() -> (r: StringSet)
        ensures
            r@ == Set::<Seq<char>>::empty(),
    {
        let r = StringSet { map: StringMap::new() };
        assert(r@ =~= Set::<Seq<char>>::empty());
        r
    }

    /// Adds a member; says whether it is new.
    pub fn insert(&mut self, key: String) -> (r: bool)
        ensures
            final(self)@ == old(self)@.insert(key@),
            r == !old(self)@.contains(key@),
    {
        let fresh = !self.map.contains_key(key.as_str());
        self.map.insert(key, ());
        assert(self@ =~= old(self)@.insert(key@));
        fresh
    }

    /// Whether `key` is a member.
    pub fn contains(&self, key: &str) -> (r: bool)
        ensures
            r == self@.contains(key@),
    {
        self.map.contains_key(key)
    }

    /// How many members there are.
    pub fn len(&self) -> (r: usize)
        ensures
            r == self@.len(),
            r == self.members().len(),
            self@.finite(),
    {
        self.map.len()
    }

    /// Whether there are no members.
    pub fn is_empty(&self) -> (r: bool)
        ensures
            r == (self@ == Set::<Seq<char>>::empty()),
    {
        self.map.is_empty()
    }

    /// The members in ascending order.
    pub fn to_vec(&self) -> (r: Vec<String>)
        ensures
            texts(r@) == self.members(),
            ascending(texts(r@)),
            texts(r@).to_set() == self@,
    {
        self.map.keys()
    }
}

/// The first character in which two texts differ decides which comes first, and a
/// text comes before what it is the beginning of.
pub proof fn the_first_difference_decides(
    front: Seq<char>,
    a: char,
    b: char,
    x: Seq<char>,
    y: Seq<char>,
)
    ensures
        (a as u32) < b as u32 ==> before(front + seq![a] + x, front + seq![b] + y),
        before(front, front + seq![a] + x),
    decreases front.len(),
{
    let (p, q) = (front + seq![a] + x, front + seq![b] + y);
    if front.len() == 0 {
        assert(p[0] == a && q[0] == b);
    } else {
        let rest = front.skip(1);
        the_first_difference_decides(rest, a, b, x, y);
        assert(p.skip(1) =~= rest + seq![a] + x);
        assert(q.skip(1) =~= rest + seq![b] + y);
        assert(p[0] == front[0] && q[0] == front[0]);
    }
}

/// A list ascends exactly when each member comes before all that follow it.
pub proof fn ascending_is_by_pairs(keys: Seq<Seq<char>>)
    ensures
        ascending(keys) <==> forall|i: int, j: int|
            0 <= i < j < keys.len() ==> before(#[trigger] keys[i], #[trigger] keys[j]),
{
}

} // verus!
