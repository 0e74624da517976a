//! A map from texts to texts that keeps its entries in the order of their keys.

use vstd::prelude::*;

use crate::text::characters;

verus! {

/// Whether `left` comes before `right`: at the first character where they differ its character has
/// the smaller code point, or it ends first.
pub open spec fn precedes(left: Seq<char>, right: Seq<char>) -> bool
    decreases left.len(),
{
    if right.len() == 0 {
        false
    } else if left.len() == 0 {
        true
    } else if left[0] != right[0] {
        left[0] < right[0]
    } else {
        precedes(left.drop_first(), right.drop_first())
    }
}

/// A text does not come before itself.
proof fn lemma_precedes_irreflexive(text: Seq<char>)
    ensures
        !precedes(text, text),
    decreases text.len(),
{
    if text.len() > 0 {
        lemma_precedes_irreflexive(text.drop_first());
    }
}

/// What comes before a text comes before what comes after it.
proof fn lemma_precedes_transitive(first: Seq<char>, second: Seq<char>, third: Seq<char>)
    requires
        precedes(first, second),
        precedes(second, third),
    ensures
        precedes(first, third),
    decreases first.len(),
{
    if first.len() > 0 && second.len() > 0 && third.len() > 0 {
        if first[0] == second[0] && second[0] == third[0] {
            lemma_precedes_transitive(first.drop_first(), second.drop_first(), third.drop_first());
        }
    }
}

/// How two texts are ordered.
#[derive(Clone, Copy, Debug, PartialEq, Eq, Structural)]
pub enum TextOrder {
    Before,
    Same,
    After,
}

/// How `left` is ordered against `right`.
fn text_order(left: &str, right: &str) -> (order: TextOrder)
    ensures
        match order {
            TextOrder::Before => precedes(left@, right@) && left@ != right@,
            TextOrder::Same => left@ == right@,
            TextOrder::After => precedes(right@, left@) && left@ != right@,
        },
{
    let list = characters(left);
    let other = characters(right);
    let mut i: usize = 0;
    proof {
        assert(left@.skip(0) =~= left@);
        assert(right@.skip(0) =~= right@);
    }
    while i < list.len() && i < other.len() && list[i] == other[i]
        invariant
            i <= list@.len(),
            i <= other@.len(),
            list@ == left@,
            other@ == right@,
            left@.take(i as int) == right@.take(i as int),
            precedes(left@, right@) == precedes(left@.skip(i as int), right@.skip(i as int)),
            precedes(right@, left@) == precedes(right@.skip(i as int), left@.skip(i as int)),
        decreases list@.len() - i,
    {
        proof {
            assert(left@.skip(i as int).drop_first() =~= left@.skip(i + 1));
            assert(right@.skip(i as int).drop_first() =~= right@.skip(i + 1));
            assert(left@.take(i + 1) =~= left@.take(i as int).push(left@[i as int]));
            assert(right@.take(i + 1) =~= right@.take(i as int).push(right@[i as int]));
        }
        i = i + 1;
    }
    proof {
        if i < left@.len() {
            assert(left@.skip(i as int)[0] == left@[i as int]);
        }
        if i < right@.len() {
            assert(right@.skip(i as int)[0] == right@[i as int]);
        }
    }
    if i == list.len() && i == other.len() {
        proof {
            assert(left@.take(i as int) =~= left@);
            assert(right@.take(i as int) =~= right@);
        }
        TextOrder::Same
    } else if i == list.len() {
        TextOrder::Before
    } else if i == other.len() {
        TextOrder::After
    } else if list[i] < other[i] {
        TextOrder::Before
    } else {
        TextOrder::After
    }
}

/// A property: its key and its value.
#[derive(Debug, PartialEq, Eq)]
pub struct Prop {
    pub key: String,
    pub value: String,
}

/// The keys and values of properties.
pub open spec fn pairs(entries: Seq<Prop>) -> Seq<(Seq<char>, Seq<char>)> {
    entries.map_values(|entry: Prop| (entry.key@, entry.value@))
}

/// Whether pairs stand in the order of their keys, no key twice.
pub open spec fn in_order(entries: Seq<(Seq<char>, Seq<char>)>) -> bool {
    forall|i: int, j: int|
        0 <= i < j < entries.len() ==> precedes(#[trigger] entries[i].0, #[trigger] entries[j].0)
}

/// Whether one of the pairs has a key.
pub open spec fn holds_key(entries: Seq<(Seq<char>, Seq<char>)>, key: Seq<char>) -> bool {
    exists|i: int| 0 <= i < entries.len() && (#[trigger] entries[i]).0 == key
}

/// The map that pairs make.
pub open spec fn map_of(entries: Seq<(Seq<char>, Seq<char>)>) -> Map<Seq<char>, Seq<char>> {
    Map::new(
        |key: Seq<char>| holds_key(entries, key),
        |key: Seq<char>|
            entries[choose|i: int| 0 <= i < entries.len() && (#[trigger] entries[i]).0 == key].1,
    )
}

/// No two pairs in order have the same key.
proof fn lemma_keys_differ(entries: Seq<(Seq<char>, Seq<char>)>)
    requires
        in_order(entries),
    ensures
        forall|i: int, j: int|
            0 <= i < entries.len() && 0 <= j < entries.len() && i != j ==> (
            #[trigger] entries[i]).0 != (#[trigger] entries[j]).0,
{
    assert forall|i: int, j: int|
        0 <= i < entries.len() && 0 <= j < entries.len() && i != j implies (
        #[trigger] entries[i]).0 != (#[trigger] entries[j]).0 by {
        lemma_precedes_irreflexive(entries[i].0);
    }
}

/// The map that pairs in order make has the value of each pair under its key.
proof fn lemma_map_of(entries: Seq<(Seq<char>, Seq<char>)>)
    requires
        in_order(entries),
    ensures
        forall|i: int|
            0 <= i < entries.len() ==> map_of(entries).dom().contains(
                (#[trigger] entries[i]).0,
            ) && map_of(entries)[entries[i].0] == entries[i].1,
        map_of(entries).dom().finite(),
        map_of(entries).len() == entries.len(),
{
    lemma_keys_differ(entries);
    let keys = entries.map_values(|pair: (Seq<char>, Seq<char>)| pair.0);
    assert(keys.no_duplicates()) by {
        assert forall|i: int, j: int| 0 <= i < keys.len() && 0 <= j < keys.len() && i != j implies
            keys[i] != keys[j] by {
            assert(entries[i].0 != entries[j].0);
        }
    }
    keys.unique_seq_to_set();
    assert(map_of(entries).dom() =~= keys.to_set()) by {
        assert forall|key: Seq<char>| keys.to_set().contains(key) == holds_key(entries, key) by {
            if holds_key(entries, key) {
                let i = choose|i: int| 0 <= i < entries.len() && (#[trigger] entries[i]).0 == key;
                assert(keys[i] == key);
            }
            if keys.to_set().contains(key) {
                let i = choose|i: int| 0 <= i < keys.len() && keys[i] == key;
                assert(entries[i].0 == key);
            }
        }
    }
}

/// Properties by key, in the order of their keys.
#[derive(Debug, PartialEq, Eq)]
pub struct Props {
    entries: Vec<Prop>,
}

impl View for Props {
    type V = Map<Seq<char>, Seq<char>>;

    closed spec fn view(&self) -> Map<Seq<char>, Seq<char>> {
        map_of(pairs(self.entries@))
    }
}

impl Props {
    /// The properties, in the order of their keys.
    pub closed spec fn listed(self) -> Seq<(Seq<char>, Seq<char>)> {
        pairs(self.entries@)
    }

    /// Whether the properties stand in the order of their keys, no key twice.
    #[verifier::type_invariant]
    spec fn sorted(self) -> bool {
        in_order(pairs(self.entries@))
    }

    /// No properties.
    pub fn new() -> (props: Props)
        ensures
            props@ == Map::<Seq<char>, Seq<char>>::empty(),
    {
        let props = Props { entries: Vec::new() };
        proof {
            assert(props@ =~= Map::<Seq<char>, Seq<char>>::empty());
        }
        props
    }

    /// How many properties there are.
    pub fn len(&self) -> (count: usize)
        ensures
            self@.dom().finite(),
            count == self@.len(),
    {
        proof {
            use_type_invariant(self);
            lemma_map_of(pairs(self.entries@));
        }
        self.entries.len()
    }

    /// Where a key stands, or where it would.
    fn position(&self, key: &str) -> (found: (usize, bool))
        ensures
            found.0 <= self.entries@.len(),
            found.1 ==> found.0 < self.entries@.len() && pairs(self.entries@)[found.0 as int].0
                == key@,
            !found.1 ==> (forall|i: int|
                0 <= i < found.0 ==> precedes(#[trigger] pairs(self.entries@)[i].0, key@)) && (
            forall|i: int|
                found.0 <= i < self.entries@.len() ==> precedes(
                    key@,
                    #[trigger] pairs(self.entries@)[i].0,
                )),
            !found.1 ==> !holds_key(pairs(self.entries@), key@),
    {
        proof {
            use_type_invariant(self);
        }
        let ghost listed = pairs(self.entries@);
        let mut i: usize = 0;
        while i < self.entries.len()
            invariant
                i <= self.entries@.len(),
                listed == pairs(self.entries@),
                in_order(listed),
                forall|j: int| 0 <= j < i ==> precedes(#[trigger] listed[j].0, key@),
            decreases self.entries@.len() - i,
        {
            match text_order(self.entries[i].key.as_str(), key) {
                TextOrder::Same => {
                    return (i, true);
                },
                TextOrder::After => {
                    proof {
                        assert(precedes(key@, listed[i as int].0));
                        assert forall|j: int| i <= j < listed.len() implies precedes(
                            key@,
                            #[trigger] listed[j].0,
                        ) by {
                            if j > i {
                                lemma_precedes_transitive(key@, listed[i as int].0, listed[j].0);
                            }
                        }
                        lemma_key_apart(listed, key@, i as int);
                    }
                    return (i, false);
                },
                TextOrder::Before => {},
            }
            i = i + 1;
        }
        proof {
            lemma_key_apart(listed, key@, i as int);
        }
        (i, false)
    }

    /// The value under a key.
    pub fn get(&self, key: &str) -> (value: Option<&String>)
        ensures
            match value {
                Some(value) => self@.dom().contains(key@) && self@[key@] == value@,
                None => !self@.dom().contains(key@),
            },
    {
        proof {
            use_type_invariant(self);
            lemma_map_of(pairs(self.entries@));
        }
        let found = self.position(key);
        if found.1 {
            assert(pairs(self.entries@)[found.0 as int].0 == key@);
            Some(&self.entries[found.0].value)
        } else {
            None
        }
    }

    /// Whether there is a property under a key.
    pub fn contains_key(&self, key: &str) -> (answer: bool)
        ensures
            answer == self@.dom().contains(key@),
    {
        self.get(key).is_some()
    }

    /// Puts a property under a key, in place of the one that was there.
    pub fn insert(&mut self, key: String, value: String)
        ensures
            final(self)@ == old(self)@.insert(key@, value@),
    {
        proof {
            use_type_invariant(&*self);
        }
        let found = self.position(key.as_str());
        let ghost before = pairs(self.entries@);
        let ghost at = found.0 as int;
        let mut entries: Vec<Prop> = Vec::new();
        std::mem::swap(&mut entries, &mut self.entries);
        let ghost pair = (key@, value@);
        if found.1 {
            entries.set(found.0, Prop { key, value });
            proof {
                let after = pairs(entries@);
                assert(after =~= before.update(at, pair));
                assert(in_order(after)) by {
                    assert forall|i: int, j: int| 0 <= i < j < after.len() implies precedes(
                        #[trigger] after[i].0,
                        #[trigger] after[j].0,
                    ) by {
                        assert(precedes(before[i].0, before[j].0));
                    }
                }
                lemma_replaced(before, after, at, pair);
            }
        } else {
            entries.insert(found.0, Prop { key, value });
            proof {
                let after = pairs(entries@);
                assert(after =~= before.insert(at, pair));
                lemma_inserted(before, after, at, pair);
            }
        }
        self.entries = entries;
    }

    /// The properties, in the order of their keys.
    pub fn entries(&self) -> (entries: &Vec<Prop>)
        ensures
            pairs(entries@) == self.listed(),
            in_order(self.listed()),
            map_of(self.listed()) == self@,
    {
        proof {
            use_type_invariant(self);
        }
        &self.entries
    }
}

impl Clone for Props {
    fn clone(&self) -> (same: Props)
        ensures
            same@ == self@,
            same.listed() == self.listed(),
    {
        proof {
            use_type_invariant(self);
        }
        let mut entries: Vec<Prop> = Vec::new();
        let mut i: usize = 0;
        while i < self.entries.len()
            invariant
                i <= self.entries@.len(),
                pairs(entries@) == pairs(self.entries@).take(i as int),
            decreases self.entries@.len() - i,
        {
            let entry = Prop {
                key: self.entries[i].key.clone(),
                value: self.entries[i].value.clone(),
            };
            let ghost copied = pairs(entries@);
            entries.push(entry);
            proof {
                assert(pairs(entries@) =~= copied.push((entry.key@, entry.value@)));
                assert(pairs(self.entries@).take(i + 1) =~= pairs(self.entries@).take(
                    i as int,
                ).push((entry.key@, entry.value@)));
            }
            i = i + 1;
        }
        proof {
            assert(pairs(self.entries@).take(i as int) =~= pairs(self.entries@));
        }
        Props { entries }
    }
}

/// A key that all keys up to a position come before, and that comes before all others, is no key of
/// the pairs.
proof fn lemma_key_apart(entries: Seq<(Seq<char>, Seq<char>)>, key: Seq<char>, at: int)
    requires
        0 <= at <= entries.len(),
        forall|i: int| 0 <= i < at ==> precedes(#[trigger] entries[i].0, key),
        forall|i: int| at <= i < entries.len() ==> precedes(key, #[trigger] entries[i].0),
    ensures
        !holds_key(entries, key),
{
    lemma_precedes_irreflexive(key);
}

/// Replacing the pair of a key replaces its value in the map.
proof fn lemma_replaced(
    before: Seq<(Seq<char>, Seq<char>)>,
    after: Seq<(Seq<char>, Seq<char>)>,
    at: int,
    pair: (Seq<char>, Seq<char>),
)
    requires
        in_order(before),
        in_order(after),
        0 <= at < before.len(),
        after == before.update(at, pair),
        before[at].0 == pair.0,
    ensures
        map_of(after) == map_of(before).insert(pair.0, pair.1),
{
    lemma_map_of(before);
    lemma_map_of(after);
    assert forall|key: Seq<char>| holds_key(after, key) == (key == pair.0 || holds_key(
        before,
        key,
    )) by {
        if holds_key(before, key) {
            let i = choose|i: int| 0 <= i < before.len() && (#[trigger] before[i]).0 == key;
            assert(after[i].0 == key);
        }
        if holds_key(after, key) {
            let i = choose|i: int| 0 <= i < after.len() && (#[trigger] after[i]).0 == key;
            assert(before[i].0 == key);
        }
        assert(after[at].0 == pair.0);
    }
    assert forall|key: Seq<char>| #[trigger] map_of(after).dom().contains(key) implies map_of(
        after,
    )[key] == map_of(before).insert(pair.0, pair.1)[key] by {
        let i = choose|i: int| 0 <= i < after.len() && (#[trigger] after[i]).0 == key;
        assert(before[i].0 == key);
        lemma_keys_differ(after);
        if i != at {
            assert(after[i] == before[i]);
            assert(after[at].0 != after[i].0);
        }
    }
    assert(map_of(after) =~= map_of(before).insert(pair.0, pair.1));
}

/// Putting a pair with a new key in its place puts its value into the map.
proof fn lemma_inserted(
    before: Seq<(Seq<char>, Seq<char>)>,
    after: Seq<(Seq<char>, Seq<char>)>,
    at: int,
    pair: (Seq<char>, Seq<char>),
)
    requires
        in_order(before),
        0 <= at <= before.len(),
        after == before.insert(at, pair),
        forall|i: int| 0 <= i < at ==> precedes(#[trigger] before[i].0, pair.0),
        forall|i: int| at <= i < before.len() ==> precedes(pair.0, #[trigger] before[i].0),
    ensures
        in_order(after),
        map_of(after) == map_of(before).insert(pair.0, pair.1),
{
    assert forall|i: int| 0 <= i < after.len() implies #[trigger] after[i] == (if i < at {
        before[i]
    } else if i == at {
        pair
    } else {
        before[i - 1]
    }) by {}
    assert forall|i: int, j: int| 0 <= i < j < after.len() implies precedes(
        #[trigger] after[i].0,
        #[trigger] after[j].0,
    ) by {
        let x = if i < at {
            i
        } else {
            i - 1
        };
        let y = if j < at {
            j
        } else {
            j - 1
        };
        if i == at {
            assert(precedes(pair.0, before[y].0));
        } else if j == at {
            assert(precedes(before[x].0, pair.0));
        } else {
            assert(precedes(before[x].0, before[y].0));
        }
    }
    lemma_map_of(before);
    lemma_map_of(after);
    lemma_keys_differ(after);
    assert(after[at].0 == pair.0);
    assert forall|key: Seq<char>| holds_key(after, key) == (key == pair.0 || holds_key(
        before,
        key,
    )) by {
        if holds_key(before, key) {
            let i = choose|i: int| 0 <= i < before.len() && (#[trigger] before[i]).0 == key;
            if i < at {
                assert(after[i].0 == key);
            } else {
                assert(after[i + 1].0 == key);
            }
        }
        if holds_key(after, key) {
            let i = choose|i: int| 0 <= i < after.len() && (#[trigger] after[i]).0 == key;
            if i < at {
                assert(before[i].0 == key);
            } else if i > at {
                assert(before[i - 1].0 == key);
            }
        }
    }
    assert forall|key: Seq<char>| #[trigger] map_of(after).dom().contains(key) implies map_of(
        after,
    )[key] == map_of(before).insert(pair.0, pair.1)[key] by {
        let i = choose|i: int| 0 <= i < after.len() && (#[trigger] after[i]).0 == key;
        if i != at {
            assert(after[at].0 != after[i].0);
            let x = if i < at {
                i
            } else {
                i - 1
            };
            assert(before[x] == after[i]);
        }
    }
    assert(map_of(after) =~= map_of(before).insert(pair.0, pair.1));
}

/// Two property maps with the same properties list them in the same order.
pub proof fn the_order_depends_on_the_properties_alone(
    first: Seq<(Seq<char>, Seq<char>)>,
    second: Seq<(Seq<char>, Seq<char>)>,
)
    requires
        in_order(first),
        in_order(second),
        map_of(first) == map_of(second),
    ensures
        first == second,
    decreases first.len(),
{
    lemma_map_of(first);
    lemma_map_of(second);
    if first.len() > 0 {
        lemma_heads_agree(first, second);
        lemma_keys_differ(first);
        lemma_keys_differ(second);
        let rest = first.drop_first();
        let other = second.drop_first();
        assert(in_order(rest)) by {
            assert forall|i: int, j: int| 0 <= i < j < rest.len() implies precedes(
                #[trigger] rest[i].0,
                #[trigger] rest[j].0,
            ) by {
                assert(precedes(first[i + 1].0, first[j + 1].0));
            }
        }
        assert(in_order(other)) by {
            assert forall|i: int, j: int| 0 <= i < j < other.len() implies precedes(
                #[trigger] other[i].0,
                #[trigger] other[j].0,
            ) by {
                assert(precedes(second[i + 1].0, second[j + 1].0));
            }
        }
        lemma_tail(first);
        lemma_tail(second);
        the_order_depends_on_the_properties_alone(rest, other);
        assert(first =~= seq![first[0]] + rest);
        assert(second =~= seq![second[0]] + other);
    } else {
        assert(first =~= second);
    }
}

/// Without its first pair, pairs in order make the map without the key of that pair.
proof fn lemma_tail(entries: Seq<(Seq<char>, Seq<char>)>)
    requires
        in_order(entries),
        entries.len() > 0,
        in_order(entries.drop_first()),
    ensures
        map_of(entries.drop_first()) == map_of(entries).remove(entries[0].0),
{
    let rest = entries.drop_first();
    lemma_map_of(entries);
    lemma_map_of(rest);
    lemma_keys_differ(entries);
    assert forall|key: Seq<char>| holds_key(rest, key) == (key != entries[0].0 && holds_key(
        entries,
        key,
    )) by {
        if holds_key(rest, key) {
            let i = choose|i: int| 0 <= i < rest.len() && (#[trigger] rest[i]).0 == key;
            assert(entries[i + 1].0 == key);
        }
        if key != entries[0].0 && holds_key(entries, key) {
            let i = choose|i: int| 0 <= i < entries.len() && (#[trigger] entries[i]).0 == key;
            assert(rest[i - 1].0 == key);
        }
    }
    assert forall|key: Seq<char>| #[trigger] map_of(rest).dom().contains(key) implies map_of(
        rest,
    )[key] == map_of(entries)[key] by {
        let i = choose|i: int| 0 <= i < rest.len() && (#[trigger] rest[i]).0 == key;
        assert(entries[i + 1] == rest[i]);
    }
    assert(map_of(rest) =~= map_of(entries).remove(entries[0].0));
}

/// Pairs in order that make the same map start with the same pair.
proof fn lemma_heads_agree(
    first: Seq<(Seq<char>, Seq<char>)>,
    second: Seq<(Seq<char>, Seq<char>)>,
)
    requires
        in_order(first),
        in_order(second),
        first.len() > 0,
        map_of(first) == map_of(second),
    ensures
        second.len() > 0,
        first[0] == second[0],
{
    lemma_map_of(first);
    lemma_map_of(second);
    assert(map_of(second).dom().contains(first[0].0));
    let j = choose|j: int| 0 <= j < second.len() && (#[trigger] second[j]).0 == first[0].0;
    assert(map_of(first).dom().contains(second[0].0));
    let i = choose|i: int| 0 <= i < first.len() && (#[trigger] first[i]).0 == second[0].0;
    if j > 0 && i > 0 {
        assert(precedes(second[0].0, second[j].0));
        assert(precedes(first[0].0, first[i].0));
        lemma_precedes_transitive(first[0].0, first[i].0, second[j].0);
        lemma_precedes_irreflexive(first[0].0);
    }
}

} // verus!
