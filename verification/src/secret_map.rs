//! Secrets by name, in the order of their names.

use crate::text::{char_vec, same};
use crate::text;
use vstd::prelude::*;

verus! {

/// Whether `a` stands before `b` in the order of texts: at the first character
/// in which they differ it has the smaller one, or it is a proper beginning of
/// `b`.
pub open spec fn text_before(a: Seq<char>, b: Seq<char>) -> bool
    decreases a.len(),
{
    if b.len() == 0 {
        false
    } else if a.len() == 0 {
        true
    } else if a[0] != b[0] {
        a[0] < b[0]
    } else {
        text_before(a.skip(1), b.skip(1))
    }
}

proof fn lemma_before_irreflexive(a: Seq<char>)
    ensures
        !text_before(a, a),
    decreases a.len(),
{
    if a.len() > 0 {
        lemma_before_irreflexive(a.skip(1));
    }
}

proof fn lemma_before_transitive(a: Seq<char>, b: Seq<char>, c: Seq<char>)
    requires
        text_before(a, b),
        text_before(b, c),
    ensures
        text_before(a, c),
    decreases a.len(),
{
    if a.len() > 0 && a[0] == b[0] && b[0] == c[0] {
        lemma_before_transitive(a.skip(1), b.skip(1), c.skip(1));
    }
}

proof fn lemma_before_total(a: Seq<char>, b: Seq<char>)
    ensures
        a == b || text_before(a, b) || text_before(b, a),
    decreases a.len(),
{
    if a.len() == 0 && b.len() == 0 {
        assert(a =~= b);
    } else if a.len() > 0 && b.len() > 0 && a[0] == b[0] {
        lemma_before_total(a.skip(1), b.skip(1));
        if a.skip(1) == b.skip(1) {
            assert(a =~= seq![a[0]] + a.skip(1));
            assert(b =~= seq![b[0]] + b.skip(1));
        }
    }
}

/// Whether `a` stands before `b` in the order of texts.
pub fn comes_before(a: &str, b: &str) -> (yes: bool)
    ensures
        yes == text_before(a@, b@),
{
    let left = char_vec(a);
    let right = char_vec(b);
    let mut i: usize = 0;
    assert(left@.skip(0) =~= left@);
    assert(right@.skip(0) =~= right@);
    loop
        invariant
            left@ == a@,
            right@ == b@,
            i <= left@.len(),
            i <= right@.len(),
            text_before(a@, b@) == text_before(left@.skip(i as int), right@.skip(i as int)),
        decreases left@.len() - i,
    {
        if i == right.len() {
            return false;
        }
        if i == left.len() {
            return true;
        }
        let x = left[i];
        let y = right[i];
        assert(left@.skip(i as int)[0] == x);
        assert(right@.skip(i as int)[0] == y);
        if x != y {
            return x < y;
        }
        assert(left@.skip(i as int).skip(1) =~= left@.skip(i + 1));
        assert(right@.skip(i as int).skip(1) =~= right@.skip(i + 1));
        i += 1;
    }
}

/// A list of pairs as a map.
pub open spec fn pairs_map(pairs: Seq<(Seq<char>, Seq<char>)>) -> Map<Seq<char>, Seq<char>>
    decreases pairs.len(),
{
    if pairs.len() == 0 {
        Map::empty()
    } else {
        pairs_map(pairs.drop_last()).insert(pairs.last().0, pairs.last().1)
    }
}

/// Whether the names of a list of pairs stand in order, none of them twice.
pub open spec fn sorted(pairs: Seq<(Seq<char>, Seq<char>)>) -> bool {
    forall|i: int, j: int|
        0 <= i < j < pairs.len() ==> text_before(
            (#[trigger] pairs[i]).0,
            (#[trigger] pairs[j]).0,
        )
}

/// Names and secrets, in the order of the names.
pub struct SecretMap {
    entries: Vec<(String, String)>,
}

impl View for SecretMap {
    type V = Map<Seq<char>, Seq<char>>;

    open spec fn view(&self) -> Map<Seq<char>, Seq<char>> {
        pairs_map(self.listed())
    }
}

proof fn lemma_sorted_keys_differ(pairs: Seq<(Seq<char>, Seq<char>)>, i: int, j: int)
    requires
        sorted(pairs),
        0 <= i < pairs.len(),
        0 <= j < pairs.len(),
        i != j,
    ensures
        pairs[i].0 != pairs[j].0,
{
    if i < j {
        assert(text_before(pairs[i].0, pairs[j].0));
        lemma_before_irreflexive(pairs[i].0);
    } else {
        assert(text_before(pairs[j].0, pairs[i].0));
        lemma_before_irreflexive(pairs[i].0);
    }
}

/// What a sorted list maps its names to.
pub proof fn lemma_pairs_map(pairs: Seq<(Seq<char>, Seq<char>)>)
    requires
        sorted(pairs),
    ensures
        forall|i: int|
            0 <= i < pairs.len() ==> pairs_map(pairs).contains_pair(
                (#[trigger] pairs[i]).0,
                pairs[i].1,
            ),
        forall|key: Seq<char>| #[trigger]
            pairs_map(pairs).contains_key(key) ==> exists|i: int|
                0 <= i < pairs.len() && (#[trigger] pairs[i]).0 == key,
    decreases pairs.len(),
{
    if pairs.len() > 0 {
        let init = pairs.drop_last();
        assert forall|i: int, j: int| 0 <= i < j < init.len() implies text_before(
            (#[trigger] init[i]).0,
            (#[trigger] init[j]).0,
        ) by {
            assert(text_before(pairs[i].0, pairs[j].0));
        }
        lemma_pairs_map(init);
        assert forall|i: int| 0 <= i < pairs.len() implies pairs_map(pairs).contains_pair(
            (#[trigger] pairs[i]).0,
            pairs[i].1,
        ) by {
            if i < init.len() {
                assert(init[i] == pairs[i]);
                lemma_sorted_keys_differ(pairs, i, pairs.len() - 1);
                assert(pairs_map(init).contains_pair(init[i].0, init[i].1));
            }
        }
        assert forall|key: Seq<char>| #[trigger]
            pairs_map(pairs).contains_key(key) implies exists|i: int|
            0 <= i < pairs.len() && (#[trigger] pairs[i]).0 == key by {
            if key == pairs.last().0 {
                assert(pairs[pairs.len() - 1].0 == key);
            } else {
                assert(pairs_map(init).contains_key(key));
                let i = choose|i: int| 0 <= i < init.len() && (#[trigger] init[i]).0 == key;
                assert(pairs[i].0 == key);
            }
        }
    }
}

/// A sorted list is the map that it agrees with.
proof fn lemma_pairs_map_is(
    pairs: Seq<(Seq<char>, Seq<char>)>,
    wanted: Map<Seq<char>, Seq<char>>,
)
    requires
        sorted(pairs),
        forall|i: int|
            0 <= i < pairs.len() ==> wanted.contains_pair((#[trigger] pairs[i]).0, pairs[i].1),
        forall|key: Seq<char>| #[trigger]
            wanted.contains_key(key) ==> exists|i: int|
                0 <= i < pairs.len() && (#[trigger] pairs[i]).0 == key,
    ensures
        pairs_map(pairs) == wanted,
{
    lemma_pairs_map(pairs);
    assert forall|key: Seq<char>|
        pairs_map(pairs).contains_key(key) <==> wanted.contains_key(key) by {
        if wanted.contains_key(key) {
            let i = choose|i: int| 0 <= i < pairs.len() && (#[trigger] pairs[i]).0 == key;
            assert(pairs_map(pairs).contains_pair(pairs[i].0, pairs[i].1));
        }
        if pairs_map(pairs).contains_key(key) {
            let i = choose|i: int| 0 <= i < pairs.len() && (#[trigger] pairs[i]).0 == key;
            assert(wanted.contains_pair(pairs[i].0, pairs[i].1));
        }
    }
    assert forall|key: Seq<char>| pairs_map(pairs).contains_key(key) implies pairs_map(pairs)[key]
        == wanted[key] by {
        let i = choose|i: int| 0 <= i < pairs.len() && (#[trigger] pairs[i]).0 == key;
        assert(pairs_map(pairs).contains_pair(pairs[i].0, pairs[i].1));
        assert(wanted.contains_pair(pairs[i].0, pairs[i].1));
    }
    assert(pairs_map(pairs) =~= wanted);
}

impl SecretMap {
    /// The names and secrets in the order of the names.
    pub closed spec fn listed(&self) -> Seq<(Seq<char>, Seq<char>)> {
        text::text_pairs(self.entries@)
    }

    #[verifier::type_invariant]
    spec fn in_order(self) -> bool {
        sorted(text::text_pairs(self.entries@))
    }

    /// No secrets.
    pub fn new() -> (map: SecretMap)
        ensures
            map@ == Map::<Seq<char>, Seq<char>>::empty(),
    {
        let entries: Vec<(String, String)> = Vec::new();
        assert(text::text_pairs(entries@) =~= Seq::empty());
        SecretMap { entries }
    }

    /// How many secrets there are.
    pub fn len(&self) -> (count: usize)
        ensures
            count == self.listed().len(),
    {
        self.entries.len()
    }

    /// The secrets stand in the order of their names, and none of them twice.
    pub fn all(&self) -> (pairs: Vec<(String, String)>)
        ensures
            text::text_pairs(pairs@) == self.listed(),
            sorted(self.listed()),
            pairs_map(self.listed()) == self@,
    {
        proof {
            use_type_invariant(self);
        }
        let mut pairs: Vec<(String, String)> = Vec::new();
        let mut i: usize = 0;
        while i < self.entries.len()
            invariant
                i <= self.entries@.len(),
                pairs@.len() == i,
                forall|j: int|
                    0 <= j < i ==> (#[trigger] pairs@[j]).0@ == self.entries@[j].0@ && pairs@[j].1@
                        == self.entries@[j].1@,
            decreases self.entries@.len() - i,
        {
            pairs.push((self.entries[i].0.clone(), self.entries[i].1.clone()));
            i += 1;
        }
        assert(text::text_pairs(pairs@) =~= self.listed());
        pairs
    }

    /// The secret with the given name.
    pub fn get(&self, name: &str) -> (secret: Option<String>)
        ensures
            match secret {
                Some(found) => self@.contains_pair(name@, found@),
                None => !self@.contains_key(name@),
            },
    {
        proof {
            use_type_invariant(self);
            lemma_pairs_map(self.listed());
        }
        let ghost pairs = self.listed();
        let mut i: usize = 0;
        while i < self.entries.len()
            invariant
                i <= self.entries@.len(),
                pairs == self.listed(),
                pairs == text::text_pairs(self.entries@),
                forall|j: int| 0 <= j < i ==> (#[trigger] pairs[j]).0 != name@,
                forall|j: int|
                    0 <= j < pairs.len() ==> pairs_map(pairs).contains_pair(
                        (#[trigger] pairs[j]).0,
                        pairs[j].1,
                    ),
            decreases self.entries@.len() - i,
        {
            if same(&self.entries[i].0, name) {
                assert(pairs[i as int].0 == name@);
                return Some(self.entries[i].1.clone());
            }
            i += 1;
        }
        assert(!self@.contains_key(name@)) by {
            if pairs_map(pairs).contains_key(name@) {
                let k = choose|k: int| 0 <= k < pairs.len() && (#[trigger] pairs[k]).0 == name@;
                assert(pairs[k].0 != name@);
            }
        }
        None
    }

    /// Puts a secret under a name, in place of the one that stands there.
    pub fn insert(self, name: String, secret: String) -> (after: SecretMap)
        ensures
            after@ == self@.insert(name@, secret@),
    {
        proof {
            use_type_invariant(&self);
        }
        let ghost before = self.listed();
        let ghost key = name@;
        let ghost value = secret@;
        let ghost wanted = pairs_map(before).insert(key, value);
        let mut entries = self.entries;
        let mut i: usize = 0;
        while i < entries.len() && comes_before(&entries[i].0, &name)
            invariant
                i <= entries@.len(),
                before == text::text_pairs(entries@),
                sorted(before),
                forall|j: int| 0 <= j < i ==> text_before((#[trigger] before[j]).0, name@),
            decreases entries@.len() - i,
        {
            i += 1;
        }
        if i < entries.len() && same(&entries[i].0, &name) {
            entries.set(i, (name, secret));
            proof {
                let after = text::text_pairs(entries@);
                assert(after =~= before.update(i as int, (key, value)));
                assert forall|a: int, b: int| 0 <= a < b < after.len() implies text_before(
                    (#[trigger] after[a]).0,
                    (#[trigger] after[b]).0,
                ) by {
                    assert(text_before(before[a].0, before[b].0));
                }
                lemma_put(before, after, i as int, key, value, wanted);
            }
        } else {
            entries.insert(i, (name, secret));
            proof {
                let after = text::text_pairs(entries@);
                assert(after =~= before.insert(i as int, (key, value)));
                assert forall|a: int, b: int| 0 <= a < b < after.len() implies text_before(
                    (#[trigger] after[a]).0,
                    (#[trigger] after[b]).0,
                ) by {
                    if b < i {
                        assert(text_before(before[a].0, before[b].0));
                    } else if b == i {
                        assert(text_before(before[a].0, key));
                    } else if a < i {
                        assert(text_before(before[a].0, before[b - 1].0));
                    } else {
                        lemma_before_total(before[i as int].0, key);
                        if a == i {
                            if b - 1 > i {
                                assert(text_before(before[i as int].0, before[b - 1].0));
                                lemma_before_transitive(
                                    key,
                                    before[i as int].0,
                                    before[b - 1].0,
                                );
                            }
                        } else {
                            assert(text_before(before[a - 1].0, before[b - 1].0));
                        }
                    }
                }
                lemma_pairs_map(before);
                assert forall|a: int| 0 <= a < after.len() implies wanted.contains_pair(
                    (#[trigger] after[a]).0,
                    after[a].1,
                ) by {
                    if a < i {
                        assert(after[a] == before[a]);
                        assert(pairs_map(before).contains_pair(before[a].0, before[a].1));
                        lemma_before_irreflexive(key);
                    } else if a > i {
                        assert(after[a] == before[a - 1]);
                        assert(pairs_map(before).contains_pair(before[a - 1].0, before[a - 1].1));
                        lemma_sorted_keys_differ(after, i as int, a);
                    }
                }
                assert forall|k: Seq<char>| #[trigger] wanted.contains_key(k) implies exists|
                    a: int,
                |
                    0 <= a < after.len() && (#[trigger] after[a]).0 == k by {
                    if k == key {
                        assert(after[i as int].0 == k);
                    } else {
                        assert(pairs_map(before).contains_key(k));
                        let a = choose|a: int| 0 <= a < before.len() && (#[trigger] before[a]).0 == k;
                        if a < i {
                            assert(after[a].0 == k);
                        } else {
                            assert(after[a + 1].0 == k);
                        }
                    }
                }
                lemma_pairs_map_is(after, wanted);
            }
        }
        SecretMap { entries }
    }
}

/// Replacing the secret of a name that is there.
proof fn lemma_put(
    before: Seq<(Seq<char>, Seq<char>)>,
    after: Seq<(Seq<char>, Seq<char>)>,
    i: int,
    key: Seq<char>,
    value: Seq<char>,
    wanted: Map<Seq<char>, Seq<char>>,
)
    requires
        sorted(before),
        sorted(after),
        0 <= i < before.len(),
        before[i].0 == key,
        after == before.update(i, (key, value)),
        wanted == pairs_map(before).insert(key, value),
    ensures
        pairs_map(after) == wanted,
{
    lemma_pairs_map(before);
    assert forall|a: int| 0 <= a < after.len() implies wanted.contains_pair(
        (#[trigger] after[a]).0,
        after[a].1,
    ) by {
        if a != i {
            assert(pairs_map(before).contains_pair(before[a].0, before[a].1));
            lemma_sorted_keys_differ(before, a, i);
        }
    }
    assert forall|k: Seq<char>| #[trigger] wanted.contains_key(k) implies exists|a: int|
        0 <= a < after.len() && (#[trigger] after[a]).0 == k by {
        if k == key {
            assert(after[i].0 == k);
        } else {
            assert(pairs_map(before).contains_key(k));
            let a = choose|a: int| 0 <= a < before.len() && (#[trigger] before[a]).0 == k;
            assert(after[a].0 == k);
        }
    }
    lemma_pairs_map_is(after, wanted);
}

/// Texts are ordered as words in a dictionary: the first character in which they
/// differ decides, and a text comes before every longer one that begins with it.
pub proof fn first_difference_decides(
    front: Seq<char>,
    a: char,
    b: char,
    rest: Seq<char>,
    other: Seq<char>,
)
    requires
        a != b,
    ensures
        text_before(front + seq![a] + rest, front + seq![b] + other) <==> a < b,
        text_before(front, front + seq![a] + rest),
        !text_before(front + seq![a] + rest, front),
        !text_before(front, front),
    decreases front.len(),
{
    if front.len() > 0 {
        let tail = front.skip(1);
        first_difference_decides(tail, a, b, rest, other);
        assert((front + seq![a] + rest).skip(1) =~= tail + seq![a] + rest);
        assert((front + seq![b] + other).skip(1) =~= tail + seq![b] + other);
    }
}

/// The last pair of a name gives its value.
pub proof fn last_pair_of_a_name_counts(
    pairs: Seq<(Seq<char>, Seq<char>)>,
    name: Seq<char>,
    value: Seq<char>,
    other: Seq<char>,
)
    ensures
        pairs_map(Seq::empty()) == Map::<Seq<char>, Seq<char>>::empty(),
        pairs_map(pairs.push((name, value))).contains_pair(name, value),
        other != name ==> (pairs_map(pairs.push((name, value))).contains_key(other)
            <==> pairs_map(pairs).contains_key(other)),
        other != name && pairs_map(pairs).contains_key(other) ==> pairs_map(
            pairs.push((name, value)),
        )[other] == pairs_map(pairs)[other],
{
    assert(pairs.push((name, value)).drop_last() =~= pairs);
}

} // verus!
