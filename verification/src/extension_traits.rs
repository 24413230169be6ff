use std::collections::HashMap;
use std::hash::Hash;
use vstd::prelude::*;
use vstd::std_specs::hash::obeys_key_model;
use vstd::std_specs::iter::IteratorSpec;

verus! {

/// Whether some pair of `pairs` has the key `key`.
pub open spec fn has_key<K, V>(pairs: Seq<(K, V)>, key: K) -> bool {
    exists|i: int| 0 <= i < pairs.len() && (#[trigger] pairs[i]).0 == key
}

/// Whether `i` is the position of the last pair of `pairs` with the key `key`.
pub open spec fn is_last_position<K, V>(pairs: Seq<(K, V)>, key: K, i: int) -> bool {
    &&& 0 <= i < pairs.len()
    &&& pairs[i].0 == key
    &&& forall|j: int| i < j < pairs.len() ==> (#[trigger] pairs[j]).0 != key
}

/// The position of the last pair of `pairs` with the key `key`, where there is one.
pub open spec fn last_position<K, V>(pairs: Seq<(K, V)>, key: K) -> int {
    choose|i: int| is_last_position(pairs, key, i)
}

/// The mapping that a sequence of key-value pairs stands for: its keys are
/// the keys that occur, and each is mapped to the value of its last occurrence.
pub open spec fn dict_of<K, V>(pairs: Seq<(K, V)>) -> Map<K, V> {
    Map::new(|key: K| has_key(pairs, key), |key: K| pairs[last_position(pairs, key)].1)
}

/// A key that occurs has a last occurrence, and `last_position` names it.
pub proof fn lemma_last_position<K, V>(pairs: Seq<(K, V)>, key: K)
    requires
        has_key(pairs, key),
    ensures
        is_last_position(pairs, key, last_position(pairs, key)),
    decreases pairs.len(),
{
    let last = pairs.len() - 1;
    if pairs[last].0 == key {
        assert(is_last_position(pairs, key, last));
    } else {
        let front = pairs.drop_last();
        let i = choose|i: int| 0 <= i < pairs.len() && (#[trigger] pairs[i]).0 == key;
        assert(front[i].0 == key);
        lemma_last_position(front, key);
        let p = last_position(front, key);
        assert forall|j: int| p < j < pairs.len() implies (#[trigger] pairs[j]).0 != key by {
            if j < last {
                assert(front[j].0 != key);
            }
        }
        assert(is_last_position(pairs, key, p));
    }
}

/// A key that occurs is mapped to the value of its last occurrence.
pub proof fn lemma_dict_of_entry<K, V>(pairs: Seq<(K, V)>, key: K, i: int)
    requires
        is_last_position(pairs, key, i),
    ensures
        dict_of(pairs).contains_key(key),
        dict_of(pairs)[key] == pairs[i].1,
{
    assert(pairs[i].0 == key);
    lemma_last_position(pairs, key);
    let p = last_position(pairs, key);
    if p < i {
        assert(pairs[i].0 != key);
    }
    if i < p {
        assert(pairs[p].0 != key);
    }
}

/// Appending a pair to the sequence inserts it into the mapping, in place
/// of what its key was mapped to before.
pub proof fn lemma_dict_of_push<K, V>(pairs: Seq<(K, V)>, key: K, value: V)
    ensures
        dict_of(pairs.push((key, value))) == dict_of(pairs).insert(key, value),
{
    let longer = pairs.push((key, value));
    let end = pairs.len() as int;
    assert(longer[end].0 == key);
    assert forall|k: K| has_key(longer, k) == (k == key || has_key(pairs, k)) by {
        if has_key(longer, k) && k != key {
            let i = choose|i: int| 0 <= i < longer.len() && (#[trigger] longer[i]).0 == k;
            assert(pairs[i].0 == k);
        }
        if has_key(pairs, k) {
            let i = choose|i: int| 0 <= i < pairs.len() && (#[trigger] pairs[i]).0 == k;
            assert(longer[i].0 == k);
        }
    }
    assert forall|k: K| has_key(longer, k) implies #[trigger] dict_of(longer)[k] == dict_of(
        pairs,
    ).insert(key, value)[k] by {
        lemma_last_position(longer, k);
        let p = last_position(longer, k);
        if k == key {
            if p < end {
                assert(longer[end].0 != key);
            }
        } else {
            lemma_last_position(pairs, k);
            let q = last_position(pairs, k);
            assert(longer[q].0 == k);
            assert(pairs[p].0 == k);
        }
    }
    assert(dict_of(longer) =~= dict_of(pairs).insert(key, value));
}

/// Adapters that drain an iterator into a `Vec` or a `HashMap`.
pub trait IteratorExt: Sized + Iterator {
    /// Collects the items, in the order in which they are yielded.
    fn vec<T>(self) -> (result: Vec<T>) where Self: Iterator<Item = T>
        requires
            self.obeys_prophetic_iter_laws(),
            self.decrease() is Some,
        ensures
            result@ == self.remaining(),
    {
        let mut iter = self;
        let mut result: Vec<T> = Vec::new();
        loop
            invariant
                iter.obeys_prophetic_iter_laws(),
                iter.decrease() is Some,
                result@ + iter.remaining() == self.remaining(),
            decreases iter.decrease()->0,
        {
            match iter.next() {
                None => {
                    return result;
                },
                Some(item) => {
                    result.push(item);
                },
            }
        }
    }

    /// Collects the key-value pairs into a map; of two pairs with the same
    /// key, the later one stays.
    fn dict<K, V>(self) -> (result: HashMap<K, V>) where
        Self: Iterator<Item = (K, V)>,
        K: Hash + Eq,

        requires
            self.obeys_prophetic_iter_laws(),
            self.decrease() is Some,
        ensures
            obeys_key_model::<K>() ==> result@ == dict_of(self.remaining()),
    {
        let mut iter = self;
        let mut result: HashMap<K, V> = HashMap::new();
        let ghost mut taken: Seq<(K, V)> = Seq::empty();
        loop
            invariant
                iter.obeys_prophetic_iter_laws(),
                iter.decrease() is Some,
                taken + iter.remaining() == self.remaining(),
                obeys_key_model::<K>() ==> result@ == dict_of(taken),
            decreases iter.decrease()->0,
        {
            match iter.next() {
                None => {
                    return result;
                },
                Some((key, value)) => {
                    proof {
                        lemma_dict_of_push(taken, key, value);
                        taken = taken.push((key, value));
                    }
                    result.insert(key, value);
                },
            }
        }
    }
}

impl<T> IteratorExt for T where T: Iterator {}

} // verus!
