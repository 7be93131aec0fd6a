//! A dictionary of texts that keeps the order in which its keys came first.
use vstd::prelude::*;

verus! {

/// An entry of a dictionary: key and value.
pub type Entry = (Seq<char>, Seq<char>);

/// The views of key and value of each pair.
pub open spec fn entries(pairs: Seq<(String, String)>) -> Seq<Entry> {
    pairs.map_values(|pair: (String, String)| (pair.0@, pair.1@))
}

/// Whether `key` is one of the keys.
pub open spec fn has_key(dict: Seq<Entry>, key: Seq<char>) -> bool {
    exists|i: int| 0 <= i < dict.len() && (#[trigger] dict[i]).0 == key
}

/// Whether `dict` gives `value` for `key`.
pub open spec fn maps(dict: Seq<Entry>, key: Seq<char>, value: Seq<char>) -> bool {
    exists|i: int| 0 <= i < dict.len() && #[trigger] dict[i] == (key, value)
}

/// Whether no key occurs twice.
pub open spec fn keys_distinct(dict: Seq<Entry>) -> bool {
    forall|i: int, j: int|
        0 <= i < j < dict.len() ==> (#[trigger] dict[i]).0 != (#[trigger] dict[j]).0
}

/// `dict` after `key` was set to `value`: a key that is there keeps its place, a
/// new one goes to the end.
pub open spec fn with_item(dict: Seq<Entry>, key: Seq<char>, value: Seq<char>) -> Seq<Entry> {
    if has_key(dict, key) {
        dict.map_values(
            |entry: Entry|
                if entry.0 == key {
                    (key, value)
                } else {
                    entry
                },
        )
    } else {
        dict.push((key, value))
    }
}

/// Setting an item keeps the keys distinct, gives the new value for its key, and
/// leaves every other key as it was.
pub proof fn law_with_item(dict: Seq<Entry>, key: Seq<char>, value: Seq<char>)
    requires
        keys_distinct(dict),
    ensures
        keys_distinct(with_item(dict, key, value)),
        forall|k: Seq<char>, v: Seq<char>|
            #![trigger maps(with_item(dict, key, value), k, v)]
            maps(with_item(dict, key, value), k, v) <==> (if k == key {
                v == value
            } else {
                maps(dict, k, v)
            }),
{
    let after = with_item(dict, key, value);
    assert forall|k: Seq<char>, v: Seq<char>|
        #![trigger maps(after, k, v)]
        maps(after, k, v) <==> (if k == key {
            v == value
        } else {
            maps(dict, k, v)
        }) by {
        if maps(after, k, v) {
            let i = choose|i: int| 0 <= i < after.len() && #[trigger] after[i] == (k, v);
            if k != key {
                assert(dict[i] == (k, v));
            }
        }
        if k == key && v == value {
            if has_key(dict, key) {
                let i = choose|i: int| 0 <= i < dict.len() && (#[trigger] dict[i]).0 == key;
                assert(after[i] == (key, value));
            } else {
                assert(after[dict.len() as int] == (key, value));
            }
        }
        if k != key && maps(dict, k, v) {
            let i = choose|i: int| 0 <= i < dict.len() && #[trigger] dict[i] == (k, v);
            assert(after[i] == (k, v));
        }
    }
}

/// Setting an item moves no entry. A key that is there stays in its place and gets the new
/// value, all other entries are as they were; a key that is not there makes a new entry at
/// the end.
pub proof fn law_items_keep_their_places(dict: Seq<Entry>, key: Seq<char>, value: Seq<char>)
    ensures
        ({
            let after = with_item(dict, key, value);
            let known = exists|i: int| 0 <= i < dict.len() && (#[trigger] dict[i]).0 == key;
            &&& after.len() == dict.len() + (if known {
                0int
            } else {
                1
            })
            &&& forall|i: int|
                0 <= i < dict.len() ==> (#[trigger] after[i]).0 == dict[i].0 && after[i].1 == (
                if dict[i].0 == key {
                    value
                } else {
                    dict[i].1
                })
            &&& !known ==> after.last() == (key, value)
        }),
{
}

/// The entries of a list of pairs are its pairs, one for one.
pub proof fn law_entries_are_the_pairs(pairs: Seq<(String, String)>)
    ensures
        entries(pairs).len() == pairs.len(),
        forall|i: int|
            0 <= i < pairs.len() ==> #[trigger] entries(pairs)[i] == (pairs[i].0@, pairs[i].1@),
{
}

/// Sets `key` to `value`.
pub fn set_item(dict: &mut Vec<(String, String)>, key: String, value: String)
    requires
        keys_distinct(entries(old(dict)@)),
    ensures
        entries(final(dict)@) == with_item(entries(old(dict)@), key@, value@),
        keys_distinct(entries(final(dict)@)),
{
    let ghost before = entries(dict@);
    proof {
        law_with_item(before, key@, value@);
    }
    let mut i: usize = 0;
    while i < dict.len()
        invariant
            i <= dict@.len(),
            before == entries(dict@),
            keys_distinct(before),
            forall|k: int| 0 <= k < i ==> (#[trigger] before[k]).0 != key@,
            *dict == *old(dict),
        decreases dict@.len() - i,
    {
        if dict[i].0 == key {
            let ghost after = with_item(before, key@, value@);
            assert(before[i as int].0 == key@);
            dict.set(i, (key, value));
            assert(entries(dict@) =~= after) by {
                assert forall|k: int| 0 <= k < after.len() implies entries(dict@)[k] == after[k] by {
                    if k != i {
                        assert(before[k].0 != before[i as int].0);
                    }
                }
            }
            return;
        }
        i = i + 1;
    }
    assert(!has_key(before, key@));
    dict.push((key, value));
    assert(entries(dict@) =~= before.push((key@, value@)));
}

} // verus!
