//! Assembling and storing a user's board state: configurations with their
//! supplies, items with their usages, and the flags and order kept in the
//! store.

use vstd::prelude::*;
use vstd::string::*;
use crate::text::same_text;

verus! {

/// The texts of a list of strings.
pub open spec fn texts(v: Seq<String>) -> Seq<Seq<char>> {
    v.map_values(|s: String| s@)
}

/// The positions, in increasing order, of the entries of `keys` equal to
/// `key`.
pub open spec fn members_of(keys: Seq<Seq<char>>, key: Seq<char>) -> Seq<usize>
    decreases keys.len(),
{
    if keys.len() == 0 {
        Seq::<usize>::empty()
    } else {
        let earlier = members_of(keys.drop_last(), key);
        if keys.last() == key {
            earlier.push((keys.len() - 1) as usize)
        } else {
            earlier
        }
    }
}

/// Groups rows under their owners: for each owner id, in order, the
/// positions of the rows whose owner id is that one, in row order. This is
/// how supplies go under their configuration and usages under their item.
pub fn group_by_owner(owner_ids: &Vec<String>, row_owner_ids: &Vec<String>) -> (groups: Vec<Vec<usize>>)
    ensures
        groups.len() == owner_ids.len(),
        forall|i: int|
            0 <= i < owner_ids.len() ==> (#[trigger] groups@[i])@ == members_of(
                texts(row_owner_ids@),
                owner_ids@[i]@,
            ),
{
    let ghost keys = texts(row_owner_ids@);
    let mut groups: Vec<Vec<usize>> = Vec::new();
    let mut i: usize = 0;
    while i < owner_ids.len()
        invariant
            i <= owner_ids.len(),
            groups.len() == i,
            keys == texts(row_owner_ids@),
            forall|k: int|
                0 <= k < i ==> (#[trigger] groups@[k])@ == members_of(keys, owner_ids@[k]@),
        decreases owner_ids.len() - i,
    {
        let owner = owner_ids[i].as_str();
        let mut members: Vec<usize> = Vec::new();
        let mut j: usize = 0;
        assert(keys.take(0) =~= Seq::<Seq<char>>::empty());
        while j < row_owner_ids.len()
            invariant
                i < owner_ids.len(),
                owner@ == owner_ids@[i as int]@,
                j <= row_owner_ids.len(),
                keys == texts(row_owner_ids@),
                members@ == members_of(keys.take(j as int), owner@),
            decreases row_owner_ids.len() - j,
        {
            assert(keys.take(j + 1).drop_last() =~= keys.take(j as int));
            assert(keys.take(j + 1).last() == row_owner_ids@[j as int]@);
            if same_text(row_owner_ids[j].as_str(), owner) {
                members.push(j);
            }
            j = j + 1;
        }
        assert(keys.take(row_owner_ids.len() as int) =~= keys);
        groups.push(members);
        i = i + 1;
    }
    groups
}

/// A row is listed under an owner exactly when its owner id is that
/// owner's, and rows are listed in increasing order, each at most once.
pub proof fn lemma_members_of(keys: Seq<Seq<char>>, key: Seq<char>)
    requires
        keys.len() <= usize::MAX,
    ensures
        forall|a: int|
            0 <= a < members_of(keys, key).len() ==> (#[trigger] members_of(keys, key)[a]) < keys.len()
                && keys[members_of(keys, key)[a] as int] == key,
        forall|j: int|
            0 <= j < keys.len() && #[trigger] keys[j] == key ==> members_of(keys, key).contains(
                j as usize,
            ),
        forall|a: int, b: int|
            0 <= a < b < members_of(keys, key).len() ==> #[trigger] members_of(keys, key)[a]
                < #[trigger] members_of(keys, key)[b],
    decreases keys.len(),
{
    if keys.len() > 0 {
        let init = keys.drop_last();
        lemma_members_of(init, key);
        let earlier = members_of(init, key);
        let m = members_of(keys, key);
        assert forall|j: int| 0 <= j < keys.len() && #[trigger] keys[j] == key implies m.contains(
            j as usize,
        ) by {
            if j < keys.len() - 1 {
                assert(init[j] == keys[j]);
                let a = choose|a: int| 0 <= a < earlier.len() && earlier[a] == j as usize;
                assert(m[a] == earlier[a]);
            } else {
                assert(m[m.len() - 1] == j as usize);
            }
        }
        assert forall|a: int| 0 <= a < m.len() implies (#[trigger] m[a]) < keys.len() && keys[m[a] as int]
            == key by {
            if a < earlier.len() {
                assert(m[a] == earlier[a]);
                assert(init[earlier[a] as int] == keys[earlier[a] as int]);
            }
        }
    }
}


/// How a yes/no flag (a configuration's `locked`) is kept in the store: 1
/// for yes, 0 for no.
pub open spec fn flag_value(flag: bool) -> int {
    if flag {
        1
    } else {
        0
    }
}

/// How a stored value is read as a flag: any value but 0 means yes.
pub open spec fn flag_of_value(v: int) -> bool {
    v != 0
}

/// The value that keeps `flag` in the store.
pub fn stored_flag(flag: bool) -> (v: i64)
    ensures
        v == flag_value(flag),
{
    if flag {
        1
    } else {
        0
    }
}

/// The flag that a stored value stands for.
pub fn flag_from_stored(v: i64) -> (flag: bool)
    ensures
        flag == flag_of_value(v as int),
{
    v != 0
}

/// A flag read back from the store is the flag that was stored.
pub proof fn lemma_flag_round_trip(flag: bool)
    ensures
        flag_of_value(flag_value(flag)) == flag,
{
}

/// The sort position of a new configuration: one after the highest in use,
/// where a user with no configuration counts -1 as the highest, so that the
/// first configuration comes at 0.
pub fn next_sort_order(highest: i64) -> (next: i64)
    requires
        highest < i64::MAX,
    ensures
        next == highest + 1,
{
    highest + 1
}

} // verus!
