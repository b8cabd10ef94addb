//! An association list from byte-string keys to byte-string values, with a
//! `Map` view.  Later entries shadow earlier ones, so appending is insertion.
//! Both the sealed store and the key-value state are built on it.

use vstd::prelude::*;
use crate::types::bytes_eq;

verus! {

/// The map denoted by an entry sequence: each entry overrides earlier ones.
pub open spec fn map_of(s: Seq<(Vec<u8>, Vec<u8>)>) -> Map<Seq<u8>, Seq<u8>>
    decreases s.len(),
{
    if s.len() == 0 {
        Map::empty()
    } else {
        map_of(s.drop_last()).insert(s.last().0@, s.last().1@)
    }
}

/// Inserts a binding by appending it.
pub fn assoc_put(v: &mut Vec<(Vec<u8>, Vec<u8>)>, key: Vec<u8>, val: Vec<u8>)
    ensures
        map_of(final(v)@) == map_of(old(v)@).insert(key@, val@),
        final(v)@ == old(v)@.push((key, val)),
{
    let ghost k: Seq<u8> = key@;
    let ghost va: Seq<u8> = val@;
    v.push((key, val));
    assert(v@.drop_last() =~= old(v)@);
}

/// Looks a key up; the result is the value the map view assigns to it.
pub fn assoc_get<'a>(v: &'a Vec<(Vec<u8>, Vec<u8>)>, key: &[u8]) -> (r: Option<&'a Vec<u8>>)
    ensures
        match r {
            Some(val) => map_of(v@).dom().contains(key@) && map_of(v@)[key@] == val@,
            None => !map_of(v@).dom().contains(key@),
        },
{
    let mut j: usize = v.len();
    assert(v@.take(j as int) =~= v@);
    while j > 0
        invariant
            j <= v@.len(),
            map_of(v@).dom().contains(key@) == map_of(v@.take(j as int)).dom().contains(key@),
            map_of(v@).dom().contains(key@) ==> map_of(v@)[key@] == map_of(
                v@.take(j as int),
            )[key@],
        decreases j,
    {
        assert(v@.take(j as int).drop_last() =~= v@.take(j - 1));
        assert(v@.take(j as int).last() == v@[j - 1]);
        if bytes_eq(v[j - 1].0.as_slice(), key) {
            return Some(&v[j - 1].1);
        }
        j = j - 1;
    }
    assert(v@.take(0) =~= Seq::<(Vec<u8>, Vec<u8>)>::empty());
    None
}

/// Whether the map view binds the key.
pub fn assoc_contains(v: &Vec<(Vec<u8>, Vec<u8>)>, key: &[u8]) -> (r: bool)
    ensures
        r == map_of(v@).dom().contains(key@),
{
    match assoc_get(v, key) {
        Some(_) => true,
        None => false,
    }
}

/// The entry sequence by content: each entry as its key and value bytes.
pub open spec fn entries_rep(s: Seq<(Vec<u8>, Vec<u8>)>) -> Seq<(Seq<u8>, Seq<u8>)> {
    Seq::new(s.len(), |i: int| (s[i].0@, s[i].1@))
}

/// An entry sequence with every entry of the given key dropped, order kept.
pub open spec fn remove_key_rep(rep: Seq<(Seq<u8>, Seq<u8>)>, k: Seq<u8>) -> Seq<
    (Seq<u8>, Seq<u8>),
>
    decreases rep.len(),
{
    if rep.len() == 0 {
        Seq::empty()
    } else {
        let rest = remove_key_rep(rep.drop_last(), k);
        if rep.last().0 == k {
            rest
        } else {
            rest.push(rep.last())
        }
    }
}

/// Removes every binding of the key; the map view loses exactly that key,
/// and the remaining entries keep their content and order.
pub fn assoc_remove(v: &mut Vec<(Vec<u8>, Vec<u8>)>, key: &[u8])
    ensures
        map_of(final(v)@) == map_of(old(v)@).remove(key@),
        entries_rep(final(v)@) == remove_key_rep(entries_rep(old(v)@), key@),
{
    let n: usize = v.len();
    let mut out: Vec<(Vec<u8>, Vec<u8>)> = Vec::new();
    let mut i: usize = 0;
    while i < n
        invariant
            n == v@.len(),
            i <= n,
            map_of(out@) =~= map_of(v@.take(i as int)).remove(key@),
            entries_rep(out@) =~= remove_key_rep(entries_rep(v@.take(i as int)), key@),
        decreases n - i,
    {
        assert(v@.take(i + 1).drop_last() =~= v@.take(i as int));
        assert(v@.take(i + 1).last() == v@[i as int]);
        assert(entries_rep(v@.take(i + 1)).drop_last() =~= entries_rep(v@.take(i as int)));
        assert(entries_rep(v@.take(i + 1)).last() == (v@[i as int].0@, v@[i as int].1@));
        let hit = bytes_eq(v[i].0.as_slice(), key);
        if !hit {
            let ghost prev = out@;
            let entry = (v[i].0.clone(), v[i].1.clone());
            assert(entry.0@ == v@[i as int].0@ && entry.1@ == v@[i as int].1@);
            out.push(entry);
            assert(out@.drop_last() =~= prev);
            assert(map_of(out@) =~= map_of(v@.take(i + 1)).remove(key@));
            assert(entries_rep(out@).drop_last() =~= entries_rep(prev));
            assert(entries_rep(out@) =~= remove_key_rep(entries_rep(v@.take(i + 1)), key@));
        } else {
            assert(map_of(v@.take(i + 1)).remove(key@) =~= map_of(v@.take(i as int)).remove(
                key@,
            ));
            assert(entries_rep(out@) =~= remove_key_rep(entries_rep(v@.take(i + 1)), key@));
        }
        i = i + 1;
    }
    assert(v@.take(n as int) =~= v@);
    *v = out;
}

} // verus!
