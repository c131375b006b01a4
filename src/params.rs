//! Parameter maps kept as lists of key/value pairs with unique keys.
use vstd::prelude::*;

use crate::text::pairs_of;

verus! {

/// The map that a list of pairs describes; a later pair overrides an
/// earlier one with the same key.
pub open spec fn pairs_map(s: Seq<(Seq<char>, Seq<char>)>) -> Map<Seq<char>, Seq<char>>
    decreases s.len(),
{
    if s.len() == 0 {
        Map::empty()
    } else {
        pairs_map(s.drop_last()).insert(s.last().0, s.last().1)
    }
}

pub open spec fn keys_unique(s: Seq<(Seq<char>, Seq<char>)>) -> bool {
    forall|i: int, j: int| 0 <= i < j < s.len() ==> #[trigger] s[i].0 != #[trigger] s[j].0
}

/// The map held by a list of string pairs.
pub open spec fn params_map(v: Seq<(String, String)>) -> Map<Seq<char>, Seq<char>> {
    pairs_map(pairs_of(v))
}

proof fn lemma_pairs_map_no_key(s: Seq<(Seq<char>, Seq<char>)>, k: Seq<char>)
    requires
        forall|i: int| 0 <= i < s.len() ==> #[trigger] s[i].0 != k,
    ensures
        !pairs_map(s).contains_key(k),
    decreases s.len(),
{
    if s.len() > 0 {
        lemma_pairs_map_no_key(s.drop_last(), k);
    }
}

proof fn lemma_pairs_map_update(s: Seq<(Seq<char>, Seq<char>)>, i: int, v: Seq<char>)
    requires
        0 <= i < s.len(),
        keys_unique(s),
    ensures
        pairs_map(s.update(i, (s[i].0, v))) == pairs_map(s).insert(s[i].0, v),
    decreases s.len(),
{
    let t = s.update(i, (s[i].0, v));
    if i == s.len() - 1 {
        assert(t.drop_last() =~= s.drop_last());
        assert(pairs_map(t) =~= pairs_map(s).insert(s[i].0, v));
    } else {
        assert(t.drop_last() =~= s.drop_last().update(i, (s[i].0, v)));
        lemma_pairs_map_update(s.drop_last(), i, v);
        assert(s.last().0 != s[i].0);
        assert(pairs_map(t) =~= pairs_map(s).insert(s[i].0, v));
    }
}

/// Sets `key` to `value`, replacing the pair that holds `key` if there is one.
pub fn put_param(params: &mut Vec<(String, String)>, key: String, value: String)
    requires
        keys_unique(pairs_of(old(params)@)),
    ensures
        keys_unique(pairs_of(final(params)@)),
        params_map(final(params)@) == params_map(old(params)@).insert(key@, value@),
{
    let ghost s = pairs_of(params@);
    let mut i: usize = 0;
    while i < params.len()
        invariant
            i <= params@.len(),
            s == pairs_of(params@),
            params@ == old(params)@,
            keys_unique(s),
            forall|j: int| 0 <= j < i ==> #[trigger] s[j].0 != key@,
        decreases params@.len() - i,
    {
        if params[i].0 == key {
            assert(s[i as int].0 == key@);
            let ghost kk = key@;
            let ghost vv = value@;
            params.set(i, (key, value));
            assert(params_map(params@) == params_map(old(params)@).insert(kk, vv)) by {
                assert(pairs_of(params@) =~= s.update(i as int, (s[i as int].0, vv)));
                lemma_pairs_map_update(s, i as int, vv);
            }
            proof {
                assert(pairs_of(params@) =~= s.update(i as int, (s[i as int].0, value@)));
                lemma_pairs_map_update(s, i as int, value@);
                assert forall|a: int, b: int| 0 <= a < b < s.len() implies #[trigger] pairs_of(
                    params@,
                )[a].0 != #[trigger] pairs_of(params@)[b].0 by {
                    assert(pairs_of(params@)[a].0 == s[a].0);
                    assert(pairs_of(params@)[b].0 == s[b].0);
                }
            }
            return;
        }
        i += 1;
    }
    let ghost kk = key@;
    let ghost vv = value@;
    params.push((key, value));
    proof {
        assert(pairs_of(params@) =~= s.push((kk, vv)));
        assert(pairs_of(params@).drop_last() =~= s);
    }
}

} // verus!
