//! Small association maps the registry is built on: lookup takes the first
//! entry under a key, insertion replaces that entry or appends a new one,
//! so each map behaves as a mathematical map from keys to the values last
//! recorded.
use vstd::prelude::*;

use crate::model::asset_pair::AssetPair;
use crate::model::price_update::PriceUpdate;

verus! {

/// The value recorded under a string key (request ids, subscription ids).
pub open spec fn id_lookup(m: Seq<(String, AssetPair)>, k: Seq<char>) -> Option<AssetPair>
    decreases m.len(),
{
    if m.len() == 0 {
        None
    } else if m[0].0@ == k {
        Some(m[0].1)
    } else {
        id_lookup(m.skip(1), k)
    }
}

/// The value recorded under a pair key (per-pair broadcast state).
pub open spec fn pair_lookup(
    m: Seq<(AssetPair, Option<PriceUpdate>)>,
    k: (Seq<char>, Seq<char>),
) -> Option<Option<PriceUpdate>>
    decreases m.len(),
{
    if m.len() == 0 {
        None
    } else if m[0].0.key() == k {
        Some(m[0].1)
    } else {
        pair_lookup(m.skip(1), k)
    }
}

proof fn lemma_id_lookup_push(m: Seq<(String, AssetPair)>, e: (String, AssetPair), k: Seq<char>)
    ensures
        id_lookup(m.push(e), k) == (if id_lookup(m, k) is Some {
            id_lookup(m, k)
        } else if e.0@ == k {
            Some(e.1)
        } else {
            None
        }),
    decreases m.len(),
{
    if m.len() == 0 {
        assert(m.push(e)[0] == e);
        assert(m.push(e).skip(1) =~= Seq::<(String, AssetPair)>::empty());
        assert(id_lookup(Seq::<(String, AssetPair)>::empty(), k) is None);
    } else {
        assert(m.push(e)[0] == m[0]);
        assert(m.push(e).skip(1) =~= m.skip(1).push(e));
        lemma_id_lookup_push(m.skip(1), e, k);
        if m[0].0@ == k {
            assert(id_lookup(m.push(e), k) == Some(m[0].1));
            assert(id_lookup(m, k) == Some(m[0].1));
        } else {
            assert(id_lookup(m.push(e), k) == id_lookup(m.skip(1).push(e), k));
            assert(id_lookup(m, k) == id_lookup(m.skip(1), k));
        }
    }
}

proof fn lemma_id_lookup_update(
    m: Seq<(String, AssetPair)>,
    i: int,
    e: (String, AssetPair),
    k: Seq<char>,
)
    requires
        0 <= i < m.len(),
        forall|j: int| 0 <= j < i ==> (#[trigger] m[j]).0@ != e.0@,
        m[i].0@ == e.0@,
    ensures
        id_lookup(m.update(i, e), k) == (if k == e.0@ {
            Some(e.1)
        } else {
            id_lookup(m, k)
        }),
    decreases i,
{
    let u = m.update(i, e);
    if i == 0 {
        assert(u.skip(1) =~= m.skip(1));
    } else {
        assert(u[0] == m[0]);
        assert(m[0].0@ != e.0@);
        assert(u.skip(1) =~= m.skip(1).update(i - 1, e));
        assert forall|j: int| 0 <= j < i - 1 implies (#[trigger] m.skip(1)[j]).0@ != e.0@ by {
            assert(m.skip(1)[j] == m[j + 1]);
        }
        lemma_id_lookup_update(m.skip(1), i - 1, e, k);
    }
}

proof fn lemma_pair_lookup_push(
    m: Seq<(AssetPair, Option<PriceUpdate>)>,
    e: (AssetPair, Option<PriceUpdate>),
    k: (Seq<char>, Seq<char>),
)
    ensures
        pair_lookup(m.push(e), k) == (if pair_lookup(m, k) is Some {
            pair_lookup(m, k)
        } else if e.0.key() == k {
            Some(e.1)
        } else {
            None
        }),
    decreases m.len(),
{
    if m.len() == 0 {
        assert(m.push(e)[0] == e);
        assert(m.push(e).skip(1) =~= Seq::<(AssetPair, Option<PriceUpdate>)>::empty());
        assert(pair_lookup(Seq::<(AssetPair, Option<PriceUpdate>)>::empty(), k) is None);
    } else {
        assert(m.push(e)[0] == m[0]);
        assert(m.push(e).skip(1) =~= m.skip(1).push(e));
        lemma_pair_lookup_push(m.skip(1), e, k);
        if m[0].0.key() == k {
            assert(pair_lookup(m.push(e), k) == Some(m[0].1));
            assert(pair_lookup(m, k) == Some(m[0].1));
        } else {
            assert(pair_lookup(m.push(e), k) == pair_lookup(m.skip(1).push(e), k));
            assert(pair_lookup(m, k) == pair_lookup(m.skip(1), k));
        }
    }
}

proof fn lemma_pair_lookup_update(
    m: Seq<(AssetPair, Option<PriceUpdate>)>,
    i: int,
    e: (AssetPair, Option<PriceUpdate>),
    k: (Seq<char>, Seq<char>),
)
    requires
        0 <= i < m.len(),
        forall|j: int| 0 <= j < i ==> (#[trigger] m[j]).0.key() != e.0.key(),
        m[i].0.key() == e.0.key(),
    ensures
        pair_lookup(m.update(i, e), k) == (if k == e.0.key() {
            Some(e.1)
        } else {
            pair_lookup(m, k)
        }),
    decreases i,
{
    let u = m.update(i, e);
    if i == 0 {
        assert(u.skip(1) =~= m.skip(1));
    } else {
        assert(u[0] == m[0]);
        assert(m[0].0.key() != e.0.key());
        assert(u.skip(1) =~= m.skip(1).update(i - 1, e));
        assert forall|j: int| 0 <= j < i - 1 implies (#[trigger] m.skip(1)[j]).0.key()
            != e.0.key() by {
            assert(m.skip(1)[j] == m[j + 1]);
        }
        lemma_pair_lookup_update(m.skip(1), i - 1, e, k);
    }
}

/// Find the value recorded under a string key.
pub fn id_find<'a>(m: &'a Vec<(String, AssetPair)>, k: &String) -> (r: Option<&'a AssetPair>)
    ensures
        match id_lookup(m@, k@) {
            Some(v) => r matches Some(p) && *p == v,
            None => r is None,
        },
{
    let mut i: usize = 0;
    proof {
        assert(m@.skip(0) =~= m@);
    }
    while i < m.len()
        invariant
            i <= m@.len(),
            id_lookup(m@.skip(i as int), k@) == id_lookup(m@, k@),
        decreases m@.len() - i,
    {
        proof {
            assert(m@.skip(i as int)[0] == m@[i as int]);
            assert(m@.skip(i as int).skip(1) =~= m@.skip(i as int + 1));
        }
        if m[i].0.eq(k) {
            return Some(&m[i].1);
        }
        i = i + 1;
    }
    proof {
        assert(m@.skip(i as int) =~= Seq::<(String, AssetPair)>::empty());
    }
    None
}

/// Record a value under a string key, replacing what the key held.
pub fn id_insert(m: &mut Vec<(String, AssetPair)>, k: String, v: AssetPair)
    ensures
        id_lookup(final(m)@, k@) == Some(v),
        forall|k2: Seq<char>| k2 != k@ ==> id_lookup(final(m)@, k2) == id_lookup(old(m)@, k2),
{
    let mut i: usize = 0;
    while i < m.len()
        invariant
            i <= m@.len(),
            m@ == old(m)@,
            forall|j: int| 0 <= j < i ==> (#[trigger] m@[j]).0@ != k@,
        decreases m@.len() - i,
    {
        if m[i].0.eq(&k) {
            let e = (k, v);
            proof {
                lemma_id_lookup_update(m@, i as int, e, k@);
                assert forall|k2: Seq<char>| k2 != e.0@ implies id_lookup(
                    m@.update(i as int, e),
                    k2,
                ) == id_lookup(m@, k2) by {
                    lemma_id_lookup_update(m@, i as int, e, k2);
                }
            }
            m.set(i, e);
            return ;
        }
        i = i + 1;
    }
    let e = (k, v);
    proof {
        lemma_id_lookup_push(m@, e, k@);
        // No entry holds the key, so the lookup before the push is None.
        assert forall|k2: Seq<char>| k2 != e.0@ implies id_lookup(m@.push(e), k2) == id_lookup(
            m@,
            k2,
        ) by {
            lemma_id_lookup_push(m@, e, k2);
        }
        lemma_id_lookup_none(m@, e.0@);
    }
    m.push(e);
}

/// A key no entry holds looks up to nothing.
proof fn lemma_id_lookup_none(m: Seq<(String, AssetPair)>, k: Seq<char>)
    requires
        forall|j: int| 0 <= j < m.len() ==> (#[trigger] m[j]).0@ != k,
    ensures
        id_lookup(m, k) is None,
    decreases m.len(),
{
    if m.len() > 0 {
        assert forall|j: int| 0 <= j < m.skip(1).len() implies (#[trigger] m.skip(1)[j]).0@
            != k by {
            assert(m.skip(1)[j] == m[j + 1]);
        }
        lemma_id_lookup_none(m.skip(1), k);
    }
}

/// Find the broadcast state recorded for a pair.
pub fn pair_find<'a>(m: &'a Vec<(AssetPair, Option<PriceUpdate>)>, k: &AssetPair) -> (r: Option<
    &'a Option<PriceUpdate>,
>)
    ensures
        match pair_lookup(m@, k.key()) {
            Some(v) => r matches Some(p) && *p == v,
            None => r is None,
        },
{
    let mut i: usize = 0;
    proof {
        assert(m@.skip(0) =~= m@);
    }
    while i < m.len()
        invariant
            i <= m@.len(),
            pair_lookup(m@.skip(i as int), k.key()) == pair_lookup(m@, k.key()),
        decreases m@.len() - i,
    {
        proof {
            assert(m@.skip(i as int)[0] == m@[i as int]);
            assert(m@.skip(i as int).skip(1) =~= m@.skip(i as int + 1));
        }
        if m[i].0.same_pair(k) {
            return Some(&m[i].1);
        }
        i = i + 1;
    }
    proof {
        assert(m@.skip(i as int) =~= Seq::<(AssetPair, Option<PriceUpdate>)>::empty());
    }
    None
}

/// Record broadcast state for a pair, replacing what the pair held.
pub fn pair_insert(
    m: &mut Vec<(AssetPair, Option<PriceUpdate>)>,
    k: AssetPair,
    v: Option<PriceUpdate>,
)
    ensures
        pair_lookup(final(m)@, k.key()) == Some(v),
        forall|k2: (Seq<char>, Seq<char>)|
            k2 != k.key() ==> pair_lookup(final(m)@, k2) == pair_lookup(old(m)@, k2),
{
    let mut i: usize = 0;
    while i < m.len()
        invariant
            i <= m@.len(),
            m@ == old(m)@,
            forall|j: int| 0 <= j < i ==> (#[trigger] m@[j]).0.key() != k.key(),
        decreases m@.len() - i,
    {
        if m[i].0.same_pair(&k) {
            let e = (k, v);
            proof {
                lemma_pair_lookup_update(m@, i as int, e, e.0.key());
                assert forall|k2: (Seq<char>, Seq<char>)| k2 != e.0.key() implies pair_lookup(
                    m@.update(i as int, e),
                    k2,
                ) == pair_lookup(m@, k2) by {
                    lemma_pair_lookup_update(m@, i as int, e, k2);
                }
            }
            m.set(i, e);
            return ;
        }
        i = i + 1;
    }
    let e = (k, v);
    proof {
        assert forall|k2: (Seq<char>, Seq<char>)| k2 != e.0.key() implies pair_lookup(
            m@.push(e),
            k2,
        ) == pair_lookup(m@, k2) by {
            lemma_pair_lookup_push(m@, e, k2);
        }
        lemma_pair_lookup_push(m@, e, e.0.key());
        lemma_pair_lookup_none(m@, e.0.key());
    }
    m.push(e);
}

/// A pair no entry holds looks up to nothing.
proof fn lemma_pair_lookup_none(m: Seq<(AssetPair, Option<PriceUpdate>)>, k: (Seq<char>, Seq<char>))
    requires
        forall|j: int| 0 <= j < m.len() ==> (#[trigger] m[j]).0.key() != k,
    ensures
        pair_lookup(m, k) is None,
    decreases m.len(),
{
    if m.len() > 0 {
        assert forall|j: int| 0 <= j < m.skip(1).len() implies (#[trigger] m.skip(1)[j]).0.key()
            != k by {
            assert(m.skip(1)[j] == m[j + 1]);
        }
        lemma_pair_lookup_none(m.skip(1), k);
    }
}

} // verus!
