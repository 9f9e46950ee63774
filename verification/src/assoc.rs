//! Association lists kept sorted by key, the map model behind parameter and
//! header mappings: inserting an existing key replaces its value, and walking
//! the entries visits keys in ascending lexicographic order.
use vstd::prelude::*;

verus! {

use crate::text::lex_lt;
use crate::text::lemma_lex_lt_trichotomy;
use crate::text::lemma_lex_lt_trans;
use crate::text::str_eq;
use crate::text::str_lt;

/// Keys strictly ascending.
pub open spec fn entries_sorted<V>(m: Seq<(Seq<char>, V)>) -> bool {
    forall|i: int, j: int| 0 <= i < j < m.len() ==> lex_lt(m[i].0, m[j].0)
}

/// Insert-or-replace, keeping keys sorted.
pub open spec fn assoc_insert<V>(m: Seq<(Seq<char>, V)>, k: Seq<char>, v: V) -> Seq<
    (Seq<char>, V),
>
    decreases m.len(),
{
    if m.len() == 0 {
        seq![(k, v)]
    } else if lex_lt(k, m[0].0) {
        seq![(k, v)] + m
    } else if k == m[0].0 {
        seq![(k, v)] + m.drop_first()
    } else {
        seq![m[0]] + assoc_insert(m.drop_first(), k, v)
    }
}

/// The value stored under `k`, if any.
pub open spec fn assoc_get<V>(m: Seq<(Seq<char>, V)>, k: Seq<char>) -> Option<V>
    decreases m.len(),
{
    if m.len() == 0 {
        None
    } else if m[0].0 == k {
        Some(m[0].1)
    } else {
        assoc_get(m.drop_first(), k)
    }
}

/// Whether some entry has key `k`.
pub open spec fn assoc_has_key<V>(m: Seq<(Seq<char>, V)>, k: Seq<char>) -> bool {
    assoc_get(m, k) is Some
}

/// Inserting preserves sortedness.
pub proof fn lemma_assoc_insert_sorted<V>(m: Seq<(Seq<char>, V)>, k: Seq<char>, v: V)
    requires
        entries_sorted(m),
    ensures
        entries_sorted(assoc_insert(m, k, v)),
    decreases m.len(),
{
    if m.len() == 0 {
    } else if lex_lt(k, m[0].0) {
        let r = seq![(k, v)] + m;
        assert forall|i: int, j: int| 0 <= i < j < r.len() implies lex_lt(r[i].0, r[j].0) by {
            if i == 0 && j > 1 {
                lemma_lex_lt_trans(k, m[0].0, m[j - 1].0);
            }
        }
    } else if k == m[0].0 {
        let r = seq![(k, v)] + m.drop_first();
        assert forall|i: int, j: int| 0 <= i < j < r.len() implies lex_lt(r[i].0, r[j].0) by {
            assert(r[j].0 == m[j].0);
            if i > 0 {
                assert(r[i].0 == m[i].0);
            }
        }
    } else {
        lemma_lex_lt_trichotomy(k, m[0].0);
        assert(lex_lt(m[0].0, k));
        assert(entries_sorted(m.drop_first()));
        lemma_assoc_insert_sorted(m.drop_first(), k, v);
        let rest = assoc_insert(m.drop_first(), k, v);
        let r = seq![m[0]] + rest;
        lemma_assoc_insert_head(m.drop_first(), k, v, m[0].0);
        assert forall|i: int, j: int| 0 <= i < j < r.len() implies lex_lt(r[i].0, r[j].0) by {
            if i > 0 {
                assert(lex_lt(rest[i - 1].0, rest[j - 1].0));
            }
        }
    }
}

/// Every key of the inserted list is above a bound that lies below `k`
/// and below every key of `m`.
proof fn lemma_assoc_insert_head<V>(m: Seq<(Seq<char>, V)>, k: Seq<char>, v: V, lo: Seq<char>)
    requires
        lex_lt(lo, k),
        forall|i: int| 0 <= i < m.len() ==> lex_lt(lo, #[trigger] m[i].0),
    ensures
        forall|i: int|
            0 <= i < assoc_insert(m, k, v).len() ==> lex_lt(
                lo,
                #[trigger] assoc_insert(m, k, v)[i].0,
            ),
    decreases m.len(),
{
    if m.len() == 0 {
    } else if lex_lt(k, m[0].0) {
    } else if k == m[0].0 {
        assert forall|i: int| 0 <= i < assoc_insert(m, k, v).len() implies lex_lt(
            lo,
            #[trigger] assoc_insert(m, k, v)[i].0,
        ) by {
            if i > 0 {
                assert(assoc_insert(m, k, v)[i].0 == m[i].0);
            }
        }
    } else {
        assert(forall|i: int| 0 <= i < m.drop_first().len() ==> lex_lt(lo, #[trigger] m.drop_first()[i].0));
        lemma_assoc_insert_head(m.drop_first(), k, v, lo);
        assert forall|i: int| 0 <= i < assoc_insert(m, k, v).len() implies lex_lt(
            lo,
            #[trigger] assoc_insert(m, k, v)[i].0,
        ) by {
            if i > 0 {
                assert(assoc_insert(m, k, v)[i] == assoc_insert(m.drop_first(), k, v)[i - 1]);
            }
        }
    }
}

/// Insert-or-replace into a key-sorted vector of entries.
pub fn map_set<V: DeepView>(m: &mut Vec<(String, V)>, k: String, v: V)
    ensures
        final(m).deep_view() == assoc_insert(old(m).deep_view(), k@, v.deep_view()),
{
    let ghost dv = m.deep_view();
    let ghost kv = k@;
    let ghost vv = v.deep_view();
    let mut j: usize = 0;
    proof {
        assert(dv.skip(0) =~= dv);
        assert(dv.take(0) =~= Seq::<(Seq<char>, V::V)>::empty());
        assert(dv.take(0) + assoc_insert(dv.skip(0), kv, vv) =~= assoc_insert(dv, kv, vv));
    }
    while j < m.len() && str_lt(m[j].0.as_str(), k.as_str())
        invariant
            0 <= j <= m@.len(),
            m.deep_view() == dv,
            m@.len() == dv.len(),
            kv == k@,
            vv == v.deep_view(),
            assoc_insert(dv, kv, vv) == dv.take(j as int) + assoc_insert(
                dv.skip(j as int),
                kv,
                vv,
            ),
            forall|i: int| 0 <= i < j ==> lex_lt(#[trigger] dv[i].0, kv),
        decreases m@.len() - j,
    {
        proof {
            assert(dv[j as int] == m@[j as int].deep_view());
            assert(dv[j as int].0 == m@[j as int].0@);
            lemma_lex_lt_trichotomy(kv, dv[j as int].0);
            let tail = dv.skip(j as int);
            assert(tail[0] == dv[j as int]);
            assert(assoc_insert(tail, kv, vv) == seq![tail[0]] + assoc_insert(
                tail.drop_first(),
                kv,
                vv,
            ));
            assert(tail.drop_first() =~= dv.skip(j + 1));
            assert(dv.take(j as int) + (seq![tail[0]] + assoc_insert(dv.skip(j + 1), kv, vv))
                =~= dv.take(j + 1) + assoc_insert(dv.skip(j + 1), kv, vv));
        }
        j = j + 1;
    }
    proof {
        assert(dv.skip(j as int).len() == dv.len() - j);
    }
    if j < m.len() && str_eq(m[j].0.as_str(), k.as_str()) {
        proof {
            let tail = dv.skip(j as int);
            assert(tail[0] == dv[j as int]);
            assert(dv[j as int].0 == kv);
            assert(!lex_lt(kv, tail[0].0)) by {
                lemma_lex_lt_trichotomy(kv, tail[0].0);
            }
            assert(assoc_insert(tail, kv, vv) == seq![(kv, vv)] + tail.drop_first());
            assert(tail.drop_first() =~= dv.skip(j + 1));
        }
        m.remove(j);
        m.insert(j, (k, v));
        proof {
            assert(m.deep_view() =~= dv.take(j as int) + (seq![(kv, vv)] + dv.skip(j + 1)));
        }
    } else {
        proof {
            let tail = dv.skip(j as int);
            if tail.len() == 0 {
                assert(assoc_insert(tail, kv, vv) == seq![(kv, vv)]);
            } else {
                assert(tail[0] == dv[j as int]);
                assert(tail[0].0 != kv);
                lemma_lex_lt_trichotomy(kv, tail[0].0);
                assert(lex_lt(kv, tail[0].0));
                assert(assoc_insert(tail, kv, vv) == seq![(kv, vv)] + tail);
            }
        }
        m.insert(j, (k, v));
        proof {
            assert(m.deep_view() =~= dv.take(j as int) + (seq![(kv, vv)] + dv.skip(j as int)));
        }
    }
}

/// Look a key up in an entry vector.
pub fn map_get<'a, V: DeepView>(m: &'a Vec<(String, V)>, k: &str) -> (r: Option<&'a V>)
    ensures
        match r {
            Some(v) => assoc_get(m.deep_view(), k@) == Some(v.deep_view()),
            None => assoc_get(m.deep_view(), k@) is None,
        },
{
    let ghost dv = m.deep_view();
    let mut j: usize = 0;
    proof {
        assert(dv.skip(0) =~= dv);
    }
    while j < m.len()
        invariant
            0 <= j <= m@.len(),
            m.deep_view() == dv,
            m@.len() == dv.len(),
            assoc_get(dv, k@) == assoc_get(dv.skip(j as int), k@),
        decreases m@.len() - j,
    {
        proof {
            assert(dv[j as int] == m@[j as int].deep_view());
        }
        if str_eq(m[j].0.as_str(), k) {
            proof {
                assert(dv.skip(j as int)[0] == dv[j as int]);
            }
            return Some(&m[j].1);
        }
        proof {
            assert(dv.skip(j as int)[0] == dv[j as int]);
            assert(dv.skip(j as int).drop_first() =~= dv.skip(j + 1));
        }
        j = j + 1;
    }
    proof {
        assert(dv.skip(j as int).len() == 0);
    }
    None
}

/// Whether an entry vector holds a key.
pub fn map_has_key<V: DeepView>(m: &Vec<(String, V)>, k: &str) -> (r: bool)
    ensures
        r == assoc_has_key(m.deep_view(), k@),
{
    map_get(m, k).is_some()
}

} // verus!
