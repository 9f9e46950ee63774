//! Header canonicalization for signing: select the headers that participate,
//! lowercase their names, and lay them out as the canonical header block in
//! ascending name order.
use vstd::prelude::*;

verus! {

use vstd::string::StrSliceExecFns;

use crate::assoc::assoc_insert;
use crate::assoc::entries_sorted;
use crate::assoc::lemma_assoc_insert_sorted;
use crate::assoc::map_set;
use crate::config::AuthVersion;
use crate::text::lemma_lex_lt_trans;
use crate::text::lemma_lex_lt_trichotomy;
use crate::text::lex_lt;
use crate::text::push_str;
use crate::text::str_eq;
use crate::text::str_lt;
use crate::types::Headers;

/// What `str::to_lowercase` returns: the lowercase form of a string, a
/// function of its characters alone.
pub uninterp spec fn lower_of(s: Seq<char>) -> Seq<char>;

/// Relies on str::to_lowercase: the result depends on the characters alone.
#[verifier::external_body]
pub fn lowercase(s: &str) -> (r: String)
    ensures
        r@ == lower_of(s@),
{
    s.to_lowercase()
}

/// Whether `p` is a prefix of `s`.
pub open spec fn is_prefix(s: Seq<char>, p: Seq<char>) -> bool {
    p.len() <= s.len() && s.take(p.len() as int) == p
}

/// Decide whether `p` is a prefix of `s`.
pub fn starts_with_str(s: &str, p: &str) -> (r: bool)
    ensures
        r == is_prefix(s@, p@),
{
    let plen = p.unicode_len();
    let slen = s.unicode_len();
    if plen > slen {
        return false;
    }
    let mut i: usize = 0;
    while i < plen
        invariant
            0 <= i <= plen,
            plen == p@.len(),
            slen == s@.len(),
            plen <= slen,
            forall|j: int| 0 <= j < i ==> s@[j] == p@[j],
        decreases plen - i,
    {
        if s.get_char(i) != p.get_char(i) {
            proof {
                assert(s@.take(plen as int)[i as int] != p@[i as int]);
            }
            return false;
        }
        i = i + 1;
    }
    proof {
        assert(s@.take(plen as int) =~= p@);
    }
    true
}

/// Whether a (lowercased) header name belongs to the protocol's own header
/// namespace and is therefore always signed.
pub open spec fn is_oss_header(kl: Seq<char>) -> bool {
    is_prefix(kl, "x-oss-"@)
}

/// Whether `ks` holds `k`.
pub open spec fn keys_contain(ks: Seq<Seq<char>>, k: Seq<char>) -> bool {
    exists|i: int| 0 <= i < ks.len() && ks[i] == k
}

/// Decide whether a key list holds `k`.
pub fn key_list_contains(ks: &Vec<String>, k: &str) -> (r: bool)
    ensures
        r == keys_contain(ks.deep_view(), k@),
{
    let ghost dv = ks.deep_view();
    let mut i: usize = 0;
    while i < ks.len()
        invariant
            0 <= i <= ks@.len(),
            ks.deep_view() == dv,
            ks@.len() == dv.len(),
            forall|j: int| 0 <= j < i ==> dv[j] != k@,
        decreases ks@.len() - i,
    {
        proof {
            assert(dv[i as int] == ks@[i as int]@);
        }
        if str_eq(ks[i].as_str(), k) {
            return true;
        }
        i = i + 1;
    }
    false
}

/// Insert a key into a sorted key list, keeping it sorted and duplicate-free.
pub open spec fn key_insert(ks: Seq<Seq<char>>, k: Seq<char>) -> Seq<Seq<char>>
    decreases ks.len(),
{
    if ks.len() == 0 {
        seq![k]
    } else if lex_lt(k, ks[0]) {
        seq![k] + ks
    } else if k == ks[0] {
        ks
    } else {
        seq![ks[0]] + key_insert(ks.drop_first(), k)
    }
}

/// Insert a key into a sorted key vector.
pub fn key_set_insert(ks: &mut Vec<String>, k: String)
    ensures
        final(ks).deep_view() == key_insert(old(ks).deep_view(), k@),
{
    let ghost dv = ks.deep_view();
    let ghost kv = k@;
    let mut j: usize = 0;
    proof {
        assert(dv.skip(0) =~= dv);
        assert(dv.take(0) + key_insert(dv.skip(0), kv) =~= key_insert(dv, kv));
    }
    while j < ks.len() && str_lt(ks[j].as_str(), k.as_str())
        invariant
            0 <= j <= ks@.len(),
            ks.deep_view() == dv,
            ks@.len() == dv.len(),
            kv == k@,
            key_insert(dv, kv) == dv.take(j as int) + key_insert(dv.skip(j as int), kv),
        decreases ks@.len() - j,
    {
        proof {
            assert(dv[j as int] == ks@[j as int]@);
            lemma_lex_lt_trichotomy(kv, dv[j as int]);
            let tail = dv.skip(j as int);
            assert(tail[0] == dv[j as int]);
            assert(key_insert(tail, kv) == seq![tail[0]] + key_insert(tail.drop_first(), kv));
            assert(tail.drop_first() =~= dv.skip(j + 1));
            assert(dv.take(j as int) + (seq![tail[0]] + key_insert(dv.skip(j + 1), kv)) =~= dv.take(
                j + 1,
            ) + key_insert(dv.skip(j + 1), kv));
        }
        j = j + 1;
    }
    proof {
        assert(dv.skip(j as int).len() == dv.len() - j);
    }
    if j < ks.len() && str_eq(ks[j].as_str(), k.as_str()) {
        proof {
            let tail = dv.skip(j as int);
            assert(tail[0] == dv[j as int]);
            assert(dv[j as int] == kv);
            lemma_lex_lt_trichotomy(kv, tail[0]);
            assert(key_insert(tail, kv) == tail);
            assert(dv.take(j as int) + dv.skip(j as int) =~= dv);
        }
    } else {
        proof {
            let tail = dv.skip(j as int);
            if tail.len() == 0 {
                assert(key_insert(tail, kv) == seq![kv]);
            } else {
                assert(tail[0] == dv[j as int]);
                assert(tail[0] != kv);
                lemma_lex_lt_trichotomy(kv, tail[0]);
                assert(lex_lt(kv, tail[0]));
                assert(key_insert(tail, kv) == seq![kv] + tail);
            }
        }
        ks.insert(j, k);
        proof {
            assert(ks.deep_view() =~= dv.take(j as int) + (seq![kv] + dv.skip(j as int)));
        }
    }
}

/// Whether some header name of `h` matches `n` after lowercasing both.
pub open spec fn has_header_ci(h: Seq<(Seq<char>, Seq<char>)>, n: Seq<char>) -> bool {
    exists|i: int| 0 <= i < h.len() && lower_of(#[trigger] h[i].0) == lower_of(n)
}

/// Decide whether the request carries a header named `n`, case-insensitively.
fn header_present_ci(headers: &Headers, n: &str) -> (r: bool)
    ensures
        r == has_header_ci(headers@, n@),
{
    let nl = lowercase(n);
    let entries = headers.entries();
    let ghost dv = entries.deep_view();
    let mut i: usize = 0;
    while i < entries.len()
        invariant
            0 <= i <= entries@.len(),
            entries.deep_view() == dv,
            entries@.len() == dv.len(),
            dv == headers@,
            nl@ == lower_of(n@),
            forall|j: int| 0 <= j < i ==> lower_of(#[trigger] dv[j].0) != lower_of(n@),
        decreases entries@.len() - i,
    {
        proof {
            assert(dv[i as int] == entries@[i as int].deep_view());
        }
        let kl = lowercase(entries[i].0.as_str());
        if str_eq(kl.as_str(), nl.as_str()) {
            proof {
                assert(lower_of(dv[i as int].0) == lower_of(n@));
            }
            return true;
        }
        i = i + 1;
    }
    false
}

/// The effective additional header names: every configured name that is
/// present on the request (compared case-insensitively), lowercased and
/// sorted ascending.
pub open spec fn additional_keys_of(
    names: Seq<Seq<char>>,
    h: Seq<(Seq<char>, Seq<char>)>,
) -> Seq<Seq<char>>
    decreases names.len(),
{
    if names.len() == 0 {
        Seq::empty()
    } else {
        let rest = additional_keys_of(names.drop_last(), h);
        if has_header_ci(h, names.last()) {
            key_insert(rest, lower_of(names.last()))
        } else {
            rest
        }
    }
}

/// Compute the effective additional header names of a request.
pub fn get_additional_header_keys(names: &Vec<String>, headers: &Headers) -> (r: Vec<String>)
    ensures
        r.deep_view() == additional_keys_of(names.deep_view(), headers@),
{
    let ghost nv = names.deep_view();
    let mut keys: Vec<String> = Vec::new();
    let mut i: usize = 0;
    proof {
        assert(nv.take(0) =~= Seq::<Seq<char>>::empty());
        assert(keys.deep_view() =~= Seq::<Seq<char>>::empty());
    }
    while i < names.len()
        invariant
            0 <= i <= names@.len(),
            names.deep_view() == nv,
            names@.len() == nv.len(),
            keys.deep_view() == additional_keys_of(nv.take(i as int), headers@),
        decreases names@.len() - i,
    {
        proof {
            assert(nv[i as int] == names@[i as int]@);
            assert(nv.take(i + 1).drop_last() =~= nv.take(i as int));
            assert(nv.take(i + 1).last() == nv[i as int]);
        }
        if header_present_ci(headers, names[i].as_str()) {
            let kl = lowercase(names[i].as_str());
            key_set_insert(&mut keys, kl);
        }
        i = i + 1;
    }
    proof {
        assert(nv.take(i as int) =~= nv);
    }
    keys
}

/// The headers that sign: every header whose lowercased name lies in the
/// protocol's own namespace and, under V2, every effective additional header;
/// keyed by lowercased name, sorted ascending.
pub open spec fn signed_entries(
    h: Seq<(Seq<char>, Seq<char>)>,
    additional: Seq<Seq<char>>,
    version: AuthVersion,
) -> Seq<(Seq<char>, Seq<char>)>
    decreases h.len(),
{
    if h.len() == 0 {
        Seq::empty()
    } else {
        let rest = signed_entries(h.drop_last(), additional, version);
        let kl = lower_of(h.last().0);
        if is_oss_header(kl) {
            assoc_insert(rest, kl, h.last().1)
        } else if version == AuthVersion::V2 && keys_contain(additional, kl) {
            assoc_insert(rest, kl, h.last().1)
        } else {
            rest
        }
    }
}

/// The canonical header block: each signing header as `name:value` followed
/// by a newline, names ascending; empty when no header signs.
pub open spec fn canon_block(hs: Seq<(Seq<char>, Seq<char>)>) -> Seq<char>
    decreases hs.len(),
{
    if hs.len() == 0 {
        Seq::empty()
    } else {
        hs[0].0 + ":"@ + hs[0].1 + "\n"@ + canon_block(hs.drop_first())
    }
}

proof fn lemma_canon_block_snoc(hs: Seq<(Seq<char>, Seq<char>)>, p: (Seq<char>, Seq<char>))
    ensures
        canon_block(hs.push(p)) == canon_block(hs) + (p.0 + ":"@ + p.1 + "\n"@),
    decreases hs.len(),
{
    if hs.len() == 0 {
        assert(hs.push(p)[0] == p);
        assert(hs.push(p).drop_first() =~= Seq::<(Seq<char>, Seq<char>)>::empty());
        assert(canon_block(Seq::<(Seq<char>, Seq<char>)>::empty()) == Seq::<char>::empty());
        assert(canon_block(hs.push(p)) == (p.0 + ":"@ + p.1 + "\n"@) + Seq::<char>::empty());
        assert((p.0 + ":"@ + p.1 + "\n"@) + Seq::<char>::empty() =~= p.0 + ":"@ + p.1 + "\n"@);
        assert(canon_block(hs) + (p.0 + ":"@ + p.1 + "\n"@) =~= p.0 + ":"@ + p.1 + "\n"@);
    } else {
        assert(hs.push(p)[0] == hs[0]);
        assert(hs.push(p).drop_first() =~= hs.drop_first().push(p));
        lemma_canon_block_snoc(hs.drop_first(), p);
        let head = hs[0].0 + ":"@ + hs[0].1 + "\n"@;
        assert(canon_block(hs.push(p)) == head + (canon_block(hs.drop_first()) + (p.0 + ":"@ + p.1
            + "\n"@)));
        assert(head + (canon_block(hs.drop_first()) + (p.0 + ":"@ + p.1 + "\n"@)) =~= (head
            + canon_block(hs.drop_first())) + (p.0 + ":"@ + p.1 + "\n"@));
    }
}

/// Select the signing headers of a request.
pub fn build_signed_entries(
    headers: &Headers,
    additional: &Vec<String>,
    version: AuthVersion,
) -> (r: Vec<(String, String)>)
    ensures
        r.deep_view() == signed_entries(headers@, additional.deep_view(), version),
{
    let entries = headers.entries();
    let ghost dv = entries.deep_view();
    let mut hs: Vec<(String, String)> = Vec::new();
    let mut i: usize = 0;
    proof {
        assert(dv.take(0) =~= Seq::<(Seq<char>, Seq<char>)>::empty());
        assert(hs.deep_view() =~= Seq::<(Seq<char>, Seq<char>)>::empty());
    }
    while i < entries.len()
        invariant
            0 <= i <= entries@.len(),
            entries.deep_view() == dv,
            entries@.len() == dv.len(),
            dv == headers@,
            hs.deep_view() == signed_entries(dv.take(i as int), additional.deep_view(), version),
        decreases entries@.len() - i,
    {
        proof {
            assert(dv[i as int] == entries@[i as int].deep_view());
            assert(dv.take(i + 1).drop_last() =~= dv.take(i as int));
            assert(dv.take(i + 1).last() == dv[i as int]);
        }
        let (k, v) = &entries[i];
        let kl = lowercase(k.as_str());
        if starts_with_str(kl.as_str(), "x-oss-") {
            map_set(&mut hs, kl, v.clone());
        } else if matches!(version, AuthVersion::V2) && key_list_contains(additional, kl.as_str()) {
            map_set(&mut hs, kl, v.clone());
        }
        i = i + 1;
    }
    proof {
        assert(dv.take(i as int) =~= dv);
    }
    hs
}

/// Lay the signing headers out as the canonical block.
pub fn build_canon_block(hs: &Vec<(String, String)>) -> (r: String)
    ensures
        r@ == canon_block(hs.deep_view()),
{
    let ghost dv = hs.deep_view();
    let mut out = String::new();
    let mut i: usize = 0;
    proof {
        reveal_strlit(":");
        reveal_strlit("\n");
        assert(dv.take(0) =~= Seq::<(Seq<char>, Seq<char>)>::empty());
        assert(canon_block(dv.take(0)) == Seq::<char>::empty());
    }
    while i < hs.len()
        invariant
            0 <= i <= hs@.len(),
            hs.deep_view() == dv,
            hs@.len() == dv.len(),
            out@ == canon_block(dv.take(i as int)),
        decreases hs@.len() - i,
    {
        proof {
            assert(dv[i as int] == hs@[i as int].deep_view());
            assert(dv.take(i + 1) =~= dv.take(i as int).push(dv[i as int]));
            lemma_canon_block_snoc(dv.take(i as int), dv[i as int]);
        }
        let (k, v) = &hs[i];
        push_str(&mut out, k.as_str());
        push_str(&mut out, ":");
        push_str(&mut out, v.as_str());
        push_str(&mut out, "\n");
        i = i + 1;
    }
    proof {
        assert(dv.take(i as int) =~= dv);
    }
    out
}

/// The canonical header block walks the signing headers in ascending name
/// order: the selected entries come out sorted.
pub proof fn lemma_signed_entries_sorted(
    h: Seq<(Seq<char>, Seq<char>)>,
    additional: Seq<Seq<char>>,
    version: AuthVersion,
)
    ensures
        entries_sorted(signed_entries(h, additional, version)),
    decreases h.len(),
{
    if h.len() > 0 {
        lemma_signed_entries_sorted(h.drop_last(), additional, version);
        let rest = signed_entries(h.drop_last(), additional, version);
        let kl = lower_of(h.last().0);
        if is_oss_header(kl) {
            lemma_assoc_insert_sorted(rest, kl, h.last().1);
        } else if version == AuthVersion::V2 && keys_contain(additional, kl) {
            lemma_assoc_insert_sorted(rest, kl, h.last().1);
        }
    }
}

/// Keys strictly ascending.
pub open spec fn keys_sorted(ks: Seq<Seq<char>>) -> bool {
    forall|i: int, j: int| 0 <= i < j < ks.len() ==> lex_lt(ks[i], ks[j])
}

/// Inserting preserves sortedness of a key list.
pub proof fn lemma_key_insert_sorted(ks: Seq<Seq<char>>, k: Seq<char>)
    requires
        keys_sorted(ks),
    ensures
        keys_sorted(key_insert(ks, k)),
    decreases ks.len(),
{
    if ks.len() == 0 {
    } else if lex_lt(k, ks[0]) {
        let r = seq![k] + ks;
        assert forall|i: int, j: int| 0 <= i < j < r.len() implies lex_lt(r[i], r[j]) by {
            if i == 0 && j > 1 {
                lemma_lex_lt_trans(k, ks[0], ks[j - 1]);
            }
        }
    } else if k == ks[0] {
    } else {
        lemma_lex_lt_trichotomy(k, ks[0]);
        assert(keys_sorted(ks.drop_first()));
        lemma_key_insert_sorted(ks.drop_first(), k);
        let rest = key_insert(ks.drop_first(), k);
        let r = seq![ks[0]] + rest;
        lemma_key_insert_head(ks.drop_first(), k, ks[0]);
        assert forall|i: int, j: int| 0 <= i < j < r.len() implies lex_lt(r[i], r[j]) by {
            if i > 0 {
                assert(lex_lt(rest[i - 1], rest[j - 1]));
            }
        }
    }
}

/// Every key of the inserted list is above a bound that lies below `k` and
/// below every key of `ks`.
proof fn lemma_key_insert_head(ks: Seq<Seq<char>>, k: Seq<char>, lo: Seq<char>)
    requires
        lex_lt(lo, k),
        forall|i: int| 0 <= i < ks.len() ==> lex_lt(lo, #[trigger] ks[i]),
    ensures
        forall|i: int|
            0 <= i < key_insert(ks, k).len() ==> lex_lt(lo, #[trigger] key_insert(ks, k)[i]),
    decreases ks.len(),
{
    if ks.len() == 0 {
    } else if lex_lt(k, ks[0]) {
    } else if k == ks[0] {
    } else {
        lemma_key_insert_head(ks.drop_first(), k, lo);
        assert forall|i: int| 0 <= i < key_insert(ks, k).len() implies lex_lt(
            lo,
            #[trigger] key_insert(ks, k)[i],
        ) by {
            if i > 0 {
                assert(key_insert(ks, k)[i] == key_insert(ks.drop_first(), k)[i - 1]);
            }
        }
    }
}

/// The effective additional header names come out sorted ascending.
pub proof fn lemma_additional_keys_sorted(names: Seq<Seq<char>>, h: Seq<(Seq<char>, Seq<char>)>)
    ensures
        keys_sorted(additional_keys_of(names, h)),
    decreases names.len(),
{
    if names.len() > 0 {
        lemma_additional_keys_sorted(names.drop_last(), h);
        if has_header_ci(h, names.last()) {
            lemma_key_insert_sorted(additional_keys_of(names.drop_last(), h), lower_of(names.last()));
        }
    }
}

} // verus!


