//! Prefix/wildcard matching over an ordered key space.
//!
//! A pattern's literal prefix is everything before its first `'*'`. A key
//! matches a query when either literal prefix is a prefix of the other
//! side. The table is an ordered list of entries; the first matching entry
//! wins, which makes lookups deterministic.

use vstd::prelude::*;
use vstd::string::StrSliceExecFns;

use crate::text::{char_index, find_char, lemma_char_index, str_starts_with};

verus! {

/// The literal prefix of a pattern: everything before its first `'*'`,
/// or the whole pattern when no `'*'` occurs.
pub open spec fn prefix_of(s: Seq<char>) -> Seq<char> {
    s.take(char_index(s, '*'))
}

/// Whether the configured key `key` matches the query `query`: the
/// query's literal prefix leads `key`, or the key's literal prefix leads
/// `query`.
pub open spec fn wild_match(key: Seq<char>, query: Seq<char>) -> bool {
    prefix_of(query).is_prefix_of(key) || prefix_of(key).is_prefix_of(query)
}

/// The literal prefix never contains `'*'` and always leads its pattern.
pub proof fn lemma_prefix_of(s: Seq<char>)
    ensures
        prefix_of(s).len() <= s.len(),
        forall|j: int| 0 <= j < prefix_of(s).len() ==> prefix_of(s)[j] != '*',
        prefix_of(s).is_prefix_of(s),
{
    lemma_char_index(s, '*');
    assert(prefix_of(s) =~= s.subrange(0, prefix_of(s).len() as int));
}

/// A star-free prefix of a pattern also leads the pattern's literal
/// prefix: it cannot reach past the pattern's first `'*'`.
pub proof fn lemma_starless_prefix(p: Seq<char>, s: Seq<char>)
    requires
        forall|j: int| 0 <= j < p.len() ==> p[j] != '*',
        p.is_prefix_of(s),
    ensures
        p.is_prefix_of(prefix_of(s)),
{
    lemma_char_index(s, '*');
    let k = char_index(s, '*');
    if p.len() > k {
        assert(p[k] == s.subrange(0, p.len() as int)[k]);
        assert(p[k] == '*');
    }
    assert(p =~= prefix_of(s).subrange(0, p.len() as int));
}

/// Matching is the symmetric prefix-compatibility of the two literal
/// prefixes: `wild_match` holds exactly when one pattern's literal prefix
/// leads the other's.
pub proof fn lemma_wild_match_symmetric(key: Seq<char>, query: Seq<char>)
    ensures
        wild_match(key, query) <==> (prefix_of(query).is_prefix_of(prefix_of(key))
            || prefix_of(key).is_prefix_of(prefix_of(query))),
{
    lemma_prefix_of(key);
    lemma_prefix_of(query);
    if prefix_of(query).is_prefix_of(key) {
        lemma_starless_prefix(prefix_of(query), key);
    }
    if prefix_of(key).is_prefix_of(query) {
        lemma_starless_prefix(prefix_of(key), query);
    }
    if prefix_of(query).is_prefix_of(prefix_of(key)) {
        lemma_prefix_is_transitive(prefix_of(query), prefix_of(key), key);
    }
    if prefix_of(key).is_prefix_of(prefix_of(query)) {
        lemma_prefix_is_transitive(prefix_of(key), prefix_of(query), query);
    }
}

/// Prefix-of is transitive.
pub proof fn lemma_prefix_is_transitive(a: Seq<char>, b: Seq<char>, c: Seq<char>)
    requires
        a.is_prefix_of(b),
        b.is_prefix_of(c),
    ensures
        a.is_prefix_of(c),
{
    assert(a =~= c.subrange(0, a.len() as int)) by {
        assert forall|j: int| 0 <= j < a.len() implies a[j] == c[j] by {
            assert(a[j] == b.subrange(0, a.len() as int)[j]);
            assert(b[j] == c.subrange(0, b.len() as int)[j]);
        }
    }
}

/// The query string cut at its first `'*'`: the literal prefix used for
/// matching.
pub fn query_to_prefix(query: String) -> (res: String)
    ensures
        res@ == prefix_of(query@),
{
    let k = find_char(query.as_str(), '*');
    proof {
        lemma_char_index(query@, '*');
    }
    query.as_str().substring_char(0, k).to_owned()
}

/// The positions of the keys in `keys` that match the query, in table
/// order.
pub open spec fn match_indices(keys: Seq<Seq<char>>, query: Seq<char>) -> Seq<int>
    decreases keys.len(),
{
    if keys.len() == 0 {
        Seq::empty()
    } else {
        let init = match_indices(keys.drop_last(), query);
        if wild_match(keys.last(), query) {
            init.push(keys.len() - 1)
        } else {
            init
        }
    }
}

/// `match_indices` lists, in increasing order, exactly the positions
/// whose key matches.
pub proof fn lemma_match_indices(keys: Seq<Seq<char>>, query: Seq<char>)
    ensures
        forall|t: int|
            0 <= t < match_indices(keys, query).len() ==> 0 <= #[trigger] match_indices(
                keys,
                query,
            )[t] < keys.len() && wild_match(keys[match_indices(keys, query)[t]], query),
        forall|t1: int, t2: int|
            0 <= t1 < t2 < match_indices(keys, query).len() ==> #[trigger] match_indices(
                keys,
                query,
            )[t1] < #[trigger] match_indices(keys, query)[t2],
        forall|i: int|
            0 <= i < keys.len() && wild_match(#[trigger] keys[i], query) ==> match_indices(
                keys,
                query,
            ).contains(i),
    decreases keys.len(),
{
    if keys.len() > 0 {
        lemma_match_indices(keys.drop_last(), query);
        let init = match_indices(keys.drop_last(), query);
        let all = match_indices(keys, query);
        assert forall|i: int|
            0 <= i < keys.len() && wild_match(#[trigger] keys[i], query) implies all.contains(
            i,
        ) by {
            if i < keys.len() - 1 {
                assert(keys.drop_last()[i] == keys[i]);
                assert(init.contains(i));
                let t = choose|t: int| 0 <= t < init.len() && init[t] == i;
                assert(all[t] == i);
            } else {
                assert(all.last() == i);
            }
        }
        assert forall|t: int| 0 <= t < all.len() implies 0 <= #[trigger] all[t] < keys.len()
            && wild_match(keys[all[t]], query) by {
            if t < init.len() {
                assert(all[t] == init[t]);
                assert(keys.drop_last()[init[t]] == keys[init[t]]);
            }
        }
    }
}

/// The first matching position, as `wildcard_get` selects it.
pub open spec fn first_match(keys: Seq<Seq<char>>, query: Seq<char>) -> int {
    match_indices(keys, query)[0]
}

/// The key strings of an ordered table, as character sequences.
pub open spec fn table_keys<T>(entries: Seq<(String, T)>) -> Seq<Seq<char>> {
    Seq::new(entries.len(), |i: int| entries[i].0@)
}

/// All entries whose key matches the query, in table order. The result
/// keys are the matching keys themselves; each value is a clone of the
/// stored one.
pub fn wildcard_get_all<T: Clone>(entries: &Vec<(String, T)>, query: String) -> (res: Vec<
    (String, T),
>)
    ensures
        ({
            let idxs = match_indices(table_keys(entries@), query@);
            &&& res@.len() == idxs.len()
            &&& forall|t: int|
                0 <= t < idxs.len() ==> (#[trigger] res@[t]).0@ == entries@[idxs[t]].0@
                    && cloned::<T>(entries@[idxs[t]].1, res@[t].1)
        }),
{
    let ghost q = query@;
    let qp = query_to_prefix(query);
    proof {
        lemma_prefix_of(q);
    }
    let mut res: Vec<(String, T)> = Vec::new();
    let ghost keys = table_keys(entries@);
    proof {
        assert(keys.take(0) =~= Seq::<Seq<char>>::empty());
    }
    let mut i: usize = 0;
    while i < entries.len()
        invariant
            0 <= i <= entries@.len(),
            qp@ == prefix_of(q),
            keys == table_keys(entries@),
            ({
                let idxs = match_indices(keys.take(i as int), q);
                &&& res@.len() == idxs.len()
                &&& forall|t: int|
                    0 <= t < idxs.len() ==> (#[trigger] res@[t]).0@ == entries@[idxs[t]].0@
                        && cloned::<T>(entries@[idxs[t]].1, res@[t].1)
            }),
        decreases entries@.len() - i,
    {
        proof {
            lemma_prefix_of(q);
            lemma_match_indices(keys.take(i as int), q);
            assert(keys.take(i + 1).drop_last() =~= keys.take(i as int));
            assert(keys.take(i + 1).last() == entries@[i as int].0@);
        }
        let pair = &entries[i];
        if wild_match_exec(pair.0.as_str(), qp.as_str()) {
            res.push((pair.0.clone(), pair.1.clone()));
        }
        i = i + 1;
    }
    proof {
        assert(keys.take(entries@.len() as int) =~= keys);
    }
    res
}

/// The first entry whose key matches the query, if any: ties among
/// several matching keys go to the earliest entry.
pub fn wildcard_get<T: Clone>(entries: &Vec<(String, T)>, query: String) -> (res: Option<
    (String, T),
>)
    ensures
        ({
            let idxs = match_indices(table_keys(entries@), query@);
            &&& res is Some <==> idxs.len() > 0
            &&& idxs.len() > 0 ==> ({
                let k = first_match(table_keys(entries@), query@);
                let p = res->0;
                &&& 0 <= k < entries@.len()
                &&& p.0@ == entries@[k].0@
                &&& cloned::<T>(entries@[k].1, p.1)
            })
        }),
{
    proof {
        lemma_match_indices(table_keys(entries@), query@);
    }
    let mut all = wildcard_get_all(entries, query);
    if all.len() > 0 {
        Some(all.remove(0))
    } else {
        None
    }
}

/// The first lookup yields an entry exactly when some configured key
/// and the query have prefix-compatible literal prefixes, in either
/// direction: `wildcard_get` promises an entry exactly when
/// `match_indices` is non-empty, and this pins down when that is.
pub proof fn lemma_lookup_hit(keys: Seq<Seq<char>>, query: Seq<char>)
    ensures
        match_indices(keys, query).len() > 0 <==> exists|i: int|
            0 <= i < keys.len() && (prefix_of(#[trigger] keys[i]).is_prefix_of(prefix_of(query))
                || prefix_of(query).is_prefix_of(prefix_of(keys[i]))),
{
    lemma_match_indices(keys, query);
    let idxs = match_indices(keys, query);
    if idxs.len() > 0 {
        let i = idxs[0];
        lemma_wild_match_symmetric(keys[i], query);
    }
    if exists|i: int|
        0 <= i < keys.len() && (prefix_of(#[trigger] keys[i]).is_prefix_of(prefix_of(query))
            || prefix_of(query).is_prefix_of(prefix_of(keys[i]))) {
        let i = choose|i: int|
            0 <= i < keys.len() && (prefix_of(#[trigger] keys[i]).is_prefix_of(prefix_of(query))
                || prefix_of(query).is_prefix_of(prefix_of(keys[i])));
        lemma_wild_match_symmetric(keys[i], query);
        assert(idxs.contains(i));
    }
}

/// A query with no `'*'` of its own that is compatible with no
/// configured key yields nothing: absence is a normal outcome, not an
/// error.
pub proof fn lemma_plain_query_miss(keys: Seq<Seq<char>>, query: Seq<char>)
    requires
        forall|j: int| 0 <= j < query.len() ==> query[j] != '*',
        forall|i: int|
            0 <= i < keys.len() ==> !(prefix_of(#[trigger] keys[i]).is_prefix_of(query)
                || query.is_prefix_of(keys[i])),
    ensures
        match_indices(keys, query).len() == 0,
{
    crate::text::lemma_char_index_unique(query, '*', query.len() as int);
    assert(prefix_of(query) =~= query);
    lemma_match_indices(keys, query);
    let idxs = match_indices(keys, query);
    if idxs.len() > 0 {
        let i = idxs[0];
        assert(wild_match(keys[i], query));
    }
}

/// Exec counterpart of `wild_match` on the two raw strings.
fn wild_match_exec(key: &str, query_prefix: &str) -> (r: bool)
    requires
        forall|j: int| 0 <= j < query_prefix@.len() ==> query_prefix@[j] != '*',
    ensures
        forall|q: Seq<char>| query_prefix@ == prefix_of(q) ==> r == wild_match(key@, q),
{
    let key_prefix = query_to_prefix(key.to_owned());
    let r = str_starts_with(key, query_prefix) || str_starts_with(query_prefix, key_prefix.as_str());
    proof {
        assert forall|q: Seq<char>| query_prefix@ == prefix_of(q) implies r == wild_match(key@, q) by {
            lemma_wild_match_symmetric(key@, q);
            lemma_prefix_of(key@);
            lemma_prefix_of(q);
            if prefix_of(q).is_prefix_of(key@) {
                lemma_starless_prefix(prefix_of(q), key@);
            }
            if prefix_of(key@).is_prefix_of(q) {
                lemma_starless_prefix(prefix_of(key@), q);
            }
            if prefix_of(key@).is_prefix_of(prefix_of(q)) {
                lemma_prefix_is_transitive(prefix_of(key@), prefix_of(q), q);
            }
        }
    }
    r
}

} // verus!
