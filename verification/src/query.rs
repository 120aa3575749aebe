//! Query strings for signed REST requests: parameters sorted by key
//! (stably, in the byte order of their UTF-8 encodings, which is the
//! order of their code points), joined as `k=v` with `&`, and followed by
//! `timestamp` and `recvWindow`.
use crate::text::{int_decimal, nat_decimal, push_char, push_str, to_owned_string, push_u64_decimal};
use vstd::prelude::*;
use vstd::string::StrSliceExecFns;

verus! {

/// A query parameter as character sequences: (key, value).
pub type ParamView = (Seq<char>, Seq<char>);

/// Lexicographic order on strings by code point (equal to the byte order
/// of their UTF-8 encodings, which `String`'s `Ord` uses).
pub open spec fn key_lt(a: Seq<char>, b: Seq<char>) -> bool
    decreases a.len(),
{
    if a.len() == 0 {
        b.len() > 0
    } else if b.len() == 0 {
        false
    } else if a[0] != b[0] {
        a[0] < b[0]
    } else {
        key_lt(a.drop_first(), b.drop_first())
    }
}

/// Where a stable insertion puts an item with key `k` into `s`: before
/// the first element whose key is greater than `k`.
pub open spec fn insertion_index(s: Seq<ParamView>, k: Seq<char>) -> nat
    decreases s.len(),
{
    if s.len() == 0 {
        0
    } else if key_lt(k, s[0].0) {
        0
    } else {
        1 + insertion_index(s.drop_first(), k)
    }
}

/// Stable sort by key: each element in turn is inserted after every
/// element whose key is not greater than its own.
pub open spec fn stable_sort(s: Seq<ParamView>) -> Seq<ParamView>
    decreases s.len(),
{
    if s.len() == 0 {
        Seq::empty()
    } else {
        let r = stable_sort(s.drop_last());
        r.insert(insertion_index(r, s.last().0) as int, s.last())
    }
}

/// `key=value`.
pub open spec fn pair_text(p: ParamView) -> Seq<char> {
    p.0 + seq!['='] + p.1
}

/// The pairs as `k1=v1&k2=v2&...`.
pub open spec fn join_pairs(s: Seq<ParamView>) -> Seq<char>
    decreases s.len(),
{
    if s.len() == 0 {
        Seq::empty()
    } else if s.len() == 1 {
        pair_text(s[0])
    } else {
        join_pairs(s.drop_last()) + seq!['&'] + pair_text(s.last())
    }
}

/// Parameters given as `(&str, String)` pairs, viewed as characters.
pub open spec fn params_view(p: Seq<(&str, String)>) -> Seq<ParamView> {
    p.map_values(|x: (&str, String)| (x.0@, x.1@))
}

/// Parameters held as owned pairs, viewed as characters.
pub open spec fn owned_params_view(p: Seq<(String, String)>) -> Seq<ParamView> {
    p.map_values(|x: (String, String)| (x.0@, x.1@))
}

/// The signed-request query for `params` at time `timestamp_ms` with the
/// given receive window.
pub open spec fn query_spec(params: Seq<ParamView>, timestamp_ms: int, recv_window: nat) -> Seq<char> {
    let body = join_pairs(stable_sort(params));
    let lead = if body.len() == 0 { body } else { body.push('&') };
    lead + "timestamp="@ + int_decimal(timestamp_ms) + "&recvWindow="@ + nat_decimal(recv_window)
}

/// `a` sorts strictly before `b` by code point.
pub fn str_less(a: &str, b: &str) -> (r: bool)
    ensures
        r == key_lt(a@, b@),
{
    let la = a.unicode_len();
    let lb = b.unicode_len();
    let mut i: usize = 0;
    proof {
        assert(a@.skip(0) =~= a@);
        assert(b@.skip(0) =~= b@);
    }
    while i < la && i < lb
        invariant
            la == a@.len(),
            lb == b@.len(),
            i <= la,
            i <= lb,
            key_lt(a@, b@) == key_lt(a@.skip(i as int), b@.skip(i as int)),
        decreases la - i,
    {
        let ca = a.get_char(i);
        let cb = b.get_char(i);
        proof {
            assert(a@.skip(i as int)[0] == ca);
            assert(b@.skip(i as int)[0] == cb);
            assert(a@.skip(i as int).drop_first() =~= a@.skip(i + 1));
            assert(b@.skip(i as int).drop_first() =~= b@.skip(i + 1));
        }
        if ca != cb {
            return ca < cb;
        }
        i = i + 1;
    }
    proof {
        if i == la {
            assert(a@.skip(i as int).len() == 0);
        } else {
            assert(b@.skip(i as int).len() == 0);
        }
    }
    i < lb
}

proof fn lemma_insertion_index_skip(s: Seq<ParamView>, k: Seq<char>, j: int)
    requires
        0 <= j <= s.len(),
        forall|m: int| 0 <= m < j ==> !key_lt(k, #[trigger] s[m].0),
    ensures
        insertion_index(s, k) == j + insertion_index(s.skip(j), k),
    decreases j,
{
    if j > 0 {
        assert(!key_lt(k, s[0].0));
        lemma_insertion_index_skip(s.drop_first(), k, j - 1);
        assert(s.drop_first().skip(j - 1) =~= s.skip(j));
    } else {
        assert(s.skip(0) =~= s);
    }
}

/// The parameters sorted stably by key, as owned strings.
pub fn sort_params(params: &[(&str, String)]) -> (sorted: Vec<(String, String)>)
    ensures
        owned_params_view(sorted@) == stable_sort(params_view(params@)),
{
    let mut sorted: Vec<(String, String)> = Vec::new();
    let n = params.len();
    let ghost pv = params_view(params@);
    let mut i: usize = 0;
    while i < n
        invariant
            n == params@.len(),
            pv == params_view(params@),
            i <= n,
            owned_params_view(sorted@) == stable_sort(pv.take(i as int)),
        decreases n - i,
    {
        let key: &str = params[i].0;
        let ghost sv = owned_params_view(sorted@);
        let mut j: usize = 0;
        while j < sorted.len() && !str_less(key, sorted[j].0.as_str())
            invariant
                sv == owned_params_view(sorted@),
                j <= sorted@.len(),
                forall|m: int| 0 <= m < j ==> !key_lt(key@, #[trigger] sv[m].0),
            decreases sorted@.len() - j,
        {
            j = j + 1;
        }
        proof {
            lemma_insertion_index_skip(sv, key@, j as int);
            if j < sorted@.len() {
                assert(key_lt(key@, sv.skip(j as int)[0].0));
            }
            assert(insertion_index(sv, key@) == j);
            let t = pv.take(i + 1);
            assert(t.drop_last() =~= pv.take(i as int));
            assert(t.last() == (key@, params@[i as int].1@));
        }
        let entry = (to_owned_string(key), params[i].1.clone());
        sorted.insert(j, entry);
        proof {
            assert(owned_params_view(sorted@) =~= sv.insert(j as int, (key@, params@[i as int].1@)));
        }
        i = i + 1;
    }
    proof {
        assert(pv.take(n as int) =~= pv);
    }
    sorted
}

/// Join owned pairs as `k1=v1&k2=v2&...`.
pub fn join_params(pairs: &Vec<(String, String)>) -> (q: String)
    ensures
        q@ == join_pairs(owned_params_view(pairs@)),
{
    let mut q = String::new();
    let n = pairs.len();
    let ghost pv = owned_params_view(pairs@);
    let mut i: usize = 0;
    while i < n
        invariant
            n == pairs@.len(),
            pv == owned_params_view(pairs@),
            i <= n,
            q@ == join_pairs(pv.take(i as int)),
        decreases n - i,
    {
        let ghost before = q@;
        if i > 0 {
            push_char(&mut q, '&');
        }
        push_str(&mut q, pairs[i].0.as_str());
        push_char(&mut q, '=');
        push_str(&mut q, pairs[i].1.as_str());
        proof {
            let t = pv.take(i + 1);
            assert(t.drop_last() =~= pv.take(i as int));
            if i > 0 {
                assert(q@ =~= join_pairs(t.drop_last()) + seq!['&'] + pair_text(t.last()));
            } else {
                assert(q@ =~= pair_text(t[0]));
            }
        }
        i = i + 1;
    }
    proof {
        assert(pv.take(n as int) =~= pv);
    }
    q
}

/// The query for `params` at `timestamp_ms` with receive window
/// `recv_window`: sorted `k=v` pairs, then `timestamp` and `recvWindow`.
pub fn build_query_at(params: &[(&str, String)], timestamp_ms: i64, recv_window: u64) -> (q: String)
    ensures
        q@ == query_spec(params_view(params@), timestamp_ms as int, recv_window as nat),
{
    let sorted = sort_params(params);
    let mut query = join_params(&sorted);
    if query.unicode_len() != 0 {
        push_char(&mut query, '&');
    }
    push_str(&mut query, "timestamp=");
    let ts = crate::text::i64_to_decimal(timestamp_ms);
    push_str(&mut query, ts.as_str());
    push_str(&mut query, "&recvWindow=");
    push_u64_decimal(&mut query, recv_window);
    query
}

// ── Laws of the key order and of the sort ───────────────────────────────

/// No key sorts before itself.
pub proof fn lemma_key_lt_irreflexive(a: Seq<char>)
    ensures
        !key_lt(a, a),
    decreases a.len(),
{
    if a.len() > 0 {
        lemma_key_lt_irreflexive(a.drop_first());
    }
}

/// Of two keys, one sorts before the other unless they are equal.
pub proof fn lemma_key_lt_total(a: Seq<char>, b: Seq<char>)
    ensures
        a == b || key_lt(a, b) || key_lt(b, a),
    decreases a.len(),
{
    if a.len() > 0 && b.len() > 0 {
        if a[0] == b[0] {
            lemma_key_lt_total(a.drop_first(), b.drop_first());
            if a.drop_first() == b.drop_first() {
                assert(a =~= seq![a[0]] + a.drop_first());
                assert(b =~= seq![b[0]] + b.drop_first());
            }
        } else {
        }
    } else if a.len() == 0 && b.len() == 0 {
        assert(a =~= b);
    }
}

/// The key order is transitive.
pub proof fn lemma_key_lt_transitive(a: Seq<char>, b: Seq<char>, c: Seq<char>)
    requires
        key_lt(a, b),
        key_lt(b, c),
    ensures
        key_lt(a, c),
    decreases a.len(),
{
    if a.len() > 0 && b.len() > 0 && c.len() > 0 {
        if a[0] == b[0] && b[0] == c[0] {
            lemma_key_lt_transitive(a.drop_first(), b.drop_first(), c.drop_first());
        }
    }
}

/// Keys are in non-decreasing order.
pub open spec fn sorted_by_key(s: Seq<ParamView>) -> bool {
    forall|i: int, j: int| 0 <= i < j < s.len() ==> !key_lt(#[trigger] s[j].0, #[trigger] s[i].0)
}

proof fn lemma_insert_sorted(s: Seq<ParamView>, x: ParamView)
    requires
        sorted_by_key(s),
    ensures
        sorted_by_key(s.insert(insertion_index(s, x.0) as int, x)),
        insertion_index(s, x.0) <= s.len(),
    decreases s.len(),
{
    let p = insertion_index(s, x.0) as int;
    lemma_insertion_index_bound(s, x.0);
    lemma_insertion_index_props(s, x.0);
    let r = s.insert(p, x);
    assert forall|i: int, j: int| 0 <= i < j < r.len() implies !key_lt(#[trigger] r[j].0, #[trigger] r[i].0) by {
        if i < p && j == p {
            // s[i] precedes the insertion point: its key is not above x's
            lemma_key_lt_total(x.0, s[i].0);
            lemma_key_lt_irreflexive(x.0);
            if key_lt(x.0, s[i].0) {
                assert(false);
            }
        } else if i == p && j > p {
            // s[j-1] follows the insertion point: x's key is below it
            let k = j - 1;
            assert(r[j] == s[k]);
            if key_lt(s[k].0, x.0) {
                if k == p {
                    lemma_key_lt_transitive(s[k].0, x.0, s[p].0);
                    lemma_key_lt_irreflexive(s[k].0);
                } else {
                    assert(!key_lt(s[k].0, s[p].0));
                    lemma_key_lt_transitive(s[k].0, x.0, s[p].0);
                }
            }
        } else if i < p && j > p {
            assert(r[i] == s[i] && r[j] == s[j - 1]);
        } else if j < p {
            assert(r[i] == s[i] && r[j] == s[j]);
        } else {
            assert(r[i] == s[i - 1] && r[j] == s[j - 1]);
        }
    }
}

proof fn lemma_insertion_index_bound(s: Seq<ParamView>, k: Seq<char>)
    ensures
        insertion_index(s, k) <= s.len(),
    decreases s.len(),
{
    if s.len() > 0 && !key_lt(k, s[0].0) {
        lemma_insertion_index_bound(s.drop_first(), k);
    }
}

proof fn lemma_insertion_index_props(s: Seq<ParamView>, k: Seq<char>)
    ensures
        forall|m: int| 0 <= m < insertion_index(s, k) ==> !key_lt(k, #[trigger] s[m].0),
        insertion_index(s, k) < s.len() ==> key_lt(k, s[insertion_index(s, k) as int].0),
    decreases s.len(),
{
    lemma_insertion_index_bound(s, k);
    if s.len() > 0 && !key_lt(k, s[0].0) {
        lemma_insertion_index_props(s.drop_first(), k);
        assert forall|m: int| 0 <= m < insertion_index(s, k) implies !key_lt(k, #[trigger] s[m].0) by {
            if m > 0 {
                assert(s[m] == s.drop_first()[m - 1]);
            }
        }
    }
}

/// The sort puts keys in non-decreasing order and keeps every parameter
/// exactly once.
pub proof fn law_sort_sorted_permutation(s: Seq<ParamView>)
    ensures
        sorted_by_key(stable_sort(s)),
        stable_sort(s).to_multiset() == s.to_multiset(),
    decreases s.len(),
{
    broadcast use vstd::seq_lib::group_to_multiset_ensures;
    if s.len() > 0 {
        let r = stable_sort(s.drop_last());
        law_sort_sorted_permutation(s.drop_last());
        lemma_insert_sorted(r, s.last());
        let p = insertion_index(r, s.last().0) as int;
        lemma_insert_multiset(r, p, s.last());
        assert(s =~= s.drop_last().push(s.last()));
    }
}

proof fn lemma_insert_multiset(r: Seq<ParamView>, p: int, x: ParamView)
    requires
        0 <= p <= r.len(),
    ensures
        r.insert(p, x).to_multiset() == r.to_multiset().insert(x),
{
    broadcast use vstd::seq_lib::group_to_multiset_ensures;
    let a = r.take(p);
    let b = r.skip(p);
    assert(r =~= a + b);
    assert(r.insert(p, x) =~= a.push(x) + b);
    vstd::seq_lib::lemma_multiset_commutative(a.push(x), b);
    vstd::seq_lib::lemma_multiset_commutative(a, b);
}

/// One parameter is rendered as `key=value`.
pub proof fn law_join_single(p: ParamView)
    ensures
        join_pairs(seq![p]) == p.0 + "="@ + p.1,
{
    assert(seq!['='] =~= "="@) by {
        reveal_strlit("=");
    }
}

/// Each further parameter adds `&key=value` behind the ones before it.
pub proof fn law_join_append(s: Seq<ParamView>, p: ParamView)
    requires
        s.len() >= 1,
    ensures
        join_pairs(s.push(p)) == join_pairs(s) + "&"@ + p.0 + "="@ + p.1,
{
    let t = s.push(p);
    assert(t.drop_last() =~= s);
    assert(seq!['='] =~= "="@) by {
        reveal_strlit("=");
    }
    assert(seq!['&'] =~= "&"@) by {
        reveal_strlit("&");
    }
    assert(join_pairs(t) =~= join_pairs(s) + "&"@ + p.0 + "="@ + p.1);
}

/// A query ends with the timestamp and the receive window, in that order:
/// with no parameters it is exactly `timestamp=T&recvWindow=W`; otherwise
/// the sorted `key=value` pairs, `&`, and then the same two fields.
pub proof fn law_query_shape(params: Seq<ParamView>, ts: int, w: nat)
    ensures
        params.len() == 0 ==> query_spec(params, ts, w) == "timestamp="@ + int_decimal(ts) + "&recvWindow="@
            + nat_decimal(w),
        params.len() > 0 ==> query_spec(params, ts, w) == join_pairs(stable_sort(params)) + "&timestamp="@
            + int_decimal(ts) + "&recvWindow="@ + nat_decimal(w),
{
    broadcast use vstd::seq_lib::group_to_multiset_ensures;
    law_sort_sorted_permutation(params);
    let r = stable_sort(params);
    assert(r.len() == params.len()) by {
        assert(r.to_multiset().len() == params.to_multiset().len());
    }
    if params.len() == 0 {
        assert(join_pairs(r).len() == 0);
        assert(query_spec(params, ts, w) =~= "timestamp="@ + int_decimal(ts) + "&recvWindow="@ + nat_decimal(w));
    } else {
        assert(join_pairs(r).len() > 0);
        assert(join_pairs(r).push('&') + "timestamp="@ =~= join_pairs(r) + "&timestamp="@) by {
            reveal_strlit("timestamp=");
            reveal_strlit("&timestamp=");
        }
        assert(query_spec(params, ts, w) =~= join_pairs(r) + "&timestamp="@ + int_decimal(ts) + "&recvWindow="@
            + nat_decimal(w));
    }
}

} // verus!
