use vstd::prelude::*;
use vstd::string::StringExecFns;

verus! {

/// What rocket's percent-encoding returns for the given characters.
pub uninterp spec fn pct_of(s: Seq<char>) -> Seq<char>;

/// Relies on rocket's `RawStr::percent_encode`: the encoding is a pure
/// function of the characters alone.
#[verifier::external_body]
fn percent_encode(s: &str) -> (r: String)
    ensures
        r@ == pct_of(s@),
{
    rocket::http::RawStr::new(s).percent_encode().as_str().to_string()
}

/// The separator placed before a pair: `?` before the first, `&` after.
pub open spec fn sep_seq(first: bool) -> Seq<char> {
    if first {
        seq!['?']
    } else {
        seq!['&']
    }
}

/// The query string contributed by one key's values, in original order.
pub open spec fn qs_values(key: Seq<char>, vals: Seq<String>, first: bool) -> Seq<char>
    decreases vals.len(),
{
    if vals.len() == 0 {
        Seq::<char>::empty()
    } else {
        sep_seq(first) + pct_of(key) + seq!['='] + pct_of(vals[0]@) + qs_values(
            key,
            vals.drop_first(),
            false,
        )
    }
}

/// The reattached query string: keys in stable order, each key's values in
/// original order, keys and values percent-encoded, joined with `?` before
/// the first pair and `&` thereafter.
pub open spec fn qs_entries(entries: Seq<(String, Vec<String>)>, first: bool) -> Seq<char>
    decreases entries.len(),
{
    if entries.len() == 0 {
        Seq::<char>::empty()
    } else {
        qs_values(entries[0].0@, entries[0].1@, first) + qs_entries(
            entries.drop_first(),
            first && entries[0].1@.len() == 0,
        )
    }
}

/// The query multimap flattened to its (key, value) pairs: each key in
/// order, with every one of its values in original order.
pub open spec fn query_pairs(entries: Seq<(String, Vec<String>)>) -> Seq<(Seq<char>, Seq<char>)>
    decreases entries.len(),
{
    if entries.len() == 0 {
        Seq::<(Seq<char>, Seq<char>)>::empty()
    } else {
        entry_pairs(entries[0]) + query_pairs(entries.drop_first())
    }
}

/// One entry's (key, value) pairs.
pub open spec fn entry_pairs(entry: (String, Vec<String>)) -> Seq<(Seq<char>, Seq<char>)> {
    entry.1@.map_values(|v: String| (entry.0@, v@))
}

/// A flat pair list rendered as a query string.
pub open spec fn qs_pairs(ps: Seq<(Seq<char>, Seq<char>)>, first: bool) -> Seq<char>
    decreases ps.len(),
{
    if ps.len() == 0 {
        Seq::<char>::empty()
    } else {
        sep_seq(first) + pct_of(ps[0].0) + seq!['='] + pct_of(ps[0].1) + qs_pairs(
            ps.drop_first(),
            false,
        )
    }
}

/// Rendering distributes over concatenation of pair lists.
proof fn lemma_qs_pairs_concat(a: Seq<(Seq<char>, Seq<char>)>, b: Seq<(Seq<char>, Seq<char>)>, first: bool)
    ensures
        qs_pairs(a + b, first) == qs_pairs(a, first) + qs_pairs(
            b,
            if a.len() == 0 {
                first
            } else {
                false
            },
        ),
    decreases a.len(),
{
    if a.len() == 0 {
        assert(a + b =~= b);
        assert(qs_pairs(a, first) + qs_pairs(b, first) =~= qs_pairs(b, first));
    } else {
        lemma_qs_pairs_concat(a.drop_first(), b, false);
        assert((a + b)[0] == a[0]);
        assert((a + b).drop_first() =~= a.drop_first() + b);
        assert(qs_pairs(a + b, first) =~= qs_pairs(a, first) + qs_pairs(b, false));
    }
}

/// One key's rendering equals the rendering of its flattened pairs.
proof fn lemma_qs_values_pairs(key: Seq<char>, vals: Seq<String>, first: bool)
    ensures
        qs_values(key, vals, first) == qs_pairs(
            vals.map_values(|v: String| (key, v@)),
            first,
        ),
    decreases vals.len(),
{
    let ps = vals.map_values(|v: String| (key, v@));
    if vals.len() == 0 {
    } else {
        lemma_qs_values_pairs(key, vals.drop_first(), false);
        assert(ps.drop_first() =~= vals.drop_first().map_values(|v: String| (key, v@)));
        assert(ps[0] == (key, vals[0]@));
    }
}

/// The query string lists, for each key in stable order, every one of that
/// key's values in original order, each pair rendered as its separator, the
/// percent-encoded key, `=`, and the percent-encoded value.
pub proof fn lemma_qs_entries_pairs(entries: Seq<(String, Vec<String>)>, first: bool)
    ensures
        qs_entries(entries, first) == qs_pairs(query_pairs(entries), first),
    decreases entries.len(),
{
    if entries.len() == 0 {
    } else {
        let e0 = entries[0];
        lemma_qs_entries_pairs(entries.drop_first(), first && e0.1@.len() == 0);
        lemma_qs_values_pairs(e0.0@, e0.1@, first);
        assert(entry_pairs(e0) =~= e0.1@.map_values(|v: String| (e0.0@, v@)));
        lemma_qs_pairs_concat(entry_pairs(e0), query_pairs(entries.drop_first()), first);
        assert(entry_pairs(e0).len() == e0.1@.len());
    }
}

/// The views of a flat pair list of owned strings.
pub open spec fn pairs_view(ps: Seq<(String, String)>) -> Seq<(Seq<char>, Seq<char>)> {
    ps.map_values(|p: (String, String)| (p.0@, p.1@))
}

/// Flattens the query multimap into its (key, value) pairs in order.
fn flatten_query(query: &Vec<(String, Vec<String>)>) -> (pairs: Vec<(String, String)>)
    ensures
        pairs_view(pairs@) == query_pairs(query@),
{
    let mut pairs: Vec<(String, String)> = Vec::new();
    let mut i: usize = 0;
    proof {
        assert(pairs_view(pairs@) =~= query_pairs(query@.take(0)));
    }
    while i < query.len()
        invariant
            i <= query@.len(),
            pairs_view(pairs@) == query_pairs(query@.take(i as int)),
        decreases query@.len() - i,
    {
        let ghost done = pairs_view(pairs@);
        let entry = &query[i];
        let mut k: usize = 0;
        while k < entry.1.len()
            invariant
                k <= entry.1@.len(),
                entry == query@[i as int],
                i < query@.len(),
                pairs_view(pairs@) == done + entry_pairs(*entry).take(k as int),
            decreases entry.1@.len() - k,
        {
            let key = entry.0.clone();
            let val = entry.1[k].clone();
            let ghost before = pairs@;
            pairs.push((key, val));
            proof {
                assert(pairs_view(pairs@) =~= pairs_view(before) + seq![(entry.0@, entry.1@[k as int]@)]);
                assert(entry_pairs(*entry)[k as int] == (entry.0@, entry.1@[k as int]@));
                assert(entry_pairs(*entry).take(k + 1) =~= entry_pairs(*entry).take(k as int)
                    + seq![entry_pairs(*entry)[k as int]]);
                assert(pairs_view(pairs@) =~= done + entry_pairs(*entry).take(k + 1));
            }
            k += 1;
        }
        proof {
            assert(entry_pairs(*entry).take(k as int) =~= entry_pairs(*entry));
            lemma_query_pairs_snoc(query@, i as int);
        }
        i += 1;
    }
    proof {
        assert(query@.take(query@.len() as int) =~= query@);
    }
    pairs
}

/// Flattening distributes over extending the entry list by one.
proof fn lemma_query_pairs_snoc(entries: Seq<(String, Vec<String>)>, i: int)
    requires
        0 <= i < entries.len(),
    ensures
        query_pairs(entries.take(i + 1)) == query_pairs(entries.take(i)) + entry_pairs(
            entries[i],
        ),
    decreases i,
{
    if i == 0 {
        assert(entries.take(1).drop_first() =~= entries.take(0));
        assert(entries.take(1)[0] == entries[0]);
        assert(query_pairs(entries.take(0)) =~= Seq::<(Seq<char>, Seq<char>)>::empty());
        assert(query_pairs(entries.take(1)) =~= entry_pairs(entries[0]) + query_pairs(
            entries.take(0),
        ));
        assert(entry_pairs(entries[0]) + query_pairs(entries.take(0)) =~= query_pairs(
            entries.take(0),
        ) + entry_pairs(entries[0]));
    } else {
        lemma_query_pairs_snoc(entries.drop_first(), i - 1);
        assert(entries.take(i + 1).drop_first() =~= entries.drop_first().take(i));
        assert(entries.take(i).drop_first() =~= entries.drop_first().take(i - 1));
        assert(entries.take(i + 1)[0] == entries[0]);
        assert(entries.take(i)[0] == entries[0]);
        assert(entries.drop_first()[i - 1] == entries[i]);
        assert(entry_pairs(entries[0]) + (query_pairs(entries.drop_first().take(i - 1))
            + entry_pairs(entries[i])) =~= (entry_pairs(entries[0]) + query_pairs(
            entries.drop_first().take(i - 1),
        )) + entry_pairs(entries[i]));
    }
}

/// Appends the reattached query string for `query` to `uri`.
pub fn append_query_string(uri: &mut String, query: &Vec<(String, Vec<String>)>)
    ensures
        final(uri)@ == old(uri)@ + qs_entries(query@, true),
{
    proof {
        lemma_qs_entries_pairs(query@, true);
    }
    let pairs = flatten_query(query);
    let ghost ps = pairs_view(pairs@);
    let mut j: usize = 0;
    while j < pairs.len()
        invariant
            j <= pairs@.len(),
            ps == pairs_view(pairs@),
            uri@ == old(uri)@ + qs_pairs(ps.take(j as int), true),
        decreases pairs@.len() - j,
    {
        proof {
            reveal_strlit("?");
            reveal_strlit("&");
            reveal_strlit("=");
            assert("?"@ =~= seq!['?']);
            assert("&"@ =~= seq!['&']);
            assert("="@ =~= seq!['=']);
        }
        let first = j == 0;
        if first {
            uri.append("?");
        } else {
            uri.append("&");
        }
        let enc_key = percent_encode(pairs[j].0.as_str());
        uri.append(enc_key.as_str());
        uri.append("=");
        let enc_val = percent_encode(pairs[j].1.as_str());
        uri.append(enc_val.as_str());
        proof {
            let pj = ps[j as int];
            assert(pj == (pairs@[j as int].0@, pairs@[j as int].1@));
            lemma_qs_pairs_concat(ps.take(j as int), seq![pj], true);
            assert(ps.take(j as int) + seq![pj] =~= ps.take(j + 1));
            let f = if j == 0 {
                true
            } else {
                false
            };
            assert(seq![pj][0] == pj);
            assert(seq![pj].drop_first() =~= Seq::<(Seq<char>, Seq<char>)>::empty());
            assert(qs_pairs(Seq::<(Seq<char>, Seq<char>)>::empty(), false) == Seq::<
                char,
            >::empty());
            assert(qs_pairs(seq![pj], f) == sep_seq(f) + pct_of(pj.0) + seq!['='] + pct_of(pj.1)
                + qs_pairs(seq![pj].drop_first(), false));
            assert(qs_pairs(seq![pj], f) =~= sep_seq(f) + pct_of(pj.0) + seq!['='] + pct_of(
                pj.1,
            ));
            assert(uri@ =~= old(uri)@ + qs_pairs(ps.take(j + 1), true));
        }
        j += 1;
    }
    proof {
        assert(ps.take(ps.len() as int) =~= ps);
    }
}

} // verus!
