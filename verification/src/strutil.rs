use vstd::prelude::*;
use vstd::string::StrSliceExecFns;

verus! {

/// The first entry of `entries` whose key reads `key`, if any.
pub open spec fn lookup_str<T>(entries: Seq<(String, T)>, key: Seq<char>) -> Option<T>
    decreases entries.len(),
{
    if entries.len() == 0 {
        None
    } else if entries[0].0@ == key {
        Some(entries[0].1)
    } else {
        lookup_str(entries.drop_first(), key)
    }
}

/// Skipping entries whose keys all differ from `key` leaves the lookup
/// unchanged.
pub proof fn lemma_lookup_str_skip<T>(entries: Seq<(String, T)>, key: Seq<char>, i: int)
    requires
        0 <= i <= entries.len(),
        forall|j: int| 0 <= j < i ==> entries[j].0@ != key,
    ensures
        lookup_str(entries, key) == lookup_str(entries.skip(i), key),
    decreases i,
{
    if i == 0 {
        assert(entries.skip(0) =~= entries);
    } else {
        lemma_lookup_str_skip(entries, key, i - 1);
        assert(entries.skip(i - 1).drop_first() =~= entries.skip(i));
    }
}

/// `p` occurs in `s` starting at index `i`.
pub open spec fn occurs_at(s: Seq<char>, p: Seq<char>, i: int) -> bool {
    0 <= i && i + p.len() <= s.len() && s.subrange(i, i + p.len() as int) == p
}

/// `s` contains `p` somewhere.
pub open spec fn spec_contains(s: Seq<char>, p: Seq<char>) -> bool {
    exists|i: int| occurs_at(s, p, i)
}

/// `s` ends with `p`.
pub open spec fn spec_ends_with(s: Seq<char>, p: Seq<char>) -> bool {
    p.len() <= s.len() && s.subrange(s.len() - p.len(), s.len() as int) == p
}

/// The first index at or after `i` where `p` occurs in `s`, if any.
pub open spec fn find_from(s: Seq<char>, p: Seq<char>, i: int) -> Option<int>
    decreases s.len() - i,
{
    if i < 0 {
        None
    } else if i + p.len() > s.len() {
        None
    } else if p.len() == 0 {
        Some(i)
    } else if s.subrange(i, i + p.len() as int) == p {
        Some(i)
    } else {
        find_from(s, p, i + 1)
    }
}

/// The first index where `p` occurs in `s`, if any.
pub open spec fn find_first(s: Seq<char>, p: Seq<char>) -> Option<int> {
    find_from(s, p, 0)
}

/// `find_from` returns exactly the first occurrence at or after `i`.
pub proof fn lemma_find_from(s: Seq<char>, p: Seq<char>, i: int)
    requires
        0 <= i,
    ensures
        match find_from(s, p, i) {
            Some(k) => i <= k && occurs_at(s, p, k) && forall|j: int|
                i <= j < k ==> !occurs_at(s, p, j),
            None => forall|j: int| i <= j ==> !occurs_at(s, p, j),
        },
    decreases s.len() - i,
{
    if i + p.len() > s.len() {
        assert forall|j: int| i <= j implies !occurs_at(s, p, j) by {}
    } else if p.len() == 0 {
        assert(s.subrange(i, i + p.len() as int) =~= p);
        assert(occurs_at(s, p, i));
    } else if s.subrange(i, i + p.len() as int) == p {
    } else {
        lemma_find_from(s, p, i + 1);
        assert(!occurs_at(s, p, i));
    }
}

/// Character-by-character string equality over views.
pub fn str_eq(a: &str, b: &str) -> (r: bool)
    ensures
        r == (a@ == b@),
{
    let alen = a.unicode_len();
    let blen = b.unicode_len();
    if alen != blen {
        proof {
            assert(a@.len() != b@.len());
        }
        return false;
    }
    let mut i: usize = 0;
    while i < alen
        invariant
            alen == a@.len(),
            blen == b@.len(),
            alen == blen,
            i <= alen,
            forall|j: int| 0 <= j < i ==> a@[j] == b@[j],
        decreases alen - i,
    {
        if a.get_char(i) != b.get_char(i) {
            proof {
                assert(a@[i as int] != b@[i as int]);
            }
            return false;
        }
        i += 1;
    }
    proof {
        assert(a@ =~= b@);
    }
    true
}

/// Whether `s` ends with `suffix`, over views.
pub fn str_ends_with(s: &str, suffix: &str) -> (r: bool)
    ensures
        r == spec_ends_with(s@, suffix@),
{
    let slen = s.unicode_len();
    let plen = suffix.unicode_len();
    if plen > slen {
        return false;
    }
    let off = slen - plen;
    let ghost tail = s@.subrange(s@.len() - suffix@.len(), s@.len() as int);
    let mut j: usize = 0;
    while j < plen
        invariant
            slen == s@.len(),
            plen == suffix@.len(),
            plen <= slen,
            off == slen - plen,
            j <= plen,
            tail == s@.subrange(s@.len() - suffix@.len(), s@.len() as int),
            forall|k: int| 0 <= k < j ==> s@[off + k] == suffix@[k],
        decreases plen - j,
    {
        if s.get_char(off + j) != suffix.get_char(j) {
            proof {
                assert(tail[j as int] == s@[off + j]);
                assert(tail != suffix@);
            }
            return false;
        }
        j += 1;
    }
    proof {
        assert(tail =~= suffix@);
    }
    true
}

/// The first occurrence of `p` in `s`, matching `find_first`.
pub fn str_find(s: &str, p: &str) -> (r: Option<usize>)
    ensures
        match r {
            Some(k) => find_first(s@, p@) == Some(k as int),
            None => find_first(s@, p@) is None,
        },
{
    proof {
        lemma_find_from(s@, p@, 0);
    }
    let slen = s.unicode_len();
    let plen = p.unicode_len();
    if plen > slen {
        return None;
    }
    if plen == 0 {
        proof {
            assert(s@.subrange(0, 0) =~= p@);
            assert(occurs_at(s@, p@, 0));
        }
        return Some(0);
    }
    let mut i: usize = 0;
    while i <= slen - plen
        invariant
            slen == s@.len(),
            plen == p@.len(),
            0 < plen <= slen,
            i <= slen - plen + 1,
            forall|j: int| 0 <= j < i ==> !occurs_at(s@, p@, j),
        decreases slen - i,
    {
        let ghost window = s@.subrange(i as int, i + p@.len() as int);
        let mut j: usize = 0;
        let mut matched = true;
        while j < plen
            invariant
                slen == s@.len(),
                plen == p@.len(),
                0 < plen <= slen,
                i <= slen - plen,
                j <= plen,
                window == s@.subrange(i as int, i + p@.len() as int),
                matched ==> forall|k: int| 0 <= k < j ==> s@[i + k] == p@[k],
                !matched ==> window != p@,
            decreases plen - j,
        {
            if s.get_char(i + j) != p.get_char(j) {
                proof {
                    assert(window[j as int] == s@[i + j]);
                }
                matched = false;
                j = plen;
            } else {
                j += 1;
            }
        }
        if matched {
            proof {
                assert(window =~= p@);
                assert(occurs_at(s@, p@, i as int));
                lemma_find_from(s@, p@, 0);
                let k = find_first(s@, p@)->Some_0;
                assert(!(k < i) && !(k > i));
            }
            return Some(i);
        }
        proof {
            assert(!occurs_at(s@, p@, i as int));
        }
        i += 1;
    }
    proof {
        assert forall|j: int| 0 <= j implies !occurs_at(s@, p@, j) by {
            if j < i {
            } else {
                assert(j + p@.len() > s@.len());
            }
        }
    }
    None
}

/// Whether `s` contains `p`, over views.
pub fn str_contains(s: &str, p: &str) -> (r: bool)
    ensures
        r == spec_contains(s@, p@),
{
    proof {
        lemma_find_from(s@, p@, 0);
    }
    match str_find(s, p) {
        Some(k) => {
            proof {
                assert(occurs_at(s@, p@, k as int));
            }
            true
        },
        None => {
            proof {
                assert forall|i: int| !occurs_at(s@, p@, i) by {
                    if i >= 0 {
                        assert(!occurs_at(s@, p@, i));
                    }
                }
            }
            false
        },
    }
}

} // verus!
