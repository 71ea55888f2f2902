//! Lexicographic order on byte strings, and sorting validator ids by it.

use vstd::prelude::*;

verus! {

/// `a` sorts strictly before `b`, comparing bytes from the first (a proper
/// prefix sorts first).
pub open spec fn lex_lt(a: Seq<u8>, b: Seq<u8>) -> bool
    decreases a.len(),
{
    if a.len() == 0 || b.len() == 0 {
        a.len() == 0 && b.len() > 0
    } else if a[0] != b[0] {
        a[0] < b[0]
    } else {
        lex_lt(a.drop_first(), b.drop_first())
    }
}

pub proof fn lemma_lex_lt_irreflexive(a: Seq<u8>)
    ensures
        !lex_lt(a, a),
    decreases a.len(),
{
    if a.len() > 0 {
        lemma_lex_lt_irreflexive(a.drop_first());
    }
}

pub proof fn lemma_lex_lt_transitive(a: Seq<u8>, b: Seq<u8>, c: Seq<u8>)
    requires
        lex_lt(a, b),
        lex_lt(b, c),
    ensures
        lex_lt(a, c),
    decreases a.len(),
{
    if a.len() > 0 && b.len() > 0 && c.len() > 0 {
        if a[0] == b[0] && b[0] == c[0] {
            lemma_lex_lt_transitive(a.drop_first(), b.drop_first(), c.drop_first());
        }
    }
}

/// Two distinct byte strings of the same length are ordered one way or the other.
pub proof fn lemma_lex_lt_total(a: Seq<u8>, b: Seq<u8>)
    requires
        a.len() == b.len(),
        a != b,
    ensures
        lex_lt(a, b) || lex_lt(b, a),
    decreases a.len(),
{
    if a.len() == 0 {
        assert(a =~= b);
    } else if a[0] == b[0] {
        if a.drop_first() == b.drop_first() {
            assert(a =~= b) by {
                assert forall|i: int| 0 <= i < a.len() implies a[i] == b[i] by {
                    if i > 0 {
                        assert(a[i] == a.drop_first()[i - 1]);
                        assert(b[i] == b.drop_first()[i - 1]);
                    }
                }
            }
        }
        lemma_lex_lt_total(a.drop_first(), b.drop_first());
    }
}

pub proof fn lemma_lex_lt_asymmetric(a: Seq<u8>, b: Seq<u8>)
    requires
        lex_lt(a, b),
    ensures
        !lex_lt(b, a),
{
    if lex_lt(b, a) {
        lemma_lex_lt_transitive(a, b, a);
        lemma_lex_lt_irreflexive(a);
    }
}

/// Whether the 32-byte id `a` sorts strictly before `b`.
pub fn bytes32_lt(a: &[u8; 32], b: &[u8; 32]) -> (lt: bool)
    ensures
        lt == lex_lt(a@, b@),
{
    let mut i: usize = 0;
    assert(a@.skip(0) =~= a@);
    assert(b@.skip(0) =~= b@);
    while i < 32
        invariant
            0 <= i <= 32,
            a@.len() == 32,
            b@.len() == 32,
            lex_lt(a@, b@) == lex_lt(a@.skip(i as int), b@.skip(i as int)),
        decreases 32 - i,
    {
        proof {
            assert(a@.skip(i as int).drop_first() =~= a@.skip(i + 1));
            assert(b@.skip(i as int).drop_first() =~= b@.skip(i + 1));
        }
        if a[i] != b[i] {
            return a[i] < b[i];
        }
        i = i + 1;
    }
    false
}

/// `s` is in strictly ascending order.
pub open spec fn strictly_sorted(s: Seq<[u8; 32]>) -> bool {
    forall|i: int, j: int| 0 <= i < j < s.len() ==> lex_lt(#[trigger] s[i]@, #[trigger] s[j]@)
}

/// `s` lists the members of `members` once each, in ascending order.
pub open spec fn sorted_listing(s: Seq<[u8; 32]>, members: Seq<[u8; 32]>) -> bool {
    &&& s.len() == members.len()
    &&& strictly_sorted(s)
    &&& forall|x: [u8; 32]| s.contains(x) <==> members.contains(x)
}

/// The ascending listing of `members`.
pub open spec fn sorted_members(members: Seq<[u8; 32]>) -> Seq<[u8; 32]> {
    choose|s: Seq<[u8; 32]>| sorted_listing(s, members)
}

/// Distinct ids have an ascending listing.
pub proof fn sorted_ids_exist(members: Seq<[u8; 32]>) -> (s: Seq<[u8; 32]>)
    requires
        members.no_duplicates(),
    ensures
        sorted_listing(s, members),
        sorted_listing(sorted_members(members), members),
        s == sorted_members(members),
    decreases members.len(),
{
    if members.len() == 0 {
        let s = Seq::<[u8; 32]>::empty();
        assert(sorted_listing(s, members));
        lemma_sorted_listing_unique(s, sorted_members(members), members);
        s
    } else {
        let x = members.last();
        let rest = members.drop_last();
        assert(rest.no_duplicates());
        let t = sorted_ids_exist(rest);
        assert(!rest.contains(x)) by {
            if rest.contains(x) {
                let j = choose|j: int| 0 <= j < rest.len() && rest[j] == x;
                assert(members[j] == members[members.len() - 1]);
            }
        }
        assert(!t.contains(x));
        lemma_insertion_point(t, x);
        let p = insertion_point(t, x);
        let s = t.insert(p, x);
        assert forall|i: int, j: int| 0 <= i < j < s.len() implies lex_lt(#[trigger] s[i]@, #[trigger] s[j]@) by {
            if p < t.len() {
                if t[p]@ == x@ {
                    assert(t[p] =~= x);
                }
                lemma_lex_lt_total(t[p]@, x@);
            }
            if i < p && j == p {
            } else if i < p && j > p {
                if j - 1 > p {
                    lemma_lex_lt_transitive(x@, t[p]@, t[j - 1]@);
                }
                lemma_lex_lt_transitive(s[i]@, x@, s[j]@);
            } else if i == p {
                if j - 1 > p {
                    lemma_lex_lt_transitive(x@, t[p]@, t[j - 1]@);
                }
            } else if i > p {
                assert(s[i] == t[i - 1]);
                assert(s[j] == t[j - 1]);
            }
        }
        assert forall|y: [u8; 32]| s.contains(y) <==> members.contains(y) by {
            assert(members =~= rest.push(x));
            if s.contains(y) {
                let j = choose|j: int| 0 <= j < s.len() && s[j] == y;
                if j < p {
                    assert(t[j] == y);
                    assert(rest.contains(y));
                    let m = choose|m: int| 0 <= m < rest.len() && rest[m] == y;
                    assert(members[m] == y);
                } else if j > p {
                    assert(t[j - 1] == y);
                    assert(rest.contains(y));
                    let m = choose|m: int| 0 <= m < rest.len() && rest[m] == y;
                    assert(members[m] == y);
                } else {
                    assert(members[members.len() - 1] == y);
                }
            }
            if members.contains(y) {
                let m = choose|m: int| 0 <= m < members.len() && members[m] == y;
                if m < members.len() - 1 {
                    assert(rest[m] == y);
                    assert(t.contains(y));
                    let j = choose|j: int| 0 <= j < t.len() && t[j] == y;
                    if j < p {
                        assert(s[j] == y);
                    } else {
                        assert(s[j + 1] == y);
                    }
                } else {
                    assert(s[p] == y);
                }
            }
        }
        assert(sorted_listing(s, members));
        lemma_sorted_listing_unique(s, sorted_members(members), members);
        s
    }
}

/// Where `x` goes in the ascending listing `t`: after every smaller member.
spec fn insertion_point(t: Seq<[u8; 32]>, x: [u8; 32]) -> int
    decreases t.len(),
{
    if t.len() == 0 {
        0
    } else if lex_lt(t.last()@, x@) {
        t.len() as int
    } else {
        insertion_point(t.drop_last(), x)
    }
}

proof fn lemma_insertion_point(t: Seq<[u8; 32]>, x: [u8; 32])
    requires
        strictly_sorted(t),
    ensures
        0 <= insertion_point(t, x) <= t.len(),
        forall|j: int| 0 <= j < insertion_point(t, x) ==> lex_lt(#[trigger] t[j]@, x@),
        insertion_point(t, x) < t.len() ==> !lex_lt(t[insertion_point(t, x)]@, x@),
    decreases t.len(),
{
    if t.len() > 0 {
        let r = t.drop_last();
        assert(strictly_sorted(r)) by {
            assert forall|i: int, j: int| 0 <= i < j < r.len() implies lex_lt(#[trigger] r[i]@, #[trigger] r[j]@) by {
                assert(r[i] == t[i] && r[j] == t[j]);
            }
        }
        lemma_insertion_point(r, x);
        if lex_lt(t.last()@, x@) {
            assert forall|j: int| 0 <= j < t.len() implies lex_lt(#[trigger] t[j]@, x@) by {
                if j < t.len() - 1 {
                    lemma_lex_lt_transitive(t[j]@, t.last()@, x@);
                }
            }
        } else {
            let p = insertion_point(r, x);
            if p == r.len() {
                assert(t[p] == t.last());
            } else {
                assert(t[p] == r[p]);
            }
            assert forall|j: int| 0 <= j < p implies lex_lt(#[trigger] t[j]@, x@) by {
                assert(t[j] == r[j]);
            }
        }
    }
}

proof fn lemma_listings_agree_below(s: Seq<[u8; 32]>, t: Seq<[u8; 32]>, members: Seq<[u8; 32]>, i: int)
    requires
        sorted_listing(s, members),
        sorted_listing(t, members),
        0 <= i <= s.len(),
    ensures
        forall|k: int| 0 <= k < i ==> s[k] == t[k],
    decreases i,
{
    if i > 0 {
        let k = i - 1;
        lemma_listings_agree_below(s, t, members, k);
        if s[k] != t[k] {
            assert(s.contains(s[k]));
            assert(t.contains(s[k]));
            let j = choose|j: int| 0 <= j < t.len() && t[j] == s[k];
            if j < k {
                assert(s[j] == t[j]);
                assert(lex_lt(s[j]@, s[k]@));
                lemma_lex_lt_irreflexive(s[k]@);
            }
            assert(j > k);
            assert(lex_lt(t[k]@, s[k]@));
            assert(t.contains(t[k]));
            assert(s.contains(t[k]));
            let j2 = choose|j2: int| 0 <= j2 < s.len() && s[j2] == t[k];
            if j2 < k {
                assert(s[j2] == t[j2]);
                assert(lex_lt(t[j2]@, t[k]@));
                lemma_lex_lt_irreflexive(t[k]@);
            }
            assert(j2 > k);
            assert(lex_lt(s[k]@, t[k]@));
            lemma_lex_lt_asymmetric(s[k]@, t[k]@);
        }
    }
}

/// A set of ids has exactly one ascending listing.
pub proof fn lemma_sorted_listing_unique(s: Seq<[u8; 32]>, t: Seq<[u8; 32]>, members: Seq<[u8; 32]>)
    requires
        sorted_listing(s, members),
        sorted_listing(t, members),
    ensures
        s == t,
{
    lemma_listings_agree_below(s, t, members, s.len() as int);
    assert(s =~= t);
}

/// Sort distinct ids in ascending order.
pub fn sort_ids(ids: &Vec<[u8; 32]>) -> (sorted: Vec<[u8; 32]>)
    requires
        ids@.no_duplicates(),
    ensures
        sorted_listing(sorted@, ids@),
        sorted@ == sorted_members(ids@),
{
    let mut sorted: Vec<[u8; 32]> = Vec::new();
    let mut k: usize = 0;
    while k < ids.len()
        invariant
            0 <= k <= ids@.len(),
            ids@.no_duplicates(),
            sorted@.len() == k,
            strictly_sorted(sorted@),
            forall|x: [u8; 32]| sorted@.contains(x) <==> ids@.subrange(0, k as int).contains(x),
        decreases ids@.len() - k,
    {
        let x = ids[k];
        proof {
            if sorted@.contains(x) {
                let j = choose|j: int| 0 <= j < k && ids@.subrange(0, k as int)[j] == x;
                assert(ids@[j] == ids@[k as int]);
            }
        }
        let mut p: usize = 0;
        while p < sorted.len() && bytes32_lt(&sorted[p], &x)
            invariant
                0 <= p <= sorted@.len(),
                forall|j: int| 0 <= j < p ==> lex_lt(#[trigger] sorted@[j]@, x@),
            decreases sorted@.len() - p,
        {
            p = p + 1;
        }
        let ghost old_sorted = sorted@;
        sorted.insert(p, x);
        proof {
            assert(!old_sorted.contains(x));
            if p < old_sorted.len() {
                assert(!lex_lt(old_sorted[p as int]@, x@));
                assert(old_sorted[p as int] != x);
                if old_sorted[p as int]@ == x@ {
                    assert(old_sorted[p as int] =~= x);
                }
                lemma_lex_lt_total(old_sorted[p as int]@, x@);
            }
            assert forall|i: int, j: int| 0 <= i < j < sorted@.len() implies lex_lt(
                #[trigger] sorted@[i]@,
                #[trigger] sorted@[j]@,
            ) by {
                if i < p && j == p {
                } else if i < p && j > p {
                    assert(sorted@[j] == old_sorted[j - 1]);
                    if j - 1 == p {
                    } else {
                        assert(lex_lt(old_sorted[p as int]@, old_sorted[j - 1]@));
                        lemma_lex_lt_transitive(x@, old_sorted[p as int]@, old_sorted[j - 1]@);
                    }
                    lemma_lex_lt_transitive(sorted@[i]@, x@, sorted@[j]@);
                } else if i == p {
                    assert(sorted@[j] == old_sorted[j - 1]);
                    if j - 1 > p {
                        assert(lex_lt(old_sorted[p as int]@, old_sorted[j - 1]@));
                        lemma_lex_lt_transitive(x@, old_sorted[p as int]@, old_sorted[j - 1]@);
                    }
                } else if i > p {
                    assert(sorted@[i] == old_sorted[i - 1]);
                    assert(sorted@[j] == old_sorted[j - 1]);
                }
            }
            let prek = ids@.subrange(0, k as int);
            let prek1 = ids@.subrange(0, k + 1);
            assert(prek1 =~= prek.push(x));
            assert forall|y: [u8; 32]| sorted@.contains(y) <==> prek1.contains(y) by {
                if sorted@.contains(y) {
                    let j = choose|j: int| 0 <= j < sorted@.len() && sorted@[j] == y;
                    if j < p {
                        assert(old_sorted[j] == y);
                    } else if j > p {
                        assert(old_sorted[j - 1] == y);
                    }
                    if y != x {
                        assert(old_sorted.contains(y));
                        let m = choose|m: int| 0 <= m < k && prek[m] == y;
                        assert(prek1[m] == y);
                    } else {
                        assert(prek1[k as int] == y);
                    }
                }
                if prek1.contains(y) {
                    let m = choose|m: int| 0 <= m < k + 1 && prek1[m] == y;
                    if m < k {
                        assert(prek[m] == y);
                        assert(old_sorted.contains(y));
                        let j = choose|j: int| 0 <= j < old_sorted.len() && old_sorted[j] == y;
                        if j < p {
                            assert(sorted@[j] == y);
                        } else {
                            assert(sorted@[j + 1] == y);
                        }
                    } else {
                        assert(sorted@[p as int] == y);
                    }
                }
            }
        }
        k = k + 1;
    }
    proof {
        assert(ids@.subrange(0, ids@.len() as int) =~= ids@);
        lemma_sorted_listing_unique(sorted@, sorted_members(ids@), ids@);
    }
    sorted
}

} // verus!
