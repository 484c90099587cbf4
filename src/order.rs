//! Lexicographic order of texts, and the orders in which listings are shown.
use vstd::prelude::*;

verus! {

/// `a` comes strictly before `b`, comparing characters by code point; a
/// proper prefix comes first. This is the order of `str`'s `Ord`.
pub open spec fn lex_lt(a: Seq<char>, b: Seq<char>) -> bool
    decreases a.len(),
{
    if b.len() == 0 {
        false
    } else if a.len() == 0 {
        true
    } else if a[0] != b[0] {
        (a[0] as u32) < (b[0] as u32)
    } else {
        lex_lt(a.drop_first(), b.drop_first())
    }
}

/// The texts of a sequence of strings.
pub open spec fn texts(v: Seq<String>) -> Seq<Seq<char>> {
    v.map_values(|s: String| s@)
}

/// Each entry comes strictly before the next.
pub open spec fn strictly_ascending(s: Seq<Seq<char>>) -> bool {
    forall|i: int| 0 <= i && i + 1 < s.len() ==> lex_lt(#[trigger] s[i], s[i + 1])
}

/// No entry comes before the one preceding it.
pub open spec fn descending(s: Seq<Seq<char>>) -> bool {
    forall|i: int| 0 <= i && i + 1 < s.len() ==> !lex_lt(#[trigger] s[i], s[i + 1])
}

proof fn lemma_lex_asymmetric(a: Seq<char>, b: Seq<char>)
    ensures
        lex_lt(a, b) ==> !lex_lt(b, a),
    decreases a.len(),
{
    if a.len() > 0 && b.len() > 0 && a[0] == b[0] {
        lemma_lex_asymmetric(a.drop_first(), b.drop_first());
    }
}

proof fn lemma_lex_irreflexive(a: Seq<char>)
    ensures
        !lex_lt(a, a),
    decreases a.len(),
{
    if a.len() > 0 {
        lemma_lex_irreflexive(a.drop_first());
    }
}

proof fn lemma_lex_transitive(a: Seq<char>, b: Seq<char>, c: Seq<char>)
    requires
        lex_lt(a, b),
        lex_lt(b, c),
    ensures
        lex_lt(a, c),
    decreases a.len(),
{
    if a.len() > 0 && b.len() > 0 && c.len() > 0 && a[0] == b[0] && b[0] == c[0] {
        lemma_lex_transitive(a.drop_first(), b.drop_first(), c.drop_first());
    }
}

proof fn lemma_ascending_pairwise(s: Seq<Seq<char>>, i: int, j: int)
    requires
        strictly_ascending(s),
        0 <= i < j < s.len(),
    ensures
        lex_lt(s[i], s[j]),
    decreases j - i,
{
    if j > i + 1 {
        lemma_ascending_pairwise(s, i, j - 1);
        assert(lex_lt(s[j - 1], s[j]));
        lemma_lex_transitive(s[i], s[j - 1], s[j]);
    }
}

proof fn lemma_tail_ascending(s: Seq<Seq<char>>)
    requires
        strictly_ascending(s),
        s.len() > 0,
    ensures
        strictly_ascending(s.drop_first()),
{
    let t = s.drop_first();
    assert forall|i: int| 0 <= i && i + 1 < t.len() implies lex_lt(#[trigger] t[i], t[i + 1]) by {
        assert(lex_lt(s[i + 1], s[i + 2]));
    }
}

proof fn lemma_same_first(s1: Seq<Seq<char>>, s2: Seq<Seq<char>>)
    requires
        strictly_ascending(s1),
        strictly_ascending(s2),
        s1.len() > 0,
        forall|x: Seq<char>| s1.contains(x) <==> s2.contains(x),
    ensures
        s2.len() > 0,
        s1[0] == s2[0],
{
    assert(s1.contains(s1[0]));
    let k = choose|k: int| 0 <= k < s2.len() && s2[k] == s1[0];
    assert(s2.contains(s2[0]));
    let m = choose|m: int| 0 <= m < s1.len() && s1[m] == s2[0];
    if s1[0] != s2[0] {
        lemma_ascending_pairwise(s2, 0, k);
        lemma_ascending_pairwise(s1, 0, m);
        lemma_lex_asymmetric(s1[0], s2[0]);
    }
}

proof fn lemma_tail_in(s1: Seq<Seq<char>>, s2: Seq<Seq<char>>, x: Seq<char>)
    requires
        strictly_ascending(s1),
        s1.len() > 0,
        s2.len() > 0,
        s1[0] == s2[0],
        forall|y: Seq<char>| s1.contains(y) ==> s2.contains(y),
        s1.drop_first().contains(x),
    ensures
        s2.drop_first().contains(x),
{
    let t1 = s1.drop_first();
    let i = choose|i: int| 0 <= i < t1.len() && t1[i] == x;
    lemma_ascending_pairwise(s1, 0, i + 1);
    lemma_lex_irreflexive(x);
    assert(s1.contains(x));
    let j = choose|j: int| 0 <= j < s2.len() && s2[j] == x;
    assert(j != 0);
    assert(s2.drop_first()[j - 1] == x);
}

/// Two strictly ascending sequences that hold the same texts are equal: a
/// listing in this order is fixed by its set of entries alone.
pub proof fn lemma_ascending_unique(s1: Seq<Seq<char>>, s2: Seq<Seq<char>>)
    requires
        strictly_ascending(s1),
        strictly_ascending(s2),
        forall|x: Seq<char>| s1.contains(x) <==> s2.contains(x),
    ensures
        s1 == s2,
    decreases s1.len(),
{
    if s1.len() == 0 {
        if s2.len() > 0 {
            assert(s2.contains(s2[0]));
        }
        assert(s1 =~= s2);
    } else {
        lemma_same_first(s1, s2);
        lemma_tail_ascending(s1);
        lemma_tail_ascending(s2);
        assert forall|x: Seq<char>| s1.drop_first().contains(x) <==> s2.drop_first().contains(x) by {
            if s1.drop_first().contains(x) {
                lemma_tail_in(s1, s2, x);
            }
            if s2.drop_first().contains(x) {
                lemma_tail_in(s2, s1, x);
            }
        }
        lemma_ascending_unique(s1.drop_first(), s2.drop_first());
        assert(s1.len() == s2.len());
        assert forall|i: int| 0 <= i < s1.len() implies s1[i] == s2[i] by {
            if i > 0 {
                assert(s1[i] == s1.drop_first()[i - 1]);
                assert(s2[i] == s2.drop_first()[i - 1]);
            }
        }
        assert(s1 =~= s2);
    }
}

proof fn lemma_insert_contains(s: Seq<Seq<char>>, j: int, t: Seq<char>)
    requires
        0 <= j <= s.len(),
    ensures
        forall|x: Seq<char>| #[trigger] s.insert(j, t).contains(x) <==> (s.contains(x) || x == t),
{
    let u = s.insert(j, t);
    assert forall|x: Seq<char>| #[trigger] u.contains(x) <==> (s.contains(x) || x == t) by {
        if u.contains(x) {
            let k = choose|k: int| 0 <= k < u.len() && u[k] == x;
            if k < j {
                assert(s[k] == x);
            } else if k > j {
                assert(s[k - 1] == x);
            }
        }
        if s.contains(x) {
            let k = choose|k: int| 0 <= k < s.len() && s[k] == x;
            if k < j {
                assert(u[k] == x);
            } else {
                assert(u[k + 1] == x);
            }
        }
        if x == t {
            assert(u[j] == x);
        }
    }
}

/// Three-way comparison: negative when `a` comes first, zero when the texts
/// are equal, positive when `b` comes first.
pub fn compare(a: &str, b: &str) -> (r: i8)
    ensures
        (r < 0) == lex_lt(a@, b@),
        (r == 0) == (a@ == b@),
        (r > 0) == lex_lt(b@, a@),
{
    let la = a.unicode_len();
    let lb = b.unicode_len();
    let mut i: usize = 0;
    assert(a@.skip(0) =~= a@);
    assert(b@.skip(0) =~= b@);
    while i < la && i < lb
        invariant
            i <= la,
            i <= lb,
            la == a@.len(),
            lb == b@.len(),
            a@.subrange(0, i as int) == b@.subrange(0, i as int),
            lex_lt(a@, b@) == lex_lt(a@.skip(i as int), b@.skip(i as int)),
            lex_lt(b@, a@) == lex_lt(b@.skip(i as int), a@.skip(i as int)),
        decreases la - i,
    {
        let ca = a.get_char(i);
        let cb = b.get_char(i);
        assert(a@.skip(i as int)[0] == ca);
        assert(b@.skip(i as int)[0] == cb);
        if ca != cb {
            assert(a@[i as int] != b@[i as int]);
            assert(a@ != b@);
            if (ca as u32) < (cb as u32) {
                return -1;
            } else {
                return 1;
            }
        }
        assert(a@.skip(i as int).drop_first() =~= a@.skip(i + 1));
        assert(b@.skip(i as int).drop_first() =~= b@.skip(i + 1));
        assert(a@.subrange(0, i + 1) =~= a@.subrange(0, i as int).push(ca));
        assert(b@.subrange(0, i + 1) =~= b@.subrange(0, i as int).push(cb));
        i = i + 1;
    }
    if i == la && i == lb {
        assert(a@ =~= a@.subrange(0, i as int));
        assert(b@ =~= b@.subrange(0, i as int));
        0
    } else if i == la {
        assert(a@ != b@);
        -1
    } else {
        assert(a@ != b@);
        1
    }
}

/// The distinct texts of `tags`, in ascending order.
pub fn sort_tags(tags: &Vec<String>) -> (r: Vec<String>)
    ensures
        strictly_ascending(texts(r@)),
        forall|x: Seq<char>| texts(r@).contains(x) <==> texts(tags@).contains(x),
{
    let mut out: Vec<String> = Vec::new();
    let mut i: usize = 0;
    while i < tags.len()
        invariant
            i <= tags.len(),
            strictly_ascending(texts(out@)),
            forall|x: Seq<char>| texts(out@).contains(x) <==> texts(tags@.subrange(0, i as int)).contains(x),
        decreases tags.len() - i,
    {
        let t = &tags[i];
        let mut j: usize = 0;
        let mut c: i8 = -1;
        while j < out.len()
            invariant
                j <= out.len(),
                forall|k: int| 0 <= k < j ==> lex_lt(#[trigger] texts(out@)[k], t@),
            ensures
                j <= out.len(),
                forall|k: int| 0 <= k < j ==> lex_lt(#[trigger] texts(out@)[k], t@),
                j < out.len() ==> (c == 0) == (texts(out@)[j as int] == t@),
                j < out.len() ==> (c > 0) == lex_lt(t@, texts(out@)[j as int]),
                j < out.len() ==> c >= 0,
            decreases out.len() - j,
        {
            c = compare(out[j].as_str(), t.as_str());
            if c >= 0 {
                break;
            }
            j = j + 1;
        }
        let ghost before = texts(out@);
        let ghost seen = texts(tags@.subrange(0, i as int));
        assert(texts(tags@.subrange(0, i + 1)) =~= seen.push(t@));
        proof {
            lemma_insert_contains(seen, seen.len() as int, t@);
            assert(seen.insert(seen.len() as int, t@) =~= seen.push(t@));
        }
        if j < out.len() && c == 0 {
            assert(before[j as int] == t@);
            assert(before.contains(t@));
        } else {
            assert(j < out.len() ==> lex_lt(t@, before[j as int]));
            out.insert(j, t.clone());
            assert(texts(out@) =~= before.insert(j as int, t@));
            assert forall|k: int| 0 <= k && k + 1 < texts(out@).len() implies lex_lt(
                #[trigger] texts(out@)[k],
                texts(out@)[k + 1],
            ) by {
                if k + 1 < j {
                    assert(lex_lt(before[k], before[k + 1]));
                } else if k + 1 == j {
                } else if k == j {
                } else {
                    assert(lex_lt(before[k - 1], before[k]));
                }
            }
            proof {
                lemma_insert_contains(before, j as int, t@);
            }
        }
        assert forall|x: Seq<char>| texts(out@).contains(x) <==> seen.push(t@).contains(x) by {
            assert(before.contains(t@) ==> (before.contains(x) || x == t@) == before.contains(x));
        }
        i = i + 1;
    }
    assert(tags@.subrange(0, i as int) =~= tags@);
    out
}

/// The texts of `keys` in descending order, each kept as often as it occurs.
pub fn sort_descending(keys: &Vec<String>) -> (r: Vec<String>)
    ensures
        descending(texts(r@)),
        texts(r@).to_multiset() == texts(keys@).to_multiset(),
{
    let mut out: Vec<String> = Vec::new();
    let mut i: usize = 0;
    assert(texts(keys@.subrange(0, 0)) =~= texts(out@));
    while i < keys.len()
        invariant
            i <= keys.len(),
            descending(texts(out@)),
            texts(out@).to_multiset() == texts(keys@.subrange(0, i as int)).to_multiset(),
        decreases keys.len() - i,
    {
        let t = &keys[i];
        let mut j: usize = 0;
        while j < out.len()
            invariant
                j <= out.len(),
                forall|k: int| 0 <= k < j ==> !lex_lt(#[trigger] texts(out@)[k], t@),
            ensures
                j <= out.len(),
                forall|k: int| 0 <= k < j ==> !lex_lt(#[trigger] texts(out@)[k], t@),
                j < out.len() ==> lex_lt(texts(out@)[j as int], t@),
            decreases out.len() - j,
        {
            let c = compare(out[j].as_str(), t.as_str());
            if c < 0 {
                break;
            }
            j = j + 1;
        }
        let ghost before = texts(out@);
        assert(texts(keys@.subrange(0, i + 1)) =~= texts(keys@.subrange(0, i as int)).push(t@));
        proof {
            if j < out.len() {
                lemma_lex_asymmetric(before[j as int], t@);
            }
        }
        out.insert(j, t.clone());
        assert(texts(out@) =~= before.insert(j as int, t@));
        proof {
            vstd::seq_lib::to_multiset_insert(before, j as int, t@);
            vstd::seq_lib::to_multiset_build(texts(keys@.subrange(0, i as int)), t@);
        }
        assert forall|k: int| 0 <= k && k + 1 < texts(out@).len() implies !lex_lt(
            #[trigger] texts(out@)[k],
            texts(out@)[k + 1],
        ) by {
            if k + 1 < j {
                assert(!lex_lt(before[k], before[k + 1]));
            } else if k + 1 == j {
            } else if k == j {
            } else {
                assert(!lex_lt(before[k - 1], before[k]));
            }
        }
        i = i + 1;
    }
    assert(keys@.subrange(0, i as int) =~= keys@);
    out
}

} // verus!
