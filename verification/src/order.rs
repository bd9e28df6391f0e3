//! Lexicographic ordering of path strings, and the deduplicating sort that
//! fixes the deterministic enumeration order of the assertion pass.
use vstd::prelude::*;
use crate::text::str_eq;

verus! {

/// Strict lexicographic order on character sequences, by code point; a
/// proper prefix comes first.
pub open spec fn lex_lt(a: Seq<char>, b: Seq<char>) -> bool
    decreases a.len(),
{
    if b.len() == 0 {
        false
    } else if a.len() == 0 {
        true
    } else if a[0] != b[0] {
        (a[0] as u32) < (b[0] as u32)
    } else {
        lex_lt(a.drop_first(), b.drop_first())
    }
}

pub proof fn lemma_lex_lt_irrefl(a: Seq<char>)
    ensures
        !lex_lt(a, a),
    decreases a.len(),
{
    if a.len() > 0 {
        lemma_lex_lt_irrefl(a.drop_first());
    }
}

pub proof fn lemma_lex_lt_asym(a: Seq<char>, b: Seq<char>)
    ensures
        !(lex_lt(a, b) && lex_lt(b, a)),
    decreases a.len(),
{
    if a.len() > 0 && b.len() > 0 && a[0] == b[0] {
        lemma_lex_lt_asym(a.drop_first(), b.drop_first());
    }
}

/// Distinct characters differ as code points.
proof fn lemma_char_cast_inj(a: char, b: char)
    requires
        (a as u32) == (b as u32),
    ensures
        a == b,
{
    vstd::utf8::char_u32_cast(a, a as u32);
    vstd::utf8::char_u32_cast(b, b as u32);
}

/// Two sequences neither of which precedes the other are equal.
pub proof fn lemma_lex_lt_connected(a: Seq<char>, b: Seq<char>)
    requires
        !lex_lt(a, b),
        !lex_lt(b, a),
    ensures
        a == b,
    decreases a.len(),
{
    if a.len() == 0 {
        assert(b.len() == 0);
        assert(a =~= b);
    } else {
        assert(b.len() > 0);
        if a[0] != b[0] {
            lemma_char_cast_inj(a[0], b[0]);
            assert(false);
        }
        lemma_lex_lt_connected(a.drop_first(), b.drop_first());
        assert forall|i: int| 0 <= i < a.len() implies a[i] == b[i] by {
            if i > 0 {
                assert(a.drop_first()[i - 1] == b.drop_first()[i - 1]);
            }
        }
        assert(a.len() == b.len());
        assert(a =~= b);
    }
}

pub proof fn lemma_lex_lt_trans(a: Seq<char>, b: Seq<char>, c: Seq<char>)
    requires
        lex_lt(a, b),
        lex_lt(b, c),
    ensures
        lex_lt(a, c),
    decreases a.len(),
{
    assert(c.len() > 0);
    if a.len() > 0 {
        assert(b.len() > 0);
        if a[0] == b[0] && b[0] == c[0] {
            lemma_lex_lt_trans(a.drop_first(), b.drop_first(), c.drop_first());
        }
    }
}

/// The first position where the sequences differ decides the order.
pub proof fn lemma_lex_lt_from_index(a: Seq<char>, b: Seq<char>, i: int)
    requires
        0 <= i <= a.len(),
        i <= b.len(),
        forall|j: int| 0 <= j < i ==> a[j] == b[j],
        (i == a.len() && i < b.len()) || (i < a.len() && i < b.len() && (a[i] as u32) < (
        b[i] as u32)),
    ensures
        lex_lt(a, b),
    decreases i,
{
    if i == 0 {
    } else {
        assert forall|j: int| 0 <= j < i - 1 implies a.drop_first()[j] == b.drop_first()[j] by {
            assert(a[j + 1] == b[j + 1]);
        }
        lemma_lex_lt_from_index(a.drop_first(), b.drop_first(), i - 1);
    }
}

/// Compares two string slices in lexicographic order by code point.
pub fn str_lt(a: &str, b: &str) -> (r: bool)
    ensures
        r == lex_lt(a@, b@),
{
    let na = a.unicode_len();
    let nb = b.unicode_len();
    let min = if na < nb {
        na
    } else {
        nb
    };
    let mut i: usize = 0;
    while i < min
        invariant
            na == a@.len(),
            nb == b@.len(),
            min <= na,
            min <= nb,
            min == na || min == nb,
            i <= min,
            forall|j: int| 0 <= j < i ==> a@[j] == b@[j],
        decreases min - i,
    {
        let ca = a.get_char(i);
        let cb = b.get_char(i);
        if (ca as u32) < (cb as u32) {
            proof {
                lemma_lex_lt_from_index(a@, b@, i as int);
            }
            return true;
        }
        if (cb as u32) < (ca as u32) {
            proof {
                lemma_lex_lt_from_index(b@, a@, i as int);
                lemma_lex_lt_asym(a@, b@);
            }
            return false;
        }
        proof {
            lemma_char_cast_inj(ca, cb);
        }
        i = i + 1;
    }
    if na < nb {
        proof {
            lemma_lex_lt_from_index(a@, b@, na as int);
        }
        true
    } else if nb < na {
        proof {
            lemma_lex_lt_from_index(b@, a@, nb as int);
            lemma_lex_lt_asym(a@, b@);
        }
        false
    } else {
        proof {
            assert(a@ =~= b@);
            lemma_lex_lt_irrefl(a@);
        }
        false
    }
}

pub open spec fn strictly_sorted(s: Seq<Seq<char>>) -> bool {
    forall|i: int, j: int| 0 <= i < j < s.len() ==> lex_lt(s[i], s[j])
}

/// Deduplicates and sorts path strings: the result is strictly increasing
/// and holds exactly the set of input values, so the enumeration order is
/// deterministic whatever order the inputs arrived in.
pub fn sort_paths(paths: &Vec<String>) -> (r: Vec<String>)
    ensures
        strictly_sorted(r.deep_view()),
        forall|x: Seq<char>|
            #[trigger] r.deep_view().contains(x) <==> paths.deep_view().contains(x),
{
    let ghost pd = paths.deep_view();
    let mut r: Vec<String> = Vec::new();
    let mut t: usize = 0;
    while t < paths.len()
        invariant
            pd == paths.deep_view(),
            pd.len() == paths@.len(),
            t <= paths@.len(),
            strictly_sorted(r.deep_view()),
            forall|x: Seq<char>|
                #[trigger] r.deep_view().contains(x) <==> pd.take(t as int).contains(x),
        decreases paths@.len() - t,
    {
        let p = &paths[t];
        proof {
            assert(pd[t as int] == paths@[t as int]@);
        }
        let ghost rd = r.deep_view();
        let mut k: usize = 0;
        let mut dup = false;
        let mut m: usize = 0;
        while m < r.len()
            invariant
                rd == r.deep_view(),
                rd.len() == r@.len(),
                strictly_sorted(rd),
                t < pd.len(),
                p@ == pd[t as int],
                k <= m <= r@.len(),
                forall|q: int| 0 <= q < k ==> lex_lt(#[trigger] rd[q], p@),
                forall|q: int| k <= q < m ==> !lex_lt(#[trigger] rd[q], p@),
                dup ==> rd.contains(p@),
                !dup ==> forall|q: int| 0 <= q < m ==> #[trigger] rd[q] != p@,
            decreases r@.len() - m,
        {
            if str_lt(r[m].as_str(), p.as_str()) {
                proof {
                    assert(rd[m as int] == r@[m as int]@);
                    if k < m {
                        assert(lex_lt(rd[k as int], rd[m as int]));
                        lemma_lex_lt_trans(rd[k as int], rd[m as int], p@);
                        assert(false);
                    }
                    lemma_lex_lt_irrefl(p@);
                }
                k = m + 1;
            } else {
                if str_eq(r[m].as_str(), p.as_str()) {
                    proof {
                        assert(rd[m as int] == r@[m as int]@);
                        assert(rd.contains(p@));
                    }
                    dup = true;
                }
            }
            m = m + 1;
        }
        if dup {
            proof {
                assert(rd.contains(p@));
                assert(pd.take((t + 1) as int) =~= pd.take(t as int).push(pd[t as int]));
                assert forall|x: Seq<char>| #[trigger]
                    r.deep_view().contains(x) <==> pd.take((t + 1) as int).contains(x) by {
                    if pd.take((t + 1) as int).contains(x) {
                        let w = choose|w: int|
                            0 <= w < pd.take((t + 1) as int).len() && #[trigger] pd.take(
                                (t + 1) as int,
                            )[w] == x;
                        if w < t {
                            assert(pd.take(t as int)[w] == x);
                            assert(pd.take(t as int).contains(x));
                        } else {
                            assert(x == p@);
                        }
                    }
                    if r.deep_view().contains(x) {
                        assert(pd.take(t as int).contains(x));
                        let w = choose|w: int|
                            0 <= w < pd.take(t as int).len() && #[trigger] pd.take(t as int)[w] == x;
                        assert(pd.take((t + 1) as int)[w] == x);
                    }
                }
            }
        } else {
            let ghost rv = r@;
            let c = p.clone();
            proof {
                assert(c@ == p@);
            }
            r.insert(k, c);
            proof {
                assert(r@ == rv.insert(k as int, c));
                let rd2 = r.deep_view();
                assert(rd2.len() == rd.len() + 1);
                assert forall|q: int| 0 <= q < rd2.len() implies rd2[q] == (if q < k {
                    rd[q]
                } else if q == k {
                    p@
                } else {
                    rd[q - 1]
                }) by {
                    assert(rd2[q] == r@[q]@);
                    if q < k {
                        assert(r@[q] == rv[q]);
                    } else if q == k {
                        assert(r@[q] == c);
                    } else {
                        assert(r@[q] == rv[q - 1]);
                    }
                }
                assert forall|i: int, j: int| 0 <= i < j < rd2.len() implies lex_lt(
                    rd2[i],
                    rd2[j],
                ) by {
                    if j < k {
                        assert(lex_lt(rd[i], rd[j]));
                    } else if i < k && j == k {
                        assert(lex_lt(rd[i], p@));
                    } else if i < k && j > k {
                        assert(lex_lt(rd[i], rd[j - 1]));
                    } else if i == k {
                        assert(!lex_lt(rd[j - 1], p@));
                        assert(rd[j - 1] != p@);
                        if !lex_lt(p@, rd[j - 1]) {
                            lemma_lex_lt_connected(p@, rd[j - 1]);
                            assert(false);
                        }
                    } else {
                        assert(lex_lt(rd[i - 1], rd[j - 1]));
                    }
                }
                assert(pd.take((t + 1) as int) =~= pd.take(t as int).push(pd[t as int]));
                assert forall|x: Seq<char>| #[trigger]
                    rd2.contains(x) <==> pd.take((t + 1) as int).contains(x) by {
                    if rd2.contains(x) {
                        let w = choose|w: int| 0 <= w < rd2.len() && #[trigger] rd2[w] == x;
                        if w == k {
                            assert(x == p@);
                            assert(pd.take((t + 1) as int)[t as int] == x);
                        } else {
                            let v = if w < k {
                                w
                            } else {
                                w - 1
                            };
                            assert(rd[v] == x);
                            assert(rd.contains(x));
                            assert(pd.take(t as int).contains(x));
                            let u = choose|u: int|
                                0 <= u < pd.take(t as int).len() && #[trigger] pd.take(t as int)[u]
                                    == x;
                            assert(pd.take((t + 1) as int)[u] == x);
                        }
                    }
                    if pd.take((t + 1) as int).contains(x) {
                        let w = choose|w: int|
                            0 <= w < pd.take((t + 1) as int).len() && #[trigger] pd.take(
                                (t + 1) as int,
                            )[w] == x;
                        if w < t {
                            assert(pd.take(t as int)[w] == x);
                            assert(pd.take(t as int).contains(x));
                            assert(rd.contains(x));
                            let u = choose|u: int| 0 <= u < rd.len() && #[trigger] rd[u] == x;
                            let v = if u < k {
                                u
                            } else {
                                u + 1
                            };
                            assert(rd2[v] == x);
                        } else {
                            assert(x == p@);
                            assert(rd2[k as int] == x);
                        }
                    }
                }
            }
        }
        t = t + 1;
    }
    proof {
        assert(pd.take(pd.len() as int) =~= pd);
    }
    r
}

} // verus!
