//! Small verified text utilities: character-wise string comparison, the
//! qualified-path prefix, and concatenation of fragment lists.
use vstd::prelude::*;

verus! {

/// Compares two string slices by their character sequences.
pub fn str_eq(a: &str, b: &str) -> (r: bool)
    ensures
        r == (a@ == b@),
{
    let na = a.unicode_len();
    let nb = b.unicode_len();
    if na != nb {
        return false;
    }
    let mut i: usize = 0;
    while i < na
        invariant
            na == a@.len(),
            na == b@.len(),
            i <= na,
            forall|j: int| 0 <= j < i ==> a@[j] == b@[j],
        decreases na - i,
    {
        if a.get_char(i) != b.get_char(i) {
            return false;
        }
        i = i + 1;
    }
    proof {
        assert(a@ =~= b@);
    }
    true
}

/// The `seg::` prefix chain written before an identifier: one `::`-terminated
/// segment per module on the qualified path.
pub open spec fn qual_text(path: Seq<Seq<char>>) -> Seq<char>
    decreases path.len(),
{
    if path.len() == 0 {
        Seq::empty()
    } else {
        qual_text(path.drop_last()) + path.last() + "::"@
    }
}

/// Appends `qual_text(path)` to `out`.
pub fn push_qual(out: &mut String, path: &Vec<String>)
    ensures
        final(out)@ == old(out)@ + qual_text(path.deep_view()),
{
    let ghost pv = path.deep_view();
    let mut i: usize = 0;
    while i < path.len()
        invariant
            pv == path.deep_view(),
            pv.len() == path@.len(),
            i <= path@.len(),
            out@ == old(out)@ + qual_text(pv.take(i as int)),
        decreases path@.len() - i,
    {
        out.append(path[i].as_str());
        out.append("::");
        proof {
            assert(pv.take((i + 1) as int).drop_last() =~= pv.take(i as int));
            assert(out@ =~= old(out)@ + qual_text(pv.take((i + 1) as int)));
        }
        i = i + 1;
    }
    proof {
        assert(pv.take(pv.len() as int) =~= pv);
    }
}

/// The concatenation of the first `n` texts of `ts`.
pub open spec fn concat_upto(ts: Seq<Seq<char>>, n: int) -> Seq<char>
    decreases n,
{
    if n <= 0 || n > ts.len() {
        Seq::empty()
    } else {
        concat_upto(ts, n - 1) + ts[n - 1]
    }
}

/// The concatenation of all texts of `ts`, in order.
pub open spec fn concat_texts(ts: Seq<Seq<char>>) -> Seq<char> {
    concat_upto(ts, ts.len() as int)
}

} // verus!
