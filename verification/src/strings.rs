//! String helpers the protocol logic needs: equality of two string slices,
//! and splitting a slash-delimited path into its non-empty segments.

use vstd::prelude::*;
use vstd::string::StrSliceExecFns;
use vstd::string::StringExecFns;

verus! {

/// Character-wise equality of two string slices.
pub fn str_eq(a: &str, b: &str) -> (r: bool)
    ensures
        r == (a@ == b@),
{
    let alen = a.unicode_len();
    let blen = b.unicode_len();
    if alen != blen {
        return false;
    }
    let mut i: usize = 0;
    while i < alen
        invariant
            i <= alen,
            alen == a@.len(),
            alen == b@.len(),
            forall|j: int| 0 <= j < i ==> a@[j] == b@[j],
        decreases alen - i,
    {
        if a.get_char(i) != b.get_char(i) {
            return false;
        }
        i = i + 1;
    }
    proof {
        assert(a@ =~= b@);
    }
    true
}

/// The views of the strings in `v`, in order.
pub open spec fn strings_view(v: Seq<String>) -> Seq<Seq<char>> {
    Seq::new(v.len(), |i: int| v[i]@)
}

/// Index of the first `/` in `s`, or `s.len()` if there is none.
pub open spec fn first_slash(s: Seq<char>) -> int
    decreases s.len(),
{
    if s.len() == 0 {
        0
    } else if s[0] == '/' {
        0
    } else {
        1 + first_slash(s.drop_first())
    }
}

proof fn lemma_first_slash_bounds(s: Seq<char>)
    ensures
        0 <= first_slash(s) <= s.len(),
        forall|k: int| 0 <= k < first_slash(s) ==> s[k] != '/',
        first_slash(s) < s.len() ==> s[first_slash(s)] == '/',
    decreases s.len(),
{
    if s.len() != 0 && s[0] != '/' {
        lemma_first_slash_bounds(s.drop_first());
        assert forall|k: int| 0 <= k < first_slash(s) implies s[k] != '/' by {
            if k > 0 {
                assert(s.drop_first()[k - 1] == s[k]);
            }
        }
        if first_slash(s) < s.len() {
            assert(s.drop_first()[first_slash(s) - 1] == s[first_slash(s)]);
        }
    }
}

proof fn lemma_first_slash_at(s: Seq<char>, j: int)
    requires
        0 <= j <= s.len(),
        forall|k: int| 0 <= k < j ==> s[k] != '/',
        j < s.len() ==> s[j] == '/',
    ensures
        first_slash(s) == j,
    decreases s.len(),
{
    if s.len() != 0 && s[0] != '/' {
        lemma_first_slash_at(s.drop_first(), j - 1);
    }
}

/// The ordered non-empty segments of a slash-delimited path.
pub open spec fn split_segments(s: Seq<char>) -> Seq<Seq<char>>
    decreases s.len(),
    via split_segments_decreases
{
    if s.len() == 0 {
        Seq::empty()
    } else {
        let i = first_slash(s);
        let head = s.subrange(0, i);
        let tail = if i == s.len() {
            Seq::<char>::empty()
        } else {
            s.subrange(i + 1, s.len() as int)
        };
        if head.len() == 0 {
            split_segments(tail)
        } else {
            seq![head] + split_segments(tail)
        }
    }
}

#[via_fn]
proof fn split_segments_decreases(s: Seq<char>) {
    lemma_first_slash_bounds(s);
}

/// Splits a path on `/`, dropping empty segments: `"fs/a/b"` gives
/// `["fs", "a", "b"]`, `""` gives no segments.
pub fn split_shv_path(s: &str) -> (r: Vec<String>)
    ensures
        strings_view(r@) == split_segments(s@),
{
    let len = s.unicode_len();
    let mut acc: Vec<String> = Vec::new();
    let mut i: usize = 0;
    proof {
        assert(s@.skip(0) =~= s@);
        assert(strings_view(Seq::<String>::empty()) =~= Seq::<Seq<char>>::empty());
    }
    while i < len
        invariant
            i <= len,
            len == s@.len(),
            split_segments(s@) =~= strings_view(acc@) + split_segments(s@.skip(i as int)),
        decreases len - i,
    {
        let ghost suffix = s@.skip(i as int);
        let mut j: usize = i;
        while j < len && s.get_char(j) != '/'
            invariant
                i <= j <= len,
                len == s@.len(),
                forall|k: int| i <= k < j ==> s@[k] != '/',
            decreases len - j,
        {
            j = j + 1;
        }
        proof {
            assert forall|k: int| 0 <= k < j - i implies suffix[k] != '/' by {
                assert(suffix[k] == s@[k + i]);
            }
            if j < len {
                assert(suffix[j - i] == s@[j as int]);
            }
            lemma_first_slash_at(suffix, j - i);
            assert(suffix.subrange(0, j - i) =~= s@.subrange(i as int, j as int));
        }
        if j > i {
            let seg = s.substring_char(i, j).to_owned();
            acc.push(seg);
            proof {
                assert(strings_view(acc@) =~= strings_view(acc@.drop_last()) + seq![seg@]);
            }
        }
        proof {
            if j < len {
                assert(suffix.subrange(j - i + 1, suffix.len() as int) =~= s@.skip(j + 1));
            } else {
                assert(suffix.subrange(0, j - i) =~= suffix);
                assert(s@.skip(len as int) =~= Seq::<char>::empty());
            }
        }
        if j == len {
            i = len;
        } else {
            i = j + 1;
        }
    }
    proof {
        assert(s@.skip(len as int) =~= Seq::<char>::empty());
        assert(strings_view(acc@) + Seq::<Seq<char>>::empty() =~= strings_view(acc@));
    }
    acc
}

/// Copies a list of strings.
pub fn clone_strings(v: &Vec<String>) -> (r: Vec<String>)
    ensures
        strings_view(r@) == strings_view(v@),
{
    let mut out: Vec<String> = Vec::new();
    let mut i: usize = 0;
    while i < v.len()
        invariant
            i <= v@.len(),
            out@.len() == i,
            forall|j: int| 0 <= j < i ==> #[trigger] out@[j]@ == v@[j]@,
        decreases v@.len() - i,
    {
        out.push(v[i].clone());
        i = i + 1;
    }
    proof {
        assert(strings_view(out@) =~= strings_view(v@));
    }
    out
}

/// The strings from index `from` on.
pub fn tail_strings(v: &Vec<String>, from: usize) -> (r: Vec<String>)
    requires
        from <= v@.len(),
    ensures
        strings_view(r@) == strings_view(v@).skip(from as int),
{
    let mut out: Vec<String> = Vec::new();
    let mut i: usize = from;
    while i < v.len()
        invariant
            from <= i <= v@.len(),
            out@.len() == i - from,
            forall|j: int| 0 <= j < i - from ==> #[trigger] out@[j]@ == v@[j + from]@,
        decreases v@.len() - i,
    {
        out.push(v[i].clone());
        i = i + 1;
    }
    proof {
        assert(strings_view(out@) =~= strings_view(v@).skip(from as int));
    }
    out
}

/// The segments joined back with `/` between them.
pub open spec fn join_segments(segs: Seq<Seq<char>>) -> Seq<char>
    decreases segs.len(),
{
    if segs.len() == 0 {
        Seq::empty()
    } else if segs.len() == 1 {
        segs[0]
    } else {
        segs[0] + seq!['/'] + join_segments(segs.drop_first())
    }
}

/// Joins path segments with `/`: `["a", "b"]` gives `"a/b"`.
pub fn join_shv_path(segs: &Vec<String>) -> (r: String)
    ensures
        r@ == join_segments(strings_view(segs@)),
{
    let mut out = String::new();
    if segs.len() == 0 {
        return out;
    }
    let mut i: usize = 0;
    while i < segs.len()
        invariant
            i <= segs@.len(),
            1 <= segs@.len(),
            i > 0 ==> out@ =~= join_segments(strings_view(segs@.take(i as int))),
            i == 0 ==> out@ =~= Seq::<char>::empty(),
        decreases segs@.len() - i,
    {
        if i > 0 {
            out.append("/");
        }
        out.append(segs[i].as_str());
        proof {
            reveal_strlit("/");
            assert("/"@ =~= seq!['/']);
            lemma_join_snoc(strings_view(segs@.take(i as int)), segs@[i as int]@);
            assert(strings_view(segs@.take(i + 1)) =~= strings_view(segs@.take(i as int)).push(
                segs@[i as int]@,
            ));
            if i == 0 {
                assert(strings_view(segs@.take(0)) =~= Seq::<Seq<char>>::empty());
                assert(strings_view(segs@.take(0)).push(segs@[0]@) =~= seq![segs@[0]@]);
            }
        }
        i = i + 1;
    }
    proof {
        assert(segs@.take(segs@.len() as int) =~= segs@);
    }
    out
}

proof fn lemma_join_snoc(segs: Seq<Seq<char>>, last: Seq<char>)
    ensures
        segs.len() == 0 ==> join_segments(segs.push(last)) =~= last,
        segs.len() > 0 ==> join_segments(segs.push(last)) =~= join_segments(segs) + seq!['/']
            + last,
    decreases segs.len(),
{
    if segs.len() == 0 {
        assert(segs.push(last)[0] =~= last);
        assert(segs.push(last).len() == 1);
    } else {
        lemma_join_snoc(segs.drop_first(), last);
        assert(segs.push(last).drop_first() =~= segs.drop_first().push(last));
        if segs.len() == 1 {
            assert(join_segments(segs) =~= segs[0]);
        }
    }
}

} // verus!
