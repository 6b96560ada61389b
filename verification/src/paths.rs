//! Path handling: slash-separated command paths and per-segment growth.

use vstd::prelude::*;
use vstd::string::StrSliceExecFns;

use crate::inode::path_to_vec;

verus! {

/// A path split on `'/'`, as `str::split` yields it: the empty string
/// splits to one empty segment, a leading or trailing slash contributes an
/// empty segment.
pub open spec fn spec_split_slash(s: Seq<char>) -> Seq<Seq<char>>
    decreases s.len(),
{
    if s.len() == 0 {
        seq![Seq::<char>::empty()]
    } else if s[0] == '/' {
        seq![Seq::<char>::empty()] + spec_split_slash(s.drop_first())
    } else {
        let rest = spec_split_slash(s.drop_first());
        seq![seq![s[0]] + rest[0]] + rest.drop_first()
    }
}

/// A split has at least one segment.
proof fn lemma_split_nonempty(s: Seq<char>)
    ensures
        spec_split_slash(s).len() >= 1,
    decreases s.len(),
{
    if s.len() != 0 {
        lemma_split_nonempty(s.drop_first());
    }
}

/// A string without a slash is one single segment.
proof fn lemma_split_no_slash(s: Seq<char>)
    requires
        forall|k: int| 0 <= k < s.len() ==> s[k] != '/',
    ensures
        spec_split_slash(s) == seq![s],
    decreases s.len(),
{
    if s.len() == 0 {
        assert(s =~= Seq::<char>::empty());
        assert(spec_split_slash(s) =~= seq![s]);
    } else {
        assert forall|k: int| 0 <= k < s.drop_first().len() implies s.drop_first()[k] != '/' by {
            assert(s.drop_first()[k] == s[k + 1]);
        }
        lemma_split_no_slash(s.drop_first());
        assert(seq![s[0]] + s.drop_first() =~= s);
        assert(spec_split_slash(s) =~= seq![s]);
    }
}

/// Splitting at the first slash: the head segment is everything before it,
/// the rest is the split of everything after it.
proof fn lemma_split_at_first(s: Seq<char>, i: int)
    requires
        0 <= i < s.len(),
        s[i] == '/',
        forall|k: int| 0 <= k < i ==> s[k] != '/',
    ensures
        spec_split_slash(s) == seq![s.subrange(0, i)] + spec_split_slash(
            s.subrange(i + 1, s.len() as int),
        ),
    decreases s.len(),
{
    if i == 0 {
        assert(s.drop_first() =~= s.subrange(1, s.len() as int));
        assert(s.subrange(0, 0) =~= Seq::<char>::empty());
        assert(spec_split_slash(s) =~= seq![s.subrange(0, 0)] + spec_split_slash(
            s.subrange(1, s.len() as int),
        ));
    } else {
        let t = s.drop_first();
        assert forall|k: int| 0 <= k < i - 1 implies t[k] != '/' by {
            assert(t[k] == s[k + 1]);
        }
        assert(t[i - 1] == s[i]);
        lemma_split_at_first(t, i - 1);
        lemma_split_nonempty(t.subrange(i, t.len() as int));
        assert(t.subrange(0, i - 1) =~= s.subrange(1, i));
        assert(t.subrange(i, t.len() as int) =~= s.subrange(i + 1, s.len() as int));
        let rest = spec_split_slash(t);
        assert(rest == seq![s.subrange(1, i)] + spec_split_slash(s.subrange(i + 1, s.len() as int)));
        assert(rest[0] == s.subrange(1, i));
        assert(seq![s[0]] + rest[0] =~= s.subrange(0, i));
        assert(rest.drop_first() =~= spec_split_slash(s.subrange(i + 1, s.len() as int)));
        assert(spec_split_slash(s) =~= seq![s.subrange(0, i)] + spec_split_slash(
            s.subrange(i + 1, s.len() as int),
        ));
    }
}

/// Splits a command path on `'/'` into tree path segments.
pub fn into_segments(path: String) -> (r: Vec<String>)
    ensures
        r.deep_view() == spec_split_slash(path@),
{
    let s = path.as_str();
    let n = s.unicode_len();
    let mut segs: Vec<String> = Vec::new();
    let mut start: usize = 0;
    let mut i: usize = 0;
    proof {
        assert(s@.subrange(0, n as int) =~= s@);
        assert(segs.deep_view() =~= Seq::<Seq<char>>::empty());
        assert(segs.deep_view() + spec_split_slash(s@.subrange(0, n as int)) =~= spec_split_slash(
            s@,
        ));
    }
    while i < n
        invariant
            n == s@.len(),
            start <= i <= n,
            forall|k: int| start <= k < i ==> s@[k] != '/',
            spec_split_slash(s@) == segs.deep_view() + spec_split_slash(
                s@.subrange(start as int, n as int),
            ),
        decreases n - i,
    {
        if s.get_char(i) == '/' {
            let seg = s.substring_char(start, i).to_owned();
            let ghost prev = segs.deep_view();
            proof {
                let t = s@.subrange(start as int, n as int);
                assert forall|k: int| 0 <= k < i - start implies t[k] != '/' by {
                    assert(t[k] == s@[start + k]);
                }
                assert(t[i - start] == s@[i as int]);
                lemma_split_at_first(t, i - start);
                assert(t.subrange(0, i - start) =~= s@.subrange(start as int, i as int));
                assert(t.subrange(i - start + 1, t.len() as int) =~= s@.subrange(
                    i + 1,
                    n as int,
                ));
            }
            segs.push(seg);
            proof {
                assert(segs.deep_view() =~= prev.push(s@.subrange(start as int, i as int)));
                assert(segs.deep_view() + spec_split_slash(s@.subrange(i + 1, n as int))
                    =~= spec_split_slash(s@));
            }
            start = i + 1;
        }
        i += 1;
    }
    let last = s.substring_char(start, n).to_owned();
    let ghost prev = segs.deep_view();
    proof {
        let t = s@.subrange(start as int, n as int);
        assert forall|k: int| 0 <= k < t.len() implies t[k] != '/' by {
            assert(t[k] == s@[start + k]);
        }
        lemma_split_no_slash(t);
    }
    segs.push(last);
    proof {
        assert(segs.deep_view() =~= prev.push(s@.subrange(start as int, n as int)));
        assert(segs.deep_view() =~= spec_split_slash(s@));
    }
    segs
}

/// A path one segment longer: the child `name` under `path_segments`.
pub fn push_segment(path_segments: &Vec<String>, name: &str) -> (r: Vec<String>)
    ensures
        r.deep_view() == path_segments.deep_view().push(name@),
{
    let mut r = path_to_vec(path_segments.as_slice());
    r.push(name.to_owned());
    proof {
        assert(r.deep_view() =~= path_segments.deep_view().push(name@));
    }
    r
}

} // verus!
