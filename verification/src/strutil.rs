//! Splitting a string at a separator character and joining the pieces back,
//! with proofs that the two operations undo one another.

use vstd::prelude::*;
use vstd::string::StrSliceExecFns;
use vstd::string::StringExecFns;

verus! {

/// The segments of `s` delimited by `sep`: the empty string yields one empty
/// segment, and every occurrence of `sep` ends the current segment and
/// starts a new one.
pub open spec fn split_seq(s: Seq<char>, sep: char) -> Seq<Seq<char>>
    decreases s.len(),
{
    if s.len() == 0 {
        seq![Seq::<char>::empty()]
    } else if s[0] == sep {
        seq![Seq::<char>::empty()] + split_seq(s.skip(1), sep)
    } else {
        let rest = split_seq(s.skip(1), sep);
        seq![seq![s[0]] + rest[0]] + rest.skip(1)
    }
}

/// The segments joined with a single `sep` between consecutive segments.
pub open spec fn join_seq(segs: Seq<Seq<char>>, sep: char) -> Seq<char>
    decreases segs.len(),
{
    if segs.len() == 0 {
        Seq::<char>::empty()
    } else if segs.len() == 1 {
        segs[0]
    } else {
        segs[0] + seq![sep] + join_seq(segs.skip(1), sep)
    }
}

/// Splitting always yields at least one segment.
pub proof fn lemma_split_nonempty(s: Seq<char>, sep: char)
    ensures
        split_seq(s, sep).len() >= 1,
    decreases s.len(),
{
    if s.len() == 0 {
    } else if s[0] == sep {
    } else {
        lemma_split_nonempty(s.skip(1), sep);
    }
}

/// Joining with a separator undoes splitting at that separator.
pub proof fn lemma_join_split(s: Seq<char>, sep: char)
    ensures
        join_seq(split_seq(s, sep), sep) == s,
    decreases s.len(),
{
    if s.len() == 0 {
        assert(join_seq(split_seq(s, sep), sep) =~= s);
    } else if s[0] == sep {
        lemma_join_split(s.skip(1), sep);
        lemma_split_nonempty(s.skip(1), sep);
        assert(split_seq(s, sep).skip(1) =~= split_seq(s.skip(1), sep));
        assert(split_seq(s, sep)[0] =~= Seq::<char>::empty());
        assert(join_seq(split_seq(s, sep), sep) =~= s);
    } else {
        lemma_join_split(s.skip(1), sep);
        lemma_split_nonempty(s.skip(1), sep);
        let rest = split_seq(s.skip(1), sep);
        let whole = split_seq(s, sep);
        if rest.len() == 1 {
            assert(whole.len() == 1);
            assert(join_seq(whole, sep) =~= seq![s[0]] + rest[0]);
            assert(rest[0] == join_seq(rest, sep));
            assert(join_seq(whole, sep) =~= s);
        } else {
            assert(whole.len() >= 2);
            assert(whole.skip(1) =~= rest.skip(1));
            assert(join_seq(whole, sep) =~= whole[0] + seq![sep] + join_seq(rest.skip(1), sep));
            assert(join_seq(rest, sep) == rest[0] + seq![sep] + join_seq(rest.skip(1), sep));
            assert(join_seq(whole, sep) =~= seq![s[0]] + join_seq(rest, sep));
            assert(join_seq(whole, sep) =~= s);
        }
    }
}

/// A string in which the separator does not occur is a single segment.
pub proof fn lemma_split_no_sep(s: Seq<char>, sep: char)
    requires
        forall|j: int| 0 <= j < s.len() ==> s[j] != sep,
    ensures
        split_seq(s, sep) == seq![s],
    decreases s.len(),
{
    if s.len() == 0 {
        assert(split_seq(s, sep) =~~= seq![s]);
    } else {
        lemma_split_no_sep(s.skip(1), sep);
        assert(split_seq(s, sep) =~~= seq![s]);
    }
}

/// When the first occurrence of the separator stands at position `k`, the
/// first segment is everything before it and the remaining segments split
/// what follows it.
pub proof fn lemma_split_first_sep(s: Seq<char>, sep: char, k: int)
    requires
        0 <= k < s.len(),
        s[k] == sep,
        forall|j: int| 0 <= j < k ==> s[j] != sep,
    ensures
        split_seq(s, sep) == seq![s.take(k)] + split_seq(s.skip(k + 1), sep),
    decreases k,
{
    if k == 0 {
        assert(split_seq(s, sep) =~~= seq![s.take(0)] + split_seq(s.skip(1), sep));
    } else {
        let s1 = s.skip(1);
        assert(s1[k - 1] == sep);
        assert(forall|j: int| 0 <= j < k - 1 ==> s1[j] != sep);
        lemma_split_first_sep(s1, sep, k - 1);
        lemma_split_nonempty(s1.skip(k), sep);
        assert(s1.skip(k) =~= s.skip(k + 1));
        let rest = split_seq(s1, sep);
        assert(rest[0] == s1.take(k - 1));
        assert(rest.skip(1) =~= split_seq(s.skip(k + 1), sep));
        assert(seq![s[0]] + s1.take(k - 1) =~= s.take(k));
        assert(split_seq(s, sep) =~~= seq![s.take(k)] + split_seq(s.skip(k + 1), sep));
    }
}

/// Joining after appending one more segment appends a separator and that
/// segment.
pub proof fn lemma_join_push(segs: Seq<Seq<char>>, sep: char, x: Seq<char>)
    requires
        segs.len() >= 1,
    ensures
        join_seq(segs.push(x), sep) == join_seq(segs, sep) + seq![sep] + x,
    decreases segs.len(),
{
    if segs.len() == 1 {
        assert(segs.push(x).skip(1) =~= seq![x]);
        assert(segs.push(x)[0] == segs[0]);
        assert(join_seq(seq![x], sep) == x);
        assert(join_seq(segs.push(x), sep) == segs[0] + seq![sep] + join_seq(seq![x], sep));
        assert(join_seq(segs, sep) == segs[0]);
    } else {
        lemma_join_push(segs.skip(1), sep, x);
        assert(segs.push(x).skip(1) =~= segs.skip(1).push(x));
        assert(join_seq(segs.push(x), sep) =~= join_seq(segs, sep) + seq![sep] + x);
    }
}

/// `s` with every occurrence of `a` replaced by `b`.
pub open spec fn replace_char(s: Seq<char>, a: char, b: char) -> Seq<char> {
    s.map_values(|c: char| if c == a { b } else { c })
}

/// No segment of a split holds the separator it was split at.
pub proof fn lemma_split_segments_no_sep(s: Seq<char>, sep: char)
    ensures
        forall|i: int|
            0 <= i < split_seq(s, sep).len() ==> !(#[trigger] split_seq(s, sep)[i]).contains(sep),
    decreases s.len(),
{
    if s.len() == 0 {
        assert(forall|j: int| 0 <= j < split_seq(s, sep)[0].len() ==> split_seq(s, sep)[0][j] != sep);
    } else if s[0] == sep {
        lemma_split_segments_no_sep(s.skip(1), sep);
        assert forall|i: int| 0 <= i < split_seq(s, sep).len() implies !(#[trigger] split_seq(
            s,
            sep,
        )[i]).contains(sep) by {
            if i > 0 {
                assert(split_seq(s, sep)[i] == split_seq(s.skip(1), sep)[i - 1]);
            }
        }
    } else {
        lemma_split_segments_no_sep(s.skip(1), sep);
        lemma_split_nonempty(s.skip(1), sep);
        let rest = split_seq(s.skip(1), sep);
        assert forall|i: int| 0 <= i < split_seq(s, sep).len() implies !(#[trigger] split_seq(
            s,
            sep,
        )[i]).contains(sep) by {
            if i == 0 {
                assert(!rest[0].contains(sep));
                let head = seq![s[0]] + rest[0];
                assert(split_seq(s, sep)[0] == head);
                assert forall|j: int| 0 <= j < head.len() implies head[j] != sep by {
                    if j > 0 {
                        assert(head[j] == rest[0][j - 1]);
                    }
                }
            } else {
                assert(split_seq(s, sep)[i] == rest[i]);
            }
        }
    }
}

/// Joining segments that do not hold `a` with the separator `b` is the same
/// as joining them with `a` and then replacing every `a` by `b`.
pub proof fn lemma_join_as_replace(segs: Seq<Seq<char>>, a: char, b: char)
    requires
        forall|i: int| 0 <= i < segs.len() ==> !(#[trigger] segs[i]).contains(a),
    ensures
        join_seq(segs, b) == replace_char(join_seq(segs, a), a, b),
    decreases segs.len(),
{
    if segs.len() == 0 {
        assert(join_seq(segs, b) =~= replace_char(join_seq(segs, a), a, b));
    } else if segs.len() == 1 {
        assert(!segs[0].contains(a));
        assert(join_seq(segs, b) =~= replace_char(join_seq(segs, a), a, b));
    } else {
        assert(forall|i: int|
            0 <= i < segs.skip(1).len() ==> !(#[trigger] segs.skip(1)[i]).contains(a));
        lemma_join_as_replace(segs.skip(1), a, b);
        assert(!segs[0].contains(a));
        let tail_a = join_seq(segs.skip(1), a);
        let tail_b = join_seq(segs.skip(1), b);
        assert(tail_b.len() == replace_char(tail_a, a, b).len());
        assert(join_seq(segs, b) =~= replace_char(join_seq(segs, a), a, b));
    }
}

/// A join is at least as long as any one of its segments.
pub proof fn lemma_join_holds_segment(segs: Seq<Seq<char>>, sep: char, i: int)
    requires
        0 <= i < segs.len(),
    ensures
        join_seq(segs, sep).len() >= segs[i].len(),
    decreases segs.len(),
{
    if segs.len() > 1 && i > 0 {
        lemma_join_holds_segment(segs.skip(1), sep, i - 1);
        assert(segs.skip(1)[i - 1] == segs[i]);
    }
}

/// Splits `s` at every occurrence of `sep`.
pub fn split_str(s: &str, sep: char) -> (r: Vec<String>)
    ensures
        r.deep_view() == split_seq(s@, sep),
{
    let n: usize = s.unicode_len();
    let mut r: Vec<String> = Vec::new();
    let mut start: usize = 0;
    let mut i: usize = 0;
    proof {
        assert(r.deep_view() =~~= Seq::<Seq<char>>::empty());
        assert(s@.skip(0) =~= s@);
        assert(r.deep_view() + split_seq(s@, sep) =~~= split_seq(s@, sep));
    }
    while i < n
        invariant
            start <= i <= n,
            n == s@.len(),
            forall|j: int| start <= j < i ==> s@[j] != sep,
            split_seq(s@, sep) == r.deep_view() + split_seq(s@.skip(start as int), sep),
        decreases n - i,
    {
        let c = s.get_char(i);
        if c == sep {
            let seg = String::from_str(s.substring_char(start, i));
            proof {
                let tail = s@.skip(start as int);
                assert(forall|j: int| 0 <= j < i - start ==> tail[j] != sep);
                lemma_split_first_sep(tail, sep, i - start);
                assert(tail.take(i - start) =~= seg@);
                assert(tail.skip(i - start + 1) =~= s@.skip(i + 1));
            }
            let ghost old_r = r;
            r.push(seg);
            proof {
                assert(r.deep_view() =~~= old_r.deep_view() + seq![seg@]);
                assert(r.deep_view() + split_seq(s@.skip(i + 1), sep) =~~= split_seq(
                    s@,
                    sep,
                ));
            }
            start = i + 1;
        }
        i = i + 1;
    }
    let seg = String::from_str(s.substring_char(start, n));
    proof {
        let tail = s@.skip(start as int);
        lemma_split_no_sep(tail, sep);
        assert(tail =~= seg@);
    }
    let ghost old_r = r;
    r.push(seg);
    proof {
        assert(r.deep_view() =~~= old_r.deep_view() + seq![seg@]);
        assert(r.deep_view() =~~= split_seq(s@, sep));
    }
    r
}

/// Joins the segments with the one-character separator `sep_str` between
/// consecutive segments.
pub fn join_str(segs: &Vec<String>, sep_str: &str) -> (r: String)
    requires
        sep_str@.len() == 1,
    ensures
        r@ == join_seq(segs.deep_view(), sep_str@[0]),
{
    let ghost sep = sep_str@[0];
    let mut r = String::new();
    let mut i: usize = 0;
    while i < segs.len()
        invariant
            i <= segs.len(),
            sep_str@.len() == 1,
            sep == sep_str@[0],
            i == 0 ==> r@ == Seq::<char>::empty(),
            i > 0 ==> r@ == join_seq(segs.deep_view().take(i as int), sep),
        decreases segs.len() - i,
    {
        if i == 0 {
            r = String::from_str(segs[0].as_str());
            proof {
                assert(segs.deep_view().take(1) =~= seq![segs.deep_view()[0]]);
            }
        } else {
            r.append(sep_str);
            r.append(segs[i].as_str());
            proof {
                let pre = segs.deep_view().take(i as int);
                lemma_join_push(pre, sep, segs.deep_view()[i as int]);
                assert(pre.push(segs.deep_view()[i as int]) =~= segs.deep_view().take(
                    i as int + 1,
                ));
                assert(sep_str@ =~= seq![sep]);
            }
        }
        i = i + 1;
    }
    proof {
        if segs.len() > 0 {
            assert(segs.deep_view().take(segs.len() as int) =~= segs.deep_view());
        }
    }
    r
}

} // verus!
