//! Topics and log texts as sequences of characters.

use vstd::prelude::*;
use vstd::std_specs::iter::IteratorSpec;
use vstd::string::StringExecFns;

verus! {

broadcast use {vstd::string::next_postcondition, vstd::string::axiom_spec_iter};

/// The characters of a string, in order.
pub fn chars_of(s: &str) -> (r: Vec<char>)
    ensures
        r@ == s@,
{
    let n = s.unicode_len();
    let mut it = s.chars();
    let mut out: Vec<char> = Vec::new();
    loop
        invariant
            out@ + it.remaining() == s@,
            n == s@.len(),
        ensures
            out@ == s@,
        decreases n - out.len(),
    {
        match it.next() {
            Some(c) => {
                out.push(c);
                assert(out@ + it.remaining() =~= s@);
            },
            None => {
                assert(out@ + it.remaining() =~= out@);
                break ;
            },
        }
    }
    out
}

/// The segments of a topic: the runs of characters between its slashes. A
/// topic with `n` slashes has `n + 1` segments, some of them perhaps empty.
pub open spec fn split_topic(s: Seq<char>) -> Seq<Seq<char>>
    decreases s.len(),
{
    if s.len() == 0 {
        seq![Seq::<char>::empty()]
    } else {
        let before = split_topic(s.drop_last());
        if s.last() == '/' {
            before.push(Seq::empty())
        } else {
            before.drop_last().push(before.last().push(s.last()))
        }
    }
}

/// Segments put together again, with a slash between neighbours.
pub open spec fn join_segments(segs: Seq<Seq<char>>) -> Seq<char>
    decreases segs.len(),
{
    if segs.len() == 0 {
        Seq::empty()
    } else if segs.len() == 1 {
        segs[0]
    } else {
        join_segments(segs.drop_last()) + seq!['/'] + segs.last()
    }
}

/// Splitting loses nothing and leaves no slash behind: a topic has at least
/// one segment, no segment holds a slash, and the segments joined with
/// slashes are the topic again.
pub proof fn lemma_split_topic_rejoins(s: Seq<char>)
    ensures
        split_topic(s).len() >= 1,
        forall|k: int, i: int|
            0 <= k < split_topic(s).len() && 0 <= i < split_topic(s)[k].len() ==> (
            #[trigger] split_topic(s)[k][i]) != '/',
        join_segments(split_topic(s)) == s,
    decreases s.len(),
{
    if s.len() == 0 {
        assert(join_segments(split_topic(s)) =~= s);
    } else {
        let head = s.drop_last();
        let c = s.last();
        lemma_split_topic_rejoins(head);
        let before = split_topic(head);
        let after = split_topic(s);
        if c == '/' {
            assert(after.drop_last() =~= before);
            assert(join_segments(after) =~= s);
        } else {
            let grown = before.last().push(c);
            assert(after.last() == grown);
            if before.len() == 1 {
                assert(join_segments(after) =~= s);
            } else {
                assert(after.drop_last() =~= before.drop_last());
                assert(join_segments(after) =~= join_segments(before).push(c));
                assert(join_segments(after) =~= s);
            }
            assert forall|k: int, i: int|
                0 <= k < after.len() && 0 <= i < after[k].len() implies (#[trigger] after[k][i])
                != '/' by {
                if k < after.len() - 1 {
                    assert(after[k] == before[k]);
                } else if i < before.last().len() {
                    assert(after[k][i] == before[before.len() - 1][i]);
                }
            }
        }
    }
}

/// Whether `bounds` gives, segment by segment, where the segments of `s`
/// start and end.
pub open spec fn bounds_of(s: Seq<char>, bounds: Seq<(usize, usize)>) -> bool {
    &&& bounds.len() == split_topic(s).len()
    &&& forall|k: int|
        0 <= k < bounds.len() ==> {
            let b = #[trigger] bounds[k];
            b.0 <= b.1 <= s.len() && split_topic(s)[k] == s.subrange(b.0 as int, b.1 as int)
        }
}

/// Where each segment of a topic starts and ends.
pub fn segment_bounds(chars: &Vec<char>) -> (r: Vec<(usize, usize)>)
    ensures
        bounds_of(chars@, r@),
{
    let mut out: Vec<(usize, usize)> = Vec::new();
    let mut start: usize = 0;
    let mut i: usize = 0;
    proof {
        assert(chars@.take(0) =~= Seq::<char>::empty());
        assert(chars@.subrange(0, 0) =~= Seq::<char>::empty());
    }
    while i < chars.len()
        invariant
            start <= i <= chars.len(),
            split_topic(chars@.take(i as int)).len() == out.len() + 1,
            split_topic(chars@.take(i as int)).last() == chars@.subrange(start as int, i as int),
            forall|k: int|
                0 <= k < out.len() ==> {
                    let b = #[trigger] out[k];
                    b.0 <= b.1 <= chars.len() && split_topic(chars@.take(i as int))[k]
                        == chars@.subrange(b.0 as int, b.1 as int)
                },
        decreases chars.len() - i,
    {
        let ghost prev = split_topic(chars@.take(i as int));
        let ghost before = out@;
        proof {
            let next = chars@.take(i + 1);
            assert(next.drop_last() =~= chars@.take(i as int));
            assert(next.last() == chars@[i as int]);
        }
        if chars[i] == '/' {
            out.push((start, i));
            proof {
                assert(chars@.subrange(i + 1, i + 1) =~= Seq::<char>::empty());
                assert(split_topic(chars@.take(i + 1)) == prev.push(Seq::empty()));
                assert forall|k: int| 0 <= k < out.len() implies {
                    let b = #[trigger] out[k];
                    b.0 <= b.1 <= chars.len() && split_topic(chars@.take(i + 1))[k]
                        == chars@.subrange(b.0 as int, b.1 as int)
                } by {
                    assert(split_topic(chars@.take(i + 1))[k] == prev[k]);
                    if k < before.len() {
                        assert(out[k] == before[k]);
                    }
                }
            }
            start = i + 1;
        } else {
            proof {
                assert(prev.last().push(chars@[i as int]) =~= chars@.subrange(
                    start as int,
                    i + 1,
                ));
                assert(split_topic(chars@.take(i + 1)) == prev.drop_last().push(
                    prev.last().push(chars@[i as int]),
                ));
                assert forall|k: int| 0 <= k < out.len() implies {
                    let b = #[trigger] out[k];
                    b.0 <= b.1 <= chars.len() && split_topic(chars@.take(i + 1))[k]
                        == chars@.subrange(b.0 as int, b.1 as int)
                } by {
                    assert(split_topic(chars@.take(i + 1))[k] == prev[k]);
                    assert(out[k] == before[k]);
                }
            }
        }
        i += 1;
    }
    let ghost before = out@;
    out.push((start, i));
    proof {
        assert(chars@.take(i as int) =~= chars@);
        assert forall|k: int| 0 <= k < out.len() implies {
            let b = #[trigger] out@[k];
            b.0 <= b.1 <= chars.len() && split_topic(chars@)[k] == chars@.subrange(
                b.0 as int,
                b.1 as int,
            )
        } by {
            if k < before.len() {
                assert(out[k] == before[k]);
            }
        }
    }
    out
}

/// Whether the characters from `from` up to `to` spell `word`.
pub fn range_is(chars: &Vec<char>, from: usize, to: usize, word: &Vec<char>) -> (r: bool)
    requires
        from <= to <= chars.len(),
    ensures
        r == (chars@.subrange(from as int, to as int) == word@),
{
    if to - from != word.len() {
        return false;
    }
    let mut j: usize = 0;
    while j < word.len()
        invariant
            from <= to <= chars.len(),
            to - from == word.len(),
            j <= word.len(),
            forall|k: int| 0 <= k < j ==> chars[from + k] == #[trigger] word[k],
        decreases word.len() - j,
    {
        if chars[from + j] != word[j] {
            assert(chars@.subrange(from as int, to as int)[j as int] != word@[j as int]);
            return false;
        }
        j += 1;
    }
    assert(chars@.subrange(from as int, to as int) =~= word@);
    true
}

/// Whether the characters from `from` up to `to` begin with `word`.
pub fn range_starts_with(chars: &Vec<char>, from: usize, to: usize, word: &Vec<char>) -> (r:
    bool)
    requires
        from <= to <= chars.len(),
    ensures
        r == word@.is_prefix_of(chars@.subrange(from as int, to as int)),
{
    if to - from < word.len() {
        return false;
    }
    let r = range_is(chars, from, from + word.len(), word);
    proof {
        assert(chars@.subrange(from as int, to as int).subrange(0, word.len() as int)
            =~= chars@.subrange(from as int, from + word.len()));
    }
    r
}

/// Whether `c` is `k`, or the upper-case ASCII letter of which `k` is the
/// lower case.
pub open spec fn folds_to(c: char, k: char) -> bool {
    c == k || (65 <= c as u32 <= 90 && c as u32 + 32 == k as u32)
}

/// Whether `word` stands in `hay` at position `at`, letter case aside.
pub open spec fn occurs_at(hay: Seq<char>, word: Seq<char>, at: int) -> bool {
    &&& 0 <= at
    &&& at + word.len() <= hay.len()
    &&& forall|j: int| 0 <= j < word.len() ==> folds_to(hay[at + j], #[trigger] word[j])
}

/// Whether `word`, given in lower case, stands somewhere in `hay`, letter
/// case aside.
pub open spec fn mentions(hay: Seq<char>, word: Seq<char>) -> bool {
    exists|at: int| #[trigger] occurs_at(hay, word, at)
}

/// Whether `c` is `k`, letter case aside; `k` is given in lower case.
pub fn same_folded(c: char, k: char) -> (r: bool)
    ensures
        r == folds_to(c, k),
{
    let cu: u32 = c as u32;
    let ku: u32 = k as u32;
    c == k || (cu >= 65 && cu <= 90 && cu + 32 == ku)
}

/// Whether `word` stands in `hay` at position `at`, letter case aside.
pub fn occurs_here(hay: &Vec<char>, word: &Vec<char>, at: usize) -> (r: bool)
    requires
        at + word.len() <= hay.len(),
    ensures
        r == occurs_at(hay@, word@, at as int),
{
    let mut j: usize = 0;
    while j < word.len()
        invariant
            at + word.len() <= hay.len(),
            j <= word.len(),
            forall|k: int| 0 <= k < j ==> folds_to(hay[at + k], #[trigger] word[k]),
        decreases word.len() - j,
    {
        if !same_folded(hay[at + j], word[j]) {
            return false;
        }
        j += 1;
    }
    true
}

/// Whether `word` stands somewhere in `hay`, letter case aside.
pub fn mentions_word(hay: &Vec<char>, word: &Vec<char>) -> (r: bool)
    ensures
        r == mentions(hay@, word@),
{
    if word.len() > hay.len() {
        return false;
    }
    let last: usize = hay.len() - word.len();
    let mut at: usize = 0;
    while at <= last
        invariant
            word.len() <= hay.len(),
            last == hay.len() - word.len(),
            at <= last + 1,
            forall|a: int| 0 <= a < at ==> !occurs_at(hay@, word@, a),
        decreases last + 1 - at,
    {
        if occurs_here(hay, word, at) {
            return true;
        }
        at += 1;
    }
    false
}

/// The topic one level below `topic`, under `name`.
pub open spec fn child_topic(topic: Seq<char>, name: Seq<char>) -> Seq<char> {
    topic + seq!['/'] + name
}

/// Joins a topic and a name with a slash.
pub fn join_topic(topic: &str, name: &str) -> (r: String)
    ensures
        r@ == child_topic(topic@, name@),
{
    let mut s = topic.to_owned();
    s.append("/");
    s.append(name);
    proof {
        reveal_strlit("/");
        assert("/"@ =~= seq!['/']);
    }
    s
}

} // verus!
