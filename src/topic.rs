//! Topic paths: parsing a `/`-delimited topic string into segments and the
//! prefix relation that routes messages to queues.
use vstd::prelude::*;

verus! {

/// The segments of `s`, left to right: its maximal runs of characters other
/// than `/`, that is the pieces between slashes with the empty ones dropped.
///
/// Stated one character at a time: a `/` adds nothing, a character after a
/// `/` (or at the start) opens a segment, any other character extends the
/// last one.
pub open spec fn topic_segments(s: Seq<char>) -> Seq<Seq<char>>
    decreases s.len(),
{
    if s.len() == 0 {
        seq![]
    } else {
        let prev = topic_segments(s.drop_last());
        if s.last() == '/' {
            prev
        } else if s.len() == 1 || s[s.len() - 2] == '/' {
            prev.push(seq![s.last()])
        } else {
            prev.update(prev.len() - 1, prev.last().push(s.last()))
        }
    }
}

/// `filter` is a prefix of `candidate`, segment by segment.
pub open spec fn topic_matches_spec(filter: Seq<Seq<char>>, candidate: Seq<Seq<char>>) -> bool {
    &&& filter.len() <= candidate.len()
    &&& forall|i: int| 0 <= i < filter.len() ==> #[trigger] filter[i] == candidate[i]
}

/// The character views of a list of strings.
pub open spec fn views_of(v: Seq<String>) -> Seq<Seq<char>> {
    v.map_values(|s: String| s@)
}

/// Splits `topic` on `/` and drops the empty pieces: `/a//b/` gives `a`, `b`.
pub fn parse_topic(topic: &str) -> (r: Vec<String>)
    ensures
        views_of(r@) == topic_segments(topic@),
{
    let n = topic.unicode_len();
    let mut segs: Vec<String> = Vec::new();
    let mut start: usize = 0;
    let mut i: usize = 0;
    while i < n
        invariant
            n == topic@.len(),
            start <= i <= n,
            start == 0 || topic@[start - 1] == '/',
            forall|j: int| start <= j < i ==> topic@[j] != '/',
            start == i ==> views_of(segs@) == topic_segments(topic@.subrange(0, i as int)),
            start < i ==> views_of(segs@).push(topic@.subrange(start as int, i as int))
                == topic_segments(topic@.subrange(0, i as int)),
        decreases n - i,
    {
        let c = topic.get_char(i);
        let ghost pre = topic@.subrange(0, i as int);
        let ghost cur = topic@.subrange(0, i as int + 1);
        assert(cur.drop_last() =~= pre);
        assert(cur.last() == c);
        if c == '/' {
            if start < i {
                let piece = topic.substring_char(start, i).to_owned();
                let ghost old_segs = segs@;
                segs.push(piece);
                assert(views_of(segs@) =~= views_of(old_segs).push(piece@));
            }
            start = i + 1;
        } else if start == i {
            assert(i > 0 ==> cur[cur.len() - 2] == topic@[i - 1]);
            assert(topic@.subrange(i as int, i as int + 1) =~= seq![c]);
        } else {
            assert(topic@[i - 1] != '/');
            assert(cur[cur.len() - 2] == topic@[i - 1]);
            assert(topic@.subrange(start as int, i as int).push(c) =~= topic@.subrange(
                start as int,
                i as int + 1,
            ));
            let ghost p = views_of(segs@).push(topic@.subrange(start as int, i as int));
            assert(p.update(p.len() - 1, p.last().push(c)) =~= views_of(segs@).push(
                topic@.subrange(start as int, i as int + 1),
            ));
        }
        i = i + 1;
    }
    assert(topic@.subrange(0, n as int) =~= topic@);
    if start < n {
        let piece = topic.substring_char(start, n).to_owned();
        let ghost old_segs = segs@;
        segs.push(piece);
        assert(views_of(segs@) =~= views_of(old_segs).push(piece@));
    }
    segs
}

/// Whether a queue with filter `filter` takes a message whose topic parsed to
/// `candidate`: `filter` must be a prefix of `candidate`.
pub fn topic_matches(filter: &[String], candidate: &[String]) -> (r: bool)
    ensures
        r == topic_matches_spec(views_of(filter@), views_of(candidate@)),
{
    if filter.len() > candidate.len() {
        return false;
    }
    let mut i: usize = 0;
    while i < filter.len()
        invariant
            filter.len() <= candidate.len(),
            i <= filter.len(),
            forall|j: int| 0 <= j < i ==> #[trigger] filter@[j]@ == candidate@[j]@,
        decreases filter.len() - i,
    {
        if filter[i] != candidate[i] {
            assert(views_of(filter@)[i as int] != views_of(candidate@)[i as int]);
            return false;
        }
        i = i + 1;
    }
    assert(forall|j: int|
        0 <= j < filter.len() ==> #[trigger] views_of(filter@)[j] == views_of(candidate@)[j]);
    true
}

/// Every segment of a parsed topic is non-empty and holds no `/`.
pub proof fn lemma_segments_well_formed(s: Seq<char>)
    ensures
        forall|i: int|
            0 <= i < topic_segments(s).len() ==> #[trigger] topic_segments(s)[i].len() > 0,
        forall|i: int, j: int|
            0 <= i < topic_segments(s).len() && 0 <= j < topic_segments(s)[i].len()
                ==> #[trigger] topic_segments(s)[i][j] != '/',
    decreases s.len(),
{
    if s.len() > 0 {
        lemma_segments_well_formed(s.drop_last());
        let prev = topic_segments(s.drop_last());
        if s.last() != '/' && !(s.len() == 1 || s[s.len() - 2] == '/') {
            lemma_segments_nonempty_when_open(s.drop_last());
            assert(prev.len() > 0);
            let segs = topic_segments(s);
            assert forall|i: int, j: int|
                0 <= i < segs.len() && 0 <= j < segs[i].len() implies #[trigger] segs[i][j] != '/' by {
                if i == prev.len() - 1 && j == prev.last().len() {
                } else if i == prev.len() - 1 {
                    assert(segs[i][j] == prev[i][j]);
                }
            }
        }
    }
}

/// Slashes only separate: one at the start, one right after another, or one
/// at the end changes no segment.
pub proof fn lemma_extra_slashes(a: Seq<char>, b: Seq<char>)
    requires
        a.len() == 0 || a.last() == '/',
    ensures
        topic_segments(a.push('/') + b) == topic_segments(a + b),
        topic_segments((a + b).push('/')) == topic_segments(a + b),
    decreases b.len(),
{
    let x = a.push('/') + b;
    let y = a + b;
    assert(((a + b).push('/')).drop_last() =~= a + b);
    if b.len() == 0 {
        assert(x =~= a.push('/'));
        assert(y =~= a);
        assert(x.drop_last() =~= a);
    } else {
        lemma_extra_slashes(a, b.drop_last());
        assert(x.drop_last() =~= a.push('/') + b.drop_last());
        assert(y.drop_last() =~= a + b.drop_last());
        assert(x.last() == y.last());
        if b.len() == 1 {
            assert(x[x.len() - 2] == '/');
            assert(y.len() == 1 || y[y.len() - 2] == a.last());
        } else {
            assert(x[x.len() - 2] == b[b.len() - 2]);
            assert(y[y.len() - 2] == b[b.len() - 2]);
        }
    }
}

/// A topic that ends in a character other than `/` has a segment.
proof fn lemma_segments_nonempty_when_open(s: Seq<char>)
    requires
        s.len() > 0,
        s.last() != '/',
    ensures
        topic_segments(s).len() > 0,
    decreases s.len(),
{
    if s.len() > 1 && s[s.len() - 2] != '/' {
        assert(s.drop_last().last() == s[s.len() - 2]);
        lemma_segments_nonempty_when_open(s.drop_last());
    }
}

/// A filter matches a topic exactly when the topic's segments begin with the
/// filter's segments, in order. So the empty filter matches every topic, and
/// every filter matches its own topic.
pub proof fn lemma_prefix_law(filter: Seq<Seq<char>>, candidate: Seq<Seq<char>>)
    ensures
        topic_matches_spec(filter, candidate) <==> (filter.len() <= candidate.len()
            && candidate.subrange(0, filter.len() as int) == filter),
        topic_matches_spec(seq![], candidate),
        topic_matches_spec(filter, filter),
{
    if filter.len() <= candidate.len() {
        if topic_matches_spec(filter, candidate) {
            assert(candidate.subrange(0, filter.len() as int) =~= filter);
        }
        if candidate.subrange(0, filter.len() as int) == filter {
            assert forall|i: int| 0 <= i < filter.len() implies #[trigger] filter[i]
                == candidate[i] by {
                assert(candidate.subrange(0, filter.len() as int)[i] == candidate[i]);
            }
        }
    }
}

} // verus!
