use vstd::prelude::*;
use vstd::string::*;

verus! {

/// A character that ends a sentence.
pub open spec fn is_terminator(c: char) -> bool {
    c == '.' || c == '!' || c == '?'
}

/// Unicode's White_Space property: the characters that `str::trim` removes.
pub open spec fn is_space(c: char) -> bool {
    let v = c as u32;
    (9 <= v && v <= 13) || v == 32 || v == 0x85 || v == 0xa0 || v == 0x1680 || (0x2000 <= v && v
        <= 0x200a) || v == 0x2028 || v == 0x2029 || v == 0x202f || v == 0x205f || v == 0x3000
}

/// The text with its leading whitespace removed.
pub open spec fn trim_start(s: Seq<char>) -> Seq<char>
    decreases s.len(),
{
    if s.len() > 0 && is_space(s[0]) {
        trim_start(s.drop_first())
    } else {
        s
    }
}

/// The text with its trailing whitespace removed.
pub open spec fn trim_end(s: Seq<char>) -> Seq<char>
    decreases s.len(),
{
    if s.len() > 0 && is_space(s.last()) {
        trim_end(s.drop_last())
    } else {
        s
    }
}

/// The text with whitespace removed from both ends.
pub open spec fn trim(s: Seq<char>) -> Seq<char> {
    trim_end(trim_start(s))
}

/// The pieces of a text between its terminators, left to right: one more piece
/// than there are terminators, some of them possibly empty.
pub open spec fn fragments(s: Seq<char>) -> Seq<Seq<char>>
    decreases s.len(),
{
    if s.len() == 0 {
        seq![Seq::empty()]
    } else {
        let f = fragments(s.drop_last());
        if is_terminator(s.last()) {
            f.push(Seq::empty())
        } else {
            f.update(f.len() - 1, f.last().push(s.last()))
        }
    }
}

/// Each piece that is not blank once trimmed, trimmed and closed by a full stop.
pub open spec fn sentences(frags: Seq<Seq<char>>) -> Seq<Seq<char>>
    decreases frags.len(),
{
    if frags.len() == 0 {
        Seq::empty()
    } else {
        let prev = sentences(frags.drop_last());
        let t = trim(frags.last());
        if t.len() == 0 {
            prev
        } else {
            prev.push(t.push('.'))
        }
    }
}

/// The utterances of a text, in the order in which they occur in it.
pub open spec fn segment(text: Seq<char>) -> Seq<Seq<char>> {
    sentences(fragments(text))
}

/// The shape of every utterance: a text that holds no terminator and neither
/// starts nor ends with whitespace, followed by a single full stop.
pub open spec fn is_utterance(e: Seq<char>) -> bool {
    &&& e.len() >= 2
    &&& e.last() == '.'
    &&& forall|j: int| 0 <= j < e.len() - 1 ==> !is_terminator(#[trigger] e[j])
    &&& !is_space(e[0])
    &&& !is_space(e[e.len() - 2])
}

/// Whether `c` ends a sentence.
pub fn is_terminator_char(c: char) -> (r: bool)
    ensures
        r == is_terminator(c),
{
    c == '.' || c == '!' || c == '?'
}

/// Whether `c` is whitespace, as `char::is_whitespace` has it.
pub fn is_space_char(c: char) -> (r: bool)
    ensures
        r == is_space(c),
{
    let v = c as u32;
    (9 <= v && v <= 13) || v == 32 || v == 0x85 || v == 0xa0 || v == 0x1680 || (0x2000 <= v && v
        <= 0x200a) || v == 0x2028 || v == 0x2029 || v == 0x202f || v == 0x205f || v == 0x3000
}

proof fn lemma_fragments_len(s: Seq<char>)
    ensures
        fragments(s).len() >= 1,
    decreases s.len(),
{
    if s.len() > 0 {
        lemma_fragments_len(s.drop_last());
    }
}

proof fn lemma_fragments_no_terminator(s: Seq<char>)
    ensures
        forall|k: int, j: int|
            0 <= k < fragments(s).len() && 0 <= j < fragments(s)[k].len() ==> !is_terminator(
                #[trigger] fragments(s)[k][j],
            ),
    decreases s.len(),
{
    if s.len() > 0 {
        lemma_fragments_no_terminator(s.drop_last());
        lemma_fragments_len(s.drop_last());
    }
}

proof fn lemma_trim_start_shape(s: Seq<char>)
    requires
        forall|j: int| 0 <= j < s.len() ==> !is_terminator(#[trigger] s[j]),
    ensures
        forall|j: int| 0 <= j < trim_start(s).len() ==> !is_terminator(#[trigger] trim_start(s)[j]),
        trim_start(s).len() > 0 ==> !is_space(trim_start(s)[0]),
    decreases s.len(),
{
    if s.len() > 0 && is_space(s[0]) {
        lemma_trim_start_shape(s.drop_first());
    }
}

proof fn lemma_trim_end_shape(s: Seq<char>)
    requires
        forall|j: int| 0 <= j < s.len() ==> !is_terminator(#[trigger] s[j]),
    ensures
        forall|j: int| 0 <= j < trim_end(s).len() ==> !is_terminator(#[trigger] trim_end(s)[j]),
        trim_end(s).len() > 0 ==> !is_space(trim_end(s).last()),
        trim_end(s).len() > 0 ==> trim_end(s)[0] == s[0],
    decreases s.len(),
{
    if s.len() > 0 && is_space(s.last()) {
        lemma_trim_end_shape(s.drop_last());
    }
}

proof fn lemma_sentences_shape(frags: Seq<Seq<char>>)
    requires
        forall|k: int, j: int|
            0 <= k < frags.len() && 0 <= j < frags[k].len() ==> !is_terminator(
                #[trigger] frags[k][j],
            ),
    ensures
        forall|k: int| 0 <= k < sentences(frags).len() ==> is_utterance(#[trigger] sentences(frags)[k]),
    decreases frags.len(),
{
    if frags.len() > 0 {
        let last = frags.last();
        assert forall|k: int, j: int|
            0 <= k < frags.drop_last().len() && 0 <= j < frags.drop_last()[k].len() implies !is_terminator(
            #[trigger] frags.drop_last()[k][j]) by {
            assert(frags.drop_last()[k] == frags[k]);
        }
        lemma_sentences_shape(frags.drop_last());
        assert forall|j: int| 0 <= j < last.len() implies !is_terminator(#[trigger] last[j]) by {
            assert(frags[frags.len() - 1][j] == last[j]);
        }
        lemma_trim_start_shape(last);
        lemma_trim_end_shape(trim_start(last));
        let t = trim(last);
        if t.len() > 0 {
            let e = t.push('.');
            assert(e[e.len() - 2] == t.last());
            assert forall|j: int| 0 <= j < e.len() - 1 implies !is_terminator(#[trigger] e[j]) by {
                assert(e[j] == t[j]);
            }
            assert(is_utterance(e));
        }
        let prev = sentences(frags.drop_last());
        assert forall|k: int| 0 <= k < sentences(frags).len() implies is_utterance(
            #[trigger] sentences(frags)[k],
        ) by {
            if k < prev.len() {
                assert(sentences(frags)[k] == prev[k]);
            }
        }
    }
}

/// Every utterance of every text is non-blank once trimmed (it neither starts
/// nor ends with whitespace and is not empty), holds no `.`, `!` or `?` of its
/// own, and ends in exactly one full stop.
pub proof fn lemma_segment_utterances(text: Seq<char>)
    ensures
        forall|k: int| 0 <= k < segment(text).len() ==> is_utterance(#[trigger] segment(text)[k]),
{
    lemma_fragments_no_terminator(text);
    lemma_sentences_shape(fragments(text));
}

proof fn lemma_fragments_concat(a: Seq<char>, c: char, b: Seq<char>)
    requires
        is_terminator(c),
    ensures
        fragments(a.push(c) + b) == fragments(a) + fragments(b),
    decreases b.len(),
{
    if b.len() == 0 {
        assert(a.push(c) + b =~= a.push(c));
        assert(a.push(c).drop_last() =~= a);
        assert(fragments(a).push(Seq::empty()) =~= fragments(a) + fragments(b));
    } else {
        let x = a.push(c) + b;
        assert(x.drop_last() =~= a.push(c) + b.drop_last());
        assert(x.last() == b.last());
        lemma_fragments_concat(a, c, b.drop_last());
        lemma_fragments_len(b.drop_last());
        let p = fragments(a);
        let q = fragments(b.drop_last());
        if is_terminator(b.last()) {
            assert((p + q).push(Seq::empty()) =~= p + q.push(Seq::empty()));
        } else {
            assert((p + q).update(p.len() + q.len() - 1, q.last().push(b.last())) =~= p + q.update(
                q.len() - 1,
                q.last().push(b.last()),
            ));
        }
    }
}

proof fn lemma_sentences_concat(p: Seq<Seq<char>>, q: Seq<Seq<char>>)
    ensures
        sentences(p + q) == sentences(p) + sentences(q),
    decreases q.len(),
{
    if q.len() == 0 {
        assert(p + q =~= p);
        assert(sentences(p) + sentences(q) =~= sentences(p));
    } else {
        assert((p + q).drop_last() =~= p + q.drop_last());
        assert((p + q).last() == q.last());
        lemma_sentences_concat(p, q.drop_last());
        let t = trim(q.last());
        if t.len() > 0 {
            assert((sentences(p) + sentences(q.drop_last())).push(t.push('.')) =~= sentences(p)
                + sentences(q.drop_last()).push(t.push('.')));
        }
    }
}

/// Utterances keep the order of the text: the utterances of a text that is `a`,
/// a terminator, then `b`, are those of `a` followed by those of `b`.
pub proof fn lemma_segment_concat(a: Seq<char>, c: char, b: Seq<char>)
    requires
        is_terminator(c),
    ensures
        segment(a.push(c) + b) == segment(a) + segment(b),
{
    lemma_fragments_concat(a, c, b);
    lemma_sentences_concat(fragments(a), fragments(b));
}

/// Appends the trimmed piece `text[lo..hi]`, closed by a full stop, unless it is blank.
fn push_trimmed(text: &str, lo: usize, hi: usize, out: &mut Vec<String>)
    requires
        lo <= hi <= text@.len(),
    ensures
        ({
            let t = trim(text@.subrange(lo as int, hi as int));
            final(out).deep_view() == if t.len() == 0 {
                old(out).deep_view()
            } else {
                old(out).deep_view().push(t.push('.'))
            }
        }),
{
    let ghost before = out.deep_view();
    let mut a: usize = lo;
    while a < hi && is_space_char(text.get_char(a))
        invariant
            lo <= a <= hi,
            hi <= text@.len(),
            trim_start(text@.subrange(lo as int, hi as int)) == trim_start(
                text@.subrange(a as int, hi as int),
            ),
        decreases hi - a,
    {
        assert(text@.subrange(a as int, hi as int).drop_first() =~= text@.subrange(
            a + 1,
            hi as int,
        ));
        a = a + 1;
    }
    let mut b: usize = hi;
    while b > a && is_space_char(text.get_char(b - 1))
        invariant
            lo <= a <= b <= hi,
            hi <= text@.len(),
            trim_start(text@.subrange(lo as int, hi as int)) == text@.subrange(a as int, hi as int),
            trim_end(text@.subrange(a as int, hi as int)) == trim_end(
                text@.subrange(a as int, b as int),
            ),
        decreases b - a,
    {
        assert(text@.subrange(a as int, b as int).drop_last() =~= text@.subrange(
            a as int,
            b - 1,
        ));
        b = b - 1;
    }
    assert(trim(text@.subrange(lo as int, hi as int)) == text@.subrange(a as int, b as int));
    if a < b {
        let piece = text.substring_char(a, b);
        let mut sentence = String::from_str(piece);
        proof {
            reveal_strlit(".");
        }
        sentence.append(".");
        assert(sentence@ =~= text@.subrange(a as int, b as int).push('.'));
        out.push(sentence);
        assert(out.deep_view() =~= before.push(sentence@));
    }
}

/// Splits a text into utterances: the pieces between `.`, `!` and `?`, each
/// trimmed and closed by a full stop, blank pieces left out.
pub fn split_sentences(text: &str) -> (r: Vec<String>)
    ensures
        r.deep_view() == segment(text@),
{
    let n = text.unicode_len();
    let mut out: Vec<String> = Vec::new();
    let mut start: usize = 0;
    let mut i: usize = 0;
    proof {
        assert(out.deep_view() =~= Seq::<Seq<char>>::empty());
        assert(text@.subrange(0, 0) =~= Seq::<char>::empty());
    }
    while i < n
        invariant
            n == text@.len(),
            start <= i <= n,
            fragments(text@.subrange(0, i as int)).len() >= 1,
            fragments(text@.subrange(0, i as int)).last() == text@.subrange(
                start as int,
                i as int,
            ),
            sentences(fragments(text@.subrange(0, i as int)).drop_last()) == out.deep_view(),
        decreases n - i,
    {
        let c = text.get_char(i);
        let ghost prefix = text@.subrange(0, i as int);
        let ghost next = text@.subrange(0, i + 1);
        let ghost f = fragments(prefix);
        proof {
            assert(next.drop_last() =~= prefix);
            assert(next.last() == c);
        }
        if is_terminator_char(c) {
            proof {
                assert(fragments(next).drop_last() =~= f);
                assert(f =~= f.drop_last().push(f.last()));
            }
            push_trimmed(text, start, i, &mut out);
            start = i + 1;
            proof {
                assert(fragments(next).last() =~= text@.subrange(start as int, i + 1));
            }
        } else {
            proof {
                assert(fragments(next).drop_last() =~= f.drop_last());
                assert(fragments(next).last() =~= text@.subrange(start as int, i + 1));
            }
        }
        i = i + 1;
    }
    let ghost f = fragments(text@.subrange(0, n as int));
    proof {
        assert(text@.subrange(0, n as int) =~= text@);
        assert(f =~= f.drop_last().push(f.last()));
    }
    push_trimmed(text, start, n, &mut out);
    out
}

} // verus!
