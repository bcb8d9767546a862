//! Characters of a line: whitespace, the words it splits into, and joining.

use vstd::prelude::*;

verus! {

/// The characters that Unicode gives the White_Space property.
pub open spec fn is_space(c: char) -> bool {
    let u = c as u32;
    (0x09 <= u && u <= 0x0d) || u == 0x20 || u == 0x85 || u == 0xa0 || u == 0x1680 || (0x2000
        <= u && u <= 0x200a) || u == 0x2028 || u == 0x2029 || u == 0x202f || u == 0x205f || u
        == 0x3000
}

pub fn char_is_space(c: char) -> (r: bool)
    ensures
        r == is_space(c),
{
    let u = c as u32;
    (0x09 <= u && u <= 0x0d) || u == 0x20 || u == 0x85 || u == 0xa0 || u == 0x1680 || (0x2000
        <= u && u <= 0x200a) || u == 0x2028 || u == 0x2029 || u == 0x202f || u == 0x205f || u
        == 0x3000
}

/// The maximal runs of non-space characters of `s`, in order.
pub open spec fn words(s: Seq<char>) -> Seq<Seq<char>>
    decreases s.len(),
{
    if s.len() == 0 {
        Seq::empty()
    } else {
        let before = words(s.drop_last());
        let c = s.last();
        if is_space(c) {
            before
        } else if s.len() >= 2 && !is_space(s[s.len() - 2]) {
            before.drop_last().push(before.last().push(c))
        } else {
            before.push(seq![c])
        }
    }
}

/// The words joined with one space between each two.
pub open spec fn join_words(ws: Seq<Seq<char>>) -> Seq<char>
    decreases ws.len(),
{
    if ws.len() == 0 {
        Seq::empty()
    } else if ws.len() == 1 {
        ws[0]
    } else {
        join_words(ws.drop_last()) + seq![' '] + ws.last()
    }
}

/// The pieces of `s` that the spans mark out.
pub open spec fn span_texts(s: Seq<char>, spans: Seq<(usize, usize)>) -> Seq<Seq<char>> {
    spans.map_values(|p: (usize, usize)| s.subrange(p.0 as int, p.1 as int))
}

pub open spec fn spans_within(spans: Seq<(usize, usize)>, n: int) -> bool {
    forall|k: int| 0 <= k < spans.len() ==> #[trigger] spans[k].0 <= spans[k].1 && spans[k].1 <= n
}

/// Where each word of `s` starts and ends.
pub fn word_spans(s: &Vec<char>) -> (r: Vec<(usize, usize)>)
    ensures
        spans_within(r@, s@.len() as int),
        span_texts(s@, r@) == words(s@),
{
    let n: usize = s.len();
    let mut spans: Vec<(usize, usize)> = Vec::new();
    let mut start: usize = 0;
    let mut in_word: bool = false;
    let mut i: usize = 0;
    while i < n
        invariant
            n == s@.len(),
            i <= n,
            spans_within(spans@, i as int),
            in_word ==> start < i && !is_space(s@[i - 1]) && words(s@.subrange(0, i as int))
                == span_texts(s@, spans@).push(s@.subrange(start as int, i as int)),
            !in_word ==> (i == 0 || is_space(s@[i - 1])) && words(s@.subrange(0, i as int))
                == span_texts(s@, spans@),
        decreases n - i,
    {
        let c = s[i];
        let ghost pre = s@.subrange(0, i + 1);
        assert(pre.drop_last() =~= s@.subrange(0, i as int));
        assert(pre.last() == c);
        if char_is_space(c) {
            if in_word {
                spans.push((start, i));
                assert(span_texts(s@, spans@) =~= words(s@.subrange(0, i as int)));
            }
            in_word = false;
        } else {
            if in_word {
                assert(pre[i - 1] == s@[i - 1]);
                assert(s@.subrange(start as int, i as int).push(c) =~= s@.subrange(
                    start as int,
                    i + 1,
                ));
            } else {
                if i > 0 {
                    assert(pre[i - 1] == s@[i - 1]);
                }
                start = i;
                assert(s@.subrange(start as int, i + 1) =~= seq![c]);
                in_word = true;
            }
        }
        i = i + 1;
    }
    if in_word {
        let ghost before = spans@;
        spans.push((start, n));
        assert(span_texts(s@, spans@) =~= words(s@.subrange(0, n as int)));
        assert forall|k: int| 0 <= k < spans@.len() implies #[trigger] spans@[k].0 <= spans@[k].1
            && spans@[k].1 <= n by {
            if k < before.len() {
                assert(spans@[k] == before[k]);
            }
        }
    }
    assert(s@.subrange(0, n as int) =~= s@);
    spans
}

/// The pieces of `s` between line breaks, in order; there is one more piece
/// than there are line breaks.
pub open spec fn lines(s: Seq<char>) -> Seq<Seq<char>>
    decreases s.len(),
{
    if s.len() == 0 {
        seq![Seq::empty()]
    } else {
        let before = lines(s.drop_last());
        let c = s.last();
        if c == '\n' {
            before.push(Seq::empty())
        } else {
            before.drop_last().push(before.last().push(c))
        }
    }
}

/// Where each line of `s` starts and ends.
pub fn line_spans(s: &Vec<char>) -> (r: Vec<(usize, usize)>)
    ensures
        spans_within(r@, s@.len() as int),
        span_texts(s@, r@) == lines(s@),
{
    let n: usize = s.len();
    let mut spans: Vec<(usize, usize)> = Vec::new();
    let mut start: usize = 0;
    let mut i: usize = 0;
    assert(s@.subrange(0, 0) =~= Seq::<char>::empty());
    assert(span_texts(s@, spans@).push(s@.subrange(0, 0)) =~= seq![Seq::<char>::empty()]);
    while i < n
        invariant
            n == s@.len(),
            start <= i <= n,
            spans_within(spans@, i as int),
            lines(s@.subrange(0, i as int)) == span_texts(s@, spans@).push(
                s@.subrange(start as int, i as int),
            ),
        decreases n - i,
    {
        let c = s[i];
        let ghost pre = s@.subrange(0, i + 1);
        let ghost before = spans@;
        assert(pre.drop_last() =~= s@.subrange(0, i as int));
        assert(pre.last() == c);
        if c == '\n' {
            spans.push((start, i));
            start = i + 1;
            assert(s@.subrange(start as int, i + 1) =~= Seq::<char>::empty());
            assert(span_texts(s@, spans@) =~= span_texts(s@, before).push(
                s@.subrange(spans@.last().0 as int, i as int),
            ));
        } else {
            assert(s@.subrange(start as int, i as int).push(c) =~= s@.subrange(start as int, i + 1));
        }
        i = i + 1;
    }
    spans.push((start, n));
    assert(s@.subrange(0, n as int) =~= s@);
    spans
}

/// The characters of `s`, one by one.
pub fn chars_of(s: &str) -> (r: Vec<char>)
    ensures
        r@ == s@,
{
    let n = s.unicode_len();
    let mut r: Vec<char> = Vec::new();
    let mut i: usize = 0;
    while i < n
        invariant
            n == s@.len(),
            i <= n,
            r@ == s@.subrange(0, i as int),
        decreases n - i,
    {
        r.push(s.get_char(i));
        i = i + 1;
        assert(r@ =~= s@.subrange(0, i as int));
    }
    assert(r@ =~= s@);
    r
}

} // verus!
