//! Whitespace-separated words of a protocol line.
//!
//! Both the G-code grammar and the text commands treat a line as a sequence of
//! words separated by runs of spaces and tabs; leading and trailing blanks are
//! ignored. `words` is that split, and `split_words` computes it.

use vstd::prelude::*;

verus! {

/// Space or horizontal tab: the only separators in a line.
pub open spec fn is_ws(b: u8) -> bool {
    b == 0x20u8 || b == 0x09u8
}

/// Words completed so far and the word still being read, after scanning `s`
/// from left to right.
pub open spec fn scan(s: Seq<u8>) -> (Seq<Seq<u8>>, Seq<u8>)
    decreases s.len(),
{
    if s.len() == 0 {
        (Seq::empty(), Seq::empty())
    } else {
        let (done, cur) = scan(s.drop_last());
        let b = s.last();
        if is_ws(b) {
            if cur.len() > 0 {
                (done.push(cur), Seq::empty())
            } else {
                (done, cur)
            }
        } else {
            (done, cur.push(b))
        }
    }
}

/// The maximal runs of non-blank bytes of `s`, in order.
pub open spec fn words(s: Seq<u8>) -> Seq<Seq<u8>> {
    let (done, cur) = scan(s);
    if cur.len() > 0 {
        done.push(cur)
    } else {
        done
    }
}

pub fn is_ws_byte(b: u8) -> (r: bool)
    ensures
        r == is_ws(b),
{
    b == 0x20u8 || b == 0x09u8
}

/// A word of `line` given by its byte range.
pub open spec fn span_word(line: Seq<u8>, sp: (usize, usize)) -> Seq<u8> {
    line.subrange(sp.0 as int, sp.1 as int)
}

/// `spans` are the byte ranges `[start, end)` of the words of `line`, in order.
pub open spec fn spans_match(line: Seq<u8>, spans: Seq<(usize, usize)>) -> bool {
    &&& spans.len() == words(line).len()
    &&& forall|k: int|
        #![trigger spans[k]]
        0 <= k < spans.len() ==> {
            &&& spans[k].0 < spans[k].1 <= line.len()
            &&& span_word(line, spans[k]) == words(line)[k]
        }
}

/// Each range is bounded by a blank or an end of `line` on both sides.
pub open spec fn spans_delimited(line: Seq<u8>, spans: Seq<(usize, usize)>) -> bool {
    forall|k: int|
        #![trigger spans[k]]
        0 <= k < spans.len() ==> {
            &&& spans[k].0 == 0 || is_ws(line[spans[k].0 - 1])
            &&& spans[k].1 == line.len() || is_ws(line[spans[k].1 as int])
        }
}

/// The byte ranges of the words of `line`.
pub fn split_words(line: &[u8]) -> (spans: Vec<(usize, usize)>)
    ensures
        spans_match(line@, spans@),
        spans_delimited(line@, spans@),
{
    let mut spans: Vec<(usize, usize)> = Vec::new();
    let mut in_word: bool = false;
    let mut start: usize = 0;
    let mut i: usize = 0;
    while i < line.len()
        invariant
            i <= line@.len(),
            start <= i,
            spans@.len() == scan(line@.take(i as int)).0.len(),
            forall|k: int|
                #![trigger spans@[k]] 0 <= k < spans@.len() ==> {
                    &&& spans@[k].0 < spans@[k].1 <= i
                    &&& span_word(line@, spans@[k]) == scan(line@.take(i as int)).0[k]
                },
            in_word <==> scan(line@.take(i as int)).1.len() > 0,
            in_word ==> scan(line@.take(i as int)).1 == line@.subrange(start as int, i as int),
            in_word ==> start == 0 || is_ws(line@[start - 1]),
            !in_word ==> i == 0 || is_ws(line@[i - 1]),
            spans_delimited(line@, spans@),
        decreases line@.len() - i,
    {
        let b = line[i];
        let ghost prev = scan(line@.take(i as int));
        let ghost next = scan(line@.take(i + 1));
        proof {
            assert(line@.take(i + 1).drop_last() =~= line@.take(i as int));
            assert(line@.take(i + 1).last() == b);
            assert(next == (if is_ws(b) {
                if prev.1.len() > 0 {
                    (prev.0.push(prev.1), Seq::<u8>::empty())
                } else {
                    prev
                }
            } else {
                (prev.0, prev.1.push(b))
            }));
        }
        if is_ws_byte(b) {
            if in_word {
                spans.push((start, i));
                in_word = false;
                proof {
                    assert forall|k: int| 0 <= k < spans@.len() implies span_word(line@, spans@[k]) == next.0[k] by {
                        if k == spans@.len() - 1 {
                        } else {
                        }
                    }
                }
            }
        } else {
            if !in_word {
                start = i;
                in_word = true;
                proof {
                    assert(line@.subrange(i as int, i + 1) =~= Seq::<u8>::empty().push(b));
                }
            } else {
                proof {
                    assert(line@.subrange(start as int, i + 1) =~= line@.subrange(
                        start as int,
                        i as int,
                    ).push(b));
                }
            }
        }
        i = i + 1;
    }
    proof {
        assert(line@.take(line@.len() as int) =~= line@);
    }
    let ghost fin = scan(line@);
    if in_word {
        spans.push((start, line.len()));
        proof {
            assert forall|k: int| 0 <= k < spans@.len() implies span_word(line@, spans@[k]) == words(line@)[k] by {
                if k == spans@.len() - 1 {
                } else {
                }
            }
        }
    }
    spans
}

} // verus!
