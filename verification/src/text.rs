use vstd::prelude::*;

verus! {

/// Whether `c` counts as white space: what `char::is_whitespace` answers.
pub uninterp spec fn is_white_space(c: char) -> bool;

/// `char::is_whitespace`, which tells whether a character has the Unicode
/// property `White_Space`. The answer depends on the character alone; the
/// contract gives it the name `is_white_space` and claims nothing else.
#[verifier::external_body]
fn char_is_whitespace(c: char) -> (b: bool)
    ensures
        b == is_white_space(c),
{
    c.is_whitespace()
}

/// The pieces of `s` between its spaces, in order. A text of `k` spaces has
/// `k + 1` pieces; two spaces in a row have an empty piece between them.
pub open spec fn split_on_space(s: Seq<char>) -> Seq<Seq<char>>
    decreases s.len(),
{
    if s.len() == 0 {
        seq![Seq::<char>::empty()]
    } else if s.last() == ' ' {
        split_on_space(s.drop_last()).push(Seq::<char>::empty())
    } else {
        let before = split_on_space(s.drop_last());
        before.drop_last().push(before.last().push(s.last()))
    }
}

/// `s` without the white space at its start.
pub open spec fn trim_start(s: Seq<char>) -> Seq<char>
    decreases s.len(),
{
    if s.len() > 0 && is_white_space(s.first()) {
        trim_start(s.drop_first())
    } else {
        s
    }
}

/// `s` without the white space at its end.
pub open spec fn trim_end(s: Seq<char>) -> Seq<char>
    decreases s.len(),
{
    if s.len() > 0 && is_white_space(s.last()) {
        trim_end(s.drop_last())
    } else {
        s
    }
}

/// `s` without the white space at either end.
pub open spec fn trim(s: Seq<char>) -> Seq<char> {
    trim_end(trim_start(s))
}

/// The tokens of a sentence: its pieces between spaces, each trimmed.
pub open spec fn tokens_of(sentence: Seq<char>) -> Seq<Seq<char>> {
    split_on_space(sentence).map_values(|piece: Seq<char>| trim(piece))
}

/// The part of `chars` that a span of two offsets covers.
pub open spec fn span_text(chars: Seq<char>, span: (usize, usize)) -> Seq<char> {
    chars.subrange(span.0 as int, span.1 as int)
}

/// Every span lies inside a text of `len` characters.
pub open spec fn spans_within(spans: Seq<(usize, usize)>, len: int) -> bool {
    forall|k: int| 0 <= k < spans.len() ==> (#[trigger] spans[k]).0 <= spans[k].1 <= len
}

/// The texts that the spans cover.
pub open spec fn span_texts(chars: Seq<char>, spans: Seq<(usize, usize)>) -> Seq<Seq<char>> {
    spans.map_values(|span: (usize, usize)| span_text(chars, span))
}

/// The span covers no space.
pub open spec fn no_space(chars: Seq<char>, span: (usize, usize)) -> bool {
    forall|i: int| span.0 <= i < span.1 ==> #[trigger] chars[i] != ' '
}

/// The spans are the pieces between the spaces of `chars`, one after the
/// other: the first starts at the start, the last ends at the end, between
/// two neighbours stands exactly one space, and no span holds a space.
pub open spec fn cuts_at_spaces(chars: Seq<char>, spans: Seq<(usize, usize)>) -> bool {
    &&& spans.len() >= 1
    &&& spans_within(spans, chars.len() as int)
    &&& spans[0].0 == 0
    &&& spans[spans.len() - 1].1 == chars.len()
    &&& forall|k: int|
        0 <= k < spans.len() - 1 ==> (#[trigger] spans[k]).1 + 1 == spans[k + 1].0
            && chars[spans[k].1 as int] == ' '
    &&& forall|k: int| 0 <= k < spans.len() ==> no_space(chars, #[trigger] spans[k])
}

/// `span` is what is left of `piece` without the white space at its two
/// ends: all that `piece` holds outside of `span` is white space, and
/// `span` neither starts nor ends with white space. Where `piece` holds
/// nothing else, `span` is empty and stands at its end.
pub open spec fn trims(chars: Seq<char>, piece: (usize, usize), span: (usize, usize)) -> bool {
    &&& piece.0 <= span.0 <= span.1 <= piece.1
    &&& forall|i: int| piece.0 <= i < span.0 ==> is_white_space(#[trigger] chars[i])
    &&& forall|i: int| span.1 <= i < piece.1 ==> is_white_space(#[trigger] chars[i])
    &&& span.0 < span.1 ==> !is_white_space(chars[span.0 as int]) && !is_white_space(
        chars[span.1 - 1],
    )
    &&& span.0 == span.1 ==> span.0 == piece.1
}

/// A sentence always has at least one token.
pub proof fn lemma_split_nonempty(s: Seq<char>)
    ensures
        split_on_space(s).len() >= 1,
        tokens_of(s).len() >= 1,
    decreases s.len(),
{
    if s.len() > 0 {
        lemma_split_nonempty(s.drop_last());
    }
}

/// The pieces in a row, with one space between neighbours.
pub open spec fn join_with_space(pieces: Seq<Seq<char>>) -> Seq<char>
    decreases pieces.len(),
{
    if pieces.len() == 0 {
        Seq::<char>::empty()
    } else if pieces.len() == 1 {
        pieces[0]
    } else {
        join_with_space(pieces.drop_last()) + seq![' '] + pieces.last()
    }
}

/// Splitting loses nothing and cuts at every space: no piece holds a
/// space, and the pieces joined by spaces are the text again.
pub proof fn lemma_split_joins_back(s: Seq<char>)
    ensures
        join_with_space(split_on_space(s)) == s,
        forall|k: int|
            0 <= k < split_on_space(s).len() ==> !(#[trigger] split_on_space(s)[k]).contains(' '),
    decreases s.len(),
{
    let pieces = split_on_space(s);
    if s.len() == 0 {
        assert(join_with_space(pieces) =~= s);
    } else {
        let before = split_on_space(s.drop_last());
        lemma_split_joins_back(s.drop_last());
        lemma_split_nonempty(s.drop_last());
        if s.last() == ' ' {
            assert(pieces.drop_last() =~= before);
            assert(join_with_space(pieces) =~= s.drop_last() + seq![' '] + Seq::<char>::empty());
            assert(join_with_space(pieces) =~= s);
            assert forall|k: int| 0 <= k < pieces.len() implies !(#[trigger] pieces[k]).contains(
                ' ',
            ) by {
                if k < before.len() {
                    assert(pieces[k] == before[k]);
                }
            }
        } else {
            let grown = before.last().push(s.last());
            assert(pieces.last() == grown);
            assert(pieces.drop_last() =~= before.drop_last());
            if before.len() == 1 {
                assert(join_with_space(before) == before[0]);
                assert(join_with_space(pieces) =~= s);
            } else {
                assert(join_with_space(before) == join_with_space(before.drop_last()) + seq![' ']
                    + before.last());
                assert(join_with_space(pieces) =~= join_with_space(before).push(s.last()));
                assert(join_with_space(pieces) =~= s);
            }
            assert forall|k: int| 0 <= k < pieces.len() implies !(#[trigger] pieces[k]).contains(
                ' ',
            ) by {
                if k < before.len() - 1 {
                    assert(pieces[k] == before[k]);
                } else {
                    assert(!before.last().contains(' '));
                    if grown.contains(' ') {
                        let at = choose|at: int| 0 <= at < grown.len() && grown[at] == ' ';
                        if at < before.last().len() {
                            assert(before.last()[at] == ' ');
                        }
                    }
                }
            }
        }
    }
}

/// The characters of `s`, one by one.
pub fn chars_of(s: &str) -> (out: Vec<char>)
    ensures
        out@ == s@,
{
    let mut out: Vec<char> = Vec::new();
    for c in it: s.chars()
        invariant
            it.seq() == s@,
            out@ == s@.subrange(0, it.index() as int),
    {
        out.push(c);
        proof {
            assert(out@ =~= s@.subrange(0, it.index() + 1));
        }
    }
    proof {
        assert(out@ =~= s@);
    }
    out
}

/// Where the pieces between the spaces of `chars` start and end.
pub fn split_spans(chars: &Vec<char>) -> (spans: Vec<(usize, usize)>)
    ensures
        cuts_at_spaces(chars@, spans@),
        span_texts(chars@, spans@) == split_on_space(chars@),
{
    let n: usize = chars.len();
    let mut spans: Vec<(usize, usize)> = Vec::new();
    let mut start: usize = 0;
    let mut i: usize = 0;
    proof {
        assert(chars@.subrange(0, 0) =~= Seq::<char>::empty());
        assert(span_texts(chars@, spans@).push(chars@.subrange(0, 0)) =~= split_on_space(
            chars@.subrange(0, 0),
        ));
    }
    while i < n
        invariant
            n == chars@.len(),
            start <= i <= n,
            spans_within(spans@, i as int),
            span_texts(chars@, spans@).push(chars@.subrange(start as int, i as int))
                == split_on_space(chars@.subrange(0, i as int)),
            spans@.len() == 0 ==> start == 0,
            spans@.len() > 0 ==> spans@[0].0 == 0 && spans@[spans@.len() - 1].1 + 1 == start
                && chars@[spans@[spans@.len() - 1].1 as int] == ' ',
            forall|k: int|
                0 <= k < spans@.len() - 1 ==> (#[trigger] spans@[k]).1 + 1 == spans@[k + 1].0
                    && chars@[spans@[k].1 as int] == ' ',
            forall|k: int| 0 <= k < spans@.len() ==> no_space(chars@, #[trigger] spans@[k]),
            no_space(chars@, (start, i)),
        decreases n - i,
    {
        let ghost done = span_texts(chars@, spans@);
        let ghost prefix = chars@.subrange(0, i as int);
        let ghost next = chars@.subrange(0, i + 1);
        proof {
            assert(next.drop_last() =~= prefix);
            assert(next.last() == chars@[i as int]);
        }
        if chars[i] == ' ' {
            let ghost before = spans@;
            spans.push((start, i));
            proof {
                assert(span_texts(chars@, spans@) =~= done.push(
                    chars@.subrange(start as int, i as int),
                ));
                assert(chars@.subrange(i + 1, i + 1) =~= Seq::<char>::empty());
                assert forall|k: int| 0 <= k < spans@.len() implies no_space(
                    chars@,
                    #[trigger] spans@[k],
                ) by {
                    if k < before.len() {
                        assert(spans@[k] == before[k]);
                    }
                }
                assert forall|k: int| 0 <= k < spans@.len() - 1 implies (#[trigger] spans@[k]).1
                    + 1 == spans@[k + 1].0 && chars@[spans@[k].1 as int] == ' ' by {
                    if k < before.len() - 1 {
                        assert(spans@[k] == before[k]);
                        assert(spans@[k + 1] == before[k + 1]);
                    }
                }
            }
            start = i + 1;
        } else {
            proof {
                let current = chars@.subrange(start as int, i as int);
                assert(done.push(current).drop_last() =~= done);
                assert(current.push(chars@[i as int]) =~= chars@.subrange(start as int, i + 1));
            }
        }
        i += 1;
    }
    let ghost done = span_texts(chars@, spans@);
    let ghost before = spans@;
    spans.push((start, n));
    proof {
        assert(chars@.subrange(0, n as int) =~= chars@);
        assert(span_texts(chars@, spans@) =~= done.push(chars@.subrange(start as int, n as int)));
        assert forall|k: int| 0 <= k < spans@.len() implies no_space(chars@, #[trigger] spans@[k]) by {
            if k < before.len() {
                assert(spans@[k] == before[k]);
            }
        }
        assert forall|k: int| 0 <= k < spans@.len() - 1 implies (#[trigger] spans@[k]).1 + 1
            == spans@[k + 1].0 && chars@[spans@[k].1 as int] == ' ' by {
            if k < before.len() - 1 {
                assert(spans@[k] == before[k]);
                assert(spans@[k + 1] == before[k + 1]);
            }
        }
        assert forall|k: int| 0 <= k < spans@.len() implies (#[trigger] spans@[k]).0 <= spans@[k].1
            <= n by {
            if k < before.len() {
                assert(spans@[k] == before[k]);
            }
        }
    }
    spans
}

/// The span that is left of `from..to` once the white space at both ends is
/// gone.
pub fn trim_span(chars: &Vec<char>, from: usize, to: usize) -> (span: (usize, usize))
    requires
        from <= to <= chars@.len(),
    ensures
        trims(chars@, (from, to), span),
        span_text(chars@, span) == trim(chars@.subrange(from as int, to as int)),
{
    let mut a: usize = from;
    while a < to && char_is_whitespace(chars[a])
        invariant
            from <= a <= to <= chars@.len(),
            trim_start(chars@.subrange(from as int, to as int)) == trim_start(
                chars@.subrange(a as int, to as int),
            ),
            forall|i: int| from <= i < a ==> is_white_space(#[trigger] chars@[i]),
        decreases to - a,
    {
        proof {
            let rest = chars@.subrange(a as int, to as int);
            assert(rest.first() == chars@[a as int]);
            assert(rest.drop_first() =~= chars@.subrange(a + 1, to as int));
        }
        a += 1;
    }
    proof {
        let rest = chars@.subrange(a as int, to as int);
        if a < to {
            assert(rest.first() == chars@[a as int]);
        }
        assert(trim_start(rest) == rest);
    }
    let mut b: usize = to;
    while b > a && char_is_whitespace(chars[b - 1])
        invariant
            a <= b <= to <= chars@.len(),
            a < to ==> !is_white_space(chars@[a as int]) && a < b,
            trim_end(chars@.subrange(a as int, to as int)) == trim_end(
                chars@.subrange(a as int, b as int),
            ),
            forall|i: int| b <= i < to ==> is_white_space(#[trigger] chars@[i]),
        decreases b - a,
    {
        proof {
            let rest = chars@.subrange(a as int, b as int);
            assert(rest.last() == chars@[b - 1]);
            assert(rest.drop_last() =~= chars@.subrange(a as int, b - 1));
        }
        b -= 1;
    }
    proof {
        let rest = chars@.subrange(a as int, b as int);
        if b > a {
            assert(rest.last() == chars@[b - 1]);
        }
        assert(trim_end(rest) == rest);
    }
    (a, b)
}

/// The spans are those of the tokens of `chars`: each is what trimming
/// leaves of the piece of its place.
pub open spec fn spans_tokens(chars: Seq<char>, spans: Seq<(usize, usize)>) -> bool {
    exists|pieces: Seq<(usize, usize)>|
        {
            &&& #[trigger] cuts_at_spaces(chars, pieces)
            &&& pieces.len() == spans.len()
            &&& forall|k: int| 0 <= k < spans.len() ==> trims(chars, pieces[k], #[trigger] spans[k])
        }
}

/// Where the tokens of the sentence `chars` start and end.
pub fn token_spans(chars: &Vec<char>) -> (spans: Vec<(usize, usize)>)
    ensures
        spans_within(spans@, chars@.len() as int),
        spans_tokens(chars@, spans@),
        span_texts(chars@, spans@) == tokens_of(chars@),
{
    let pieces = split_spans(chars);
    let mut spans: Vec<(usize, usize)> = Vec::new();
    let mut k: usize = 0;
    while k < pieces.len()
        invariant
            k <= pieces@.len(),
            spans@.len() == k,
            spans_within(pieces@, chars@.len() as int),
            span_texts(chars@, pieces@) == split_on_space(chars@),
            spans_within(spans@, chars@.len() as int),
            span_texts(chars@, spans@) == tokens_of(chars@).subrange(0, k as int),
            forall|j: int| 0 <= j < k ==> trims(chars@, pieces@[j], #[trigger] spans@[j]),
        decreases pieces@.len() - k,
    {
        let piece = pieces[k];
        assert(piece.0 <= piece.1 <= chars@.len());
        let span = trim_span(chars, piece.0, piece.1);
        let ghost done = spans@;
        spans.push(span);
        proof {
            assert(span_texts(chars@, pieces@)[k as int] == span_text(chars@, piece));
            assert forall|j: int| 0 <= j < k + 1 implies span_texts(chars@, spans@)[j]
                == tokens_of(chars@)[j] by {
                if j < k {
                    assert(span_texts(chars@, spans@)[j] == span_texts(chars@, done)[j]);
                    assert(span_texts(chars@, done)[j] == tokens_of(chars@).subrange(
                        0,
                        k as int,
                    )[j]);
                }
            }
            assert(span_texts(chars@, spans@) =~= tokens_of(chars@).subrange(0, k + 1));
            assert forall|j: int| 0 <= j < k + 1 implies trims(
                chars@,
                pieces@[j],
                #[trigger] spans@[j],
            ) by {
                if j < k {
                    assert(spans@[j] == done[j]);
                }
            }
        }
        k += 1;
    }
    proof {
        assert(span_texts(chars@, spans@) =~= tokens_of(chars@));
        assert(cuts_at_spaces(chars@, pieces@));
    }
    spans
}

} // verus!
