//! Splitting long text into chunks that a provider takes in one request.
//!
//! Text within the limit stays whole. Longer text is cut at the sentence
//! terminators `.`, `!` and `?`; the sentences are trimmed, empty ones are
//! dropped, and the rest are packed greedily: a sentence joins the chunk
//! before it, after a single space, as long as the chunk stays within the
//! limit. Lengths are counted in characters.

use crate::text::{to_chars, to_text, trim, trimmed};
use vstd::prelude::*;
use vstd::slice::slice_subrange;

verus! {

/// A character that ends a sentence.
pub open spec fn is_terminator(c: char) -> bool {
    c == '.' || c == '!' || c == '?'
}

/// The pieces that the terminators cut `text` into, in order. A text with
/// `n` terminators has `n + 1` pieces, some of which may be empty.
pub open spec fn pieces(text: Seq<char>) -> Seq<Seq<char>>
    decreases text.len(),
{
    if text.len() == 0 {
        seq![Seq::empty()]
    } else {
        let before = pieces(text.drop_last());
        if is_terminator(text.last()) {
            before.push(Seq::empty())
        } else {
            before.drop_last().push(before.last().push(text.last()))
        }
    }
}

/// The pieces trimmed, without those that are empty once trimmed.
pub open spec fn kept(pieces: Seq<Seq<char>>) -> Seq<Seq<char>> {
    pieces.map_values(|piece: Seq<char>| trimmed(piece)).filter(
        |sentence: Seq<char>| sentence.len() > 0,
    )
}

/// The sentences of `text`, in order.
pub open spec fn sentences(text: Seq<char>) -> Seq<Seq<char>> {
    kept(pieces(text))
}

/// The sentences of `group` with a single space between neighbours.
pub open spec fn joined(group: Seq<Seq<char>>) -> Seq<char>
    decreases group.len(),
{
    if group.len() == 0 {
        Seq::empty()
    } else if group.len() == 1 {
        group[0]
    } else {
        joined(group.drop_last()) + seq![' '] + group.last()
    }
}

/// The chunks that `sentences` are packed into: each sentence joins the
/// chunk before it, after a single space, where the chunk then has at most
/// `limit` characters, and starts a chunk of its own where it has not.
pub open spec fn packed(sentences: Seq<Seq<char>>, limit: int) -> Seq<Seq<char>>
    decreases sentences.len(),
{
    if sentences.len() == 0 {
        Seq::empty()
    } else {
        let before = packed(sentences.drop_last(), limit);
        let next = sentences.last();
        if before.len() > 0 && before.last().len() + 1 + next.len() <= limit {
            before.drop_last().push(before.last() + seq![' '] + next)
        } else {
            before.push(next)
        }
    }
}

/// The runs of sentences that make up the chunks of [`packed`].
pub open spec fn grouped(sentences: Seq<Seq<char>>, limit: int) -> Seq<Seq<Seq<char>>>
    decreases sentences.len(),
{
    if sentences.len() == 0 {
        Seq::empty()
    } else {
        let before = grouped(sentences.drop_last(), limit);
        let next = sentences.last();
        if before.len() > 0 && joined(before.last()).len() + 1 + next.len() <= limit {
            before.drop_last().push(before.last().push(next))
        } else {
            before.push(seq![next])
        }
    }
}

/// The chunks of `text` under `limit`: the trimmed text alone where it is
/// within the limit, its sentences packed where it is not.
pub open spec fn chunks_of(text: Seq<char>, limit: int) -> Seq<Seq<char>> {
    let body = trimmed(text);
    if body.len() <= limit {
        seq![body]
    } else {
        packed(sentences(body), limit)
    }
}

/// Whether `groups` cuts `sentences` into runs, none of them empty, that
/// follow one another without gap or overlap, and each of `chunks` is the
/// run at its place joined with single spaces.
pub open spec fn is_grouping(
    chunks: Seq<Seq<char>>,
    groups: Seq<Seq<Seq<char>>>,
    sentences: Seq<Seq<char>>,
) -> bool {
    &&& groups.len() == chunks.len()
    &&& forall|i: int|
        0 <= i < groups.len() ==> (#[trigger] groups[i]).len() > 0 && chunks[i] == joined(
            groups[i],
        )
    &&& groups.flatten() == sentences
}

proof fn lemma_kept_push(done: Seq<Seq<char>>, piece: Seq<char>)
    ensures
        kept(done.push(piece)) == if trimmed(piece).len() > 0 {
            kept(done).push(trimmed(piece))
        } else {
            kept(done)
        },
{
    let trim_piece = |piece: Seq<char>| trimmed(piece);
    let not_empty = |sentence: Seq<char>| sentence.len() > 0;
    done.lemma_push_map_commute(trim_piece, piece);
    done.map_values(trim_piece).lemma_filter_push(trimmed(piece), not_empty);
}

proof fn lemma_kept_not_empty(pieces: Seq<Seq<char>>)
    ensures
        forall|i: int| 0 <= i < kept(pieces).len() ==> (#[trigger] kept(pieces)[i]).len() > 0,
{
    let trim_piece = |piece: Seq<char>| trimmed(piece);
    let not_empty = |sentence: Seq<char>| sentence.len() > 0;
    let mapped = pieces.map_values(trim_piece);
    assert forall|i: int| 0 <= i < kept(pieces).len() implies (#[trigger] kept(pieces)[i]).len()
        > 0 by {
        mapped.lemma_filter_pred(not_empty, i);
    }
}

/// No sentence is empty.
pub proof fn lemma_sentences_not_empty(text: Seq<char>)
    ensures
        forall|i: int|
            0 <= i < sentences(text).len() ==> (#[trigger] sentences(text)[i]).len() > 0,
{
    lemma_kept_not_empty(pieces(text));
}

/// Text within the limit makes exactly one chunk: the trimmed text.
pub proof fn lemma_short_text_is_one_chunk(text: Seq<char>, limit: int)
    requires
        trimmed(text).len() <= limit,
    ensures
        chunks_of(text, limit) == seq![trimmed(text)],
{
}

/// The chunks are the sentences in their order: cut into runs that follow
/// one another, each run joined with single spaces.
pub proof fn lemma_packed_keeps_sentences(sentences: Seq<Seq<char>>, limit: int)
    ensures
        is_grouping(packed(sentences, limit), grouped(sentences, limit), sentences),
    decreases sentences.len(),
{
    let chunks = packed(sentences, limit);
    let groups = grouped(sentences, limit);
    if sentences.len() == 0 {
        assert(groups.flatten() =~= sentences);
    } else {
        let rest = sentences.drop_last();
        let next = sentences.last();
        lemma_packed_keeps_sentences(rest, limit);
        let chunks_before = packed(rest, limit);
        let groups_before = grouped(rest, limit);
        assert(rest.push(next) =~= sentences);
        if chunks_before.len() > 0 {
            assert(chunks_before.last() == joined(groups_before.last()));
        }
        if chunks_before.len() > 0 && chunks_before.last().len() + 1 + next.len() <= limit {
            let last_group = groups_before.last();
            let group = last_group.push(next);
            assert(group.drop_last() =~= last_group);
            assert(joined(group) == joined(last_group) + seq![' '] + next);
            assert(groups_before.drop_last().push(last_group) =~= groups_before);
            groups_before.drop_last().lemma_flatten_push(last_group);
            groups_before.drop_last().lemma_flatten_push(group);
            assert(groups.flatten() =~= sentences);
        } else {
            groups_before.lemma_flatten_push(seq![next]);
            assert(groups.flatten() =~= sentences);
            assert(joined(seq![next]) == next);
        }
    }
}

/// Where no sentence is longer than the limit, no chunk is.
pub proof fn lemma_packed_within_limit(sentences: Seq<Seq<char>>, limit: int)
    requires
        forall|i: int| 0 <= i < sentences.len() ==> (#[trigger] sentences[i]).len() <= limit,
    ensures
        forall|k: int|
            0 <= k < packed(sentences, limit).len() ==> (#[trigger] packed(
                sentences,
                limit,
            )[k]).len() <= limit,
    decreases sentences.len(),
{
    if sentences.len() > 0 {
        let rest = sentences.drop_last();
        assert forall|i: int| 0 <= i < rest.len() implies (#[trigger] rest[i]).len() <= limit by {
            assert(rest[i] == sentences[i]);
        }
        lemma_packed_within_limit(rest, limit);
        let before = packed(rest, limit);
        let next = sentences.last();
        assert(next.len() <= limit);
        let chunks = packed(sentences, limit);
        assert forall|k: int| 0 <= k < chunks.len() implies (#[trigger] chunks[k]).len()
            <= limit by {
            if k < chunks.len() - 1 {
                assert(chunks[k] == before[k]);
            }
        }
    }
}

/// Text beyond the limit makes chunks that are its sentences in their
/// order, cut into runs and joined with single spaces; and where none of
/// its sentences is longer than the limit, none of the chunks is.
pub proof fn lemma_long_text_chunks(text: Seq<char>, limit: int)
    requires
        trimmed(text).len() > limit,
    ensures
        exists|groups: Seq<Seq<Seq<char>>>|
            is_grouping(chunks_of(text, limit), groups, sentences(trimmed(text))),
        (forall|i: int|
            0 <= i < sentences(trimmed(text)).len() ==> (#[trigger] sentences(
                trimmed(text),
            )[i]).len() <= limit) ==> (forall|k: int|
            0 <= k < chunks_of(text, limit).len() ==> (#[trigger] chunks_of(text, limit)[k]).len()
                <= limit),
{
    let all = sentences(trimmed(text));
    lemma_packed_keeps_sentences(all, limit);
    assert(is_grouping(chunks_of(text, limit), grouped(all, limit), all));
    if forall|i: int| 0 <= i < all.len() ==> (#[trigger] all[i]).len() <= limit {
        lemma_packed_within_limit(all, limit);
    }
}

/// The views of a sequence of character slices.
pub open spec fn slices_view(slices: Seq<&[char]>) -> Seq<Seq<char>> {
    slices.map_values(|slice: &[char]| slice@)
}

fn is_terminator_char(c: char) -> (b: bool)
    ensures
        b == is_terminator(c),
{
    c == '.' || c == '!' || c == '?'
}

/// Appends `chars` to `text`.
fn append_chars(text: &mut String, chars: &[char])
    ensures
        final(text)@ == old(text)@ + chars@,
{
    let mut i: usize = 0;
    while i < chars.len()
        invariant
            i <= chars@.len(),
            text@ == old(text)@ + chars@.take(i as int),
        decreases chars@.len() - i,
    {
        text.push(chars[i]);
        assert(chars@.take(i + 1) =~= chars@.take(i as int).push(chars@[i as int]));
        i += 1;
    }
    assert(chars@.take(chars@.len() as int) =~= chars@);
}

/// The sentences of `text`, in order.
pub fn split_sentences<'a>(text: &'a [char]) -> (found: Vec<&'a [char]>)
    ensures
        slices_view(found@) == sentences(text@),
{
    let n = text.len();
    let mut found: Vec<&'a [char]> = Vec::new();
    let mut start: usize = 0;
    let mut i: usize = 0;
    let ghost mut done: Seq<Seq<char>> = Seq::empty();
    assert(text@.subrange(0, 0) =~= Seq::<char>::empty());
    assert(text@.take(0) =~= Seq::<char>::empty());
    assert(pieces(text@.take(0)) =~= done.push(text@.subrange(0, 0)));
    assert(slices_view(found@) =~= kept(done)) by {
        reveal(Seq::filter);
    }
    while i < n
        invariant
            n == text@.len(),
            start <= i <= n,
            pieces(text@.take(i as int)) == done.push(text@.subrange(start as int, i as int)),
            slices_view(found@) == kept(done),
        decreases n - i,
    {
        let ghost piece = text@.subrange(start as int, i as int);
        proof {
            assert(text@.take(i + 1).drop_last() =~= text@.take(i as int));
            assert(text@.take(i + 1).last() == text@[i as int]);
            assert(done.push(piece).drop_last() =~= done);
        }
        if is_terminator_char(text[i]) {
            let sentence = trim(slice_subrange(text, start, i));
            proof {
                lemma_kept_push(done, piece);
                assert(found@.push(sentence).map_values(|slice: &[char]| slice@) =~= slices_view(
                    found@,
                ).push(sentence@));
            }
            if sentence.len() > 0 {
                found.push(sentence);
            }
            proof {
                done = done.push(piece);
                assert(text@.subrange(i + 1, i + 1) =~= Seq::<char>::empty());
            }
            start = i + 1;
        } else {
            assert(text@.subrange(start as int, i + 1) =~= piece.push(text@[i as int]));
        }
        i += 1;
    }
    let sentence = trim(slice_subrange(text, start, n));
    proof {
        let piece = text@.subrange(start as int, n as int);
        assert(text@.take(n as int) =~= text@);
        lemma_kept_push(done, piece);
        assert(found@.push(sentence).map_values(|slice: &[char]| slice@) =~= slices_view(
            found@,
        ).push(sentence@));
    }
    if sentence.len() > 0 {
        found.push(sentence);
    }
    found
}

/// Packs `sentences` into chunks of at most `limit` characters, as far as
/// the sentences allow.
pub fn pack(sentences: &Vec<&[char]>, limit: usize) -> (chunks: Vec<String>)
    ensures
        chunks.deep_view() == packed(slices_view(sentences@), limit as int),
{
    let ghost all = slices_view(sentences@);
    let mut chunks: Vec<String> = Vec::new();
    let mut current = String::new();
    let mut current_len: usize = 0;
    let mut open = false;
    let mut k: usize = 0;
    assert(all.take(0) =~= Seq::<Seq<char>>::empty());
    while k < sentences.len()
        invariant
            k <= sentences@.len(),
            all == slices_view(sentences@),
            current_len == current@.len(),
            open ==> packed(all.take(k as int), limit as int) == chunks.deep_view().push(current@),
            !open ==> packed(all.take(k as int), limit as int) == Seq::<Seq<char>>::empty()
                && chunks@.len() == 0,
        decreases sentences@.len() - k,
    {
        let sentence: &[char] = sentences[k];
        proof {
            assert(all.take(k + 1).drop_last() =~= all.take(k as int));
            assert(all.take(k + 1).last() == sentence@);
            assert(chunks.deep_view().push(current@).drop_last() =~= chunks.deep_view());
        }
        let ghost before = chunks.deep_view();
        let ghost last = current@;
        if open && sentence.len() < limit && current_len <= limit - 1 - sentence.len() {
            current.push(' ');
            append_chars(&mut current, sentence);
            current_len = current_len + 1 + sentence.len();
            assert(current@ =~= last + seq![' '] + sentence@);
            assert(before.push(last).last() == last);
        } else {
            if open {
                chunks.push(current);
                assert(chunks.deep_view() =~= before.push(last));
                assert(before.push(last).last() == last);
            } else {
                assert(before =~= Seq::<Seq<char>>::empty());
            }
            current = to_text(sentence);
            current_len = sentence.len();
            open = true;
        }
        k += 1;
    }
    assert(all.take(k as int) =~= all);
    if open {
        let ghost before = chunks.deep_view();
        chunks.push(current);
        assert(chunks.deep_view() =~= before.push(current@));
    } else {
        assert(chunks.deep_view() =~= Seq::<Seq<char>>::empty());
    }
    chunks
}

/// Cuts `text` into chunks of at most `limit` characters, as far as its
/// sentences allow.
pub fn chunk_text(text: &str, limit: usize) -> (chunks: Vec<String>)
    ensures
        chunks.deep_view() == chunks_of(text@, limit as int),
        trimmed(text@).len() <= limit ==> chunks.deep_view() == seq![trimmed(text@)],
{
    let chars = to_chars(text);
    let body = trim(chars.as_slice());
    if body.len() <= limit {
        let mut chunks: Vec<String> = Vec::new();
        chunks.push(to_text(body));
        assert(chunks.deep_view() =~= seq![trimmed(text@)]);
        chunks
    } else {
        let found = split_sentences(body);
        pack(&found, limit)
    }
}

} // verus!
