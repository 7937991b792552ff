//! The line framing of the serial protocol, as mathematics.
//!
//! A stream of text is cut into records at each carriage-return/line-feed
//! pair. This module says what the records and the unterminated remainder of
//! a text are, and proves that the cut is unambiguous and does not depend on
//! how the text arrived in pieces.

use vstd::prelude::*;

verus! {

/// The two characters that end a record.
pub open spec fn delimiter() -> Seq<char> {
    seq!['\r', '\n']
}

/// True when a delimiter starts at index `i` of `text`.
pub open spec fn delimiter_at(text: Seq<char>, i: int) -> bool {
    &&& 0 <= i
    &&& i + 1 < text.len()
    &&& text[i] == '\r'
    &&& text[i + 1] == '\n'
}

/// True when `text` holds a delimiter anywhere.
pub open spec fn has_delimiter(text: Seq<char>) -> bool {
    exists|i: int| delimiter_at(text, i)
}

/// Index at which the first delimiter of `text` starts, or the length of
/// `text` where it holds none.
pub open spec fn first_delimiter(text: Seq<char>) -> int
    decreases text.len(),
{
    if text.len() < 2 {
        text.len() as int
    } else if text[0] == '\r' && text[1] == '\n' {
        0
    } else {
        1 + first_delimiter(text.drop_first())
    }
}

/// The complete records of `text`, in order, each without its delimiter.
pub open spec fn records_of(text: Seq<char>) -> Seq<Seq<char>>
    decreases text.len(),
{
    let i = first_delimiter(text);
    if delimiter_at(text, i) {
        seq![text.take(i)] + records_of(text.skip(i + 2))
    } else {
        Seq::empty()
    }
}

/// What is left of `text` behind its last complete record.
pub open spec fn remainder_of(text: Seq<char>) -> Seq<char>
    decreases text.len(),
{
    let i = first_delimiter(text);
    if delimiter_at(text, i) {
        remainder_of(text.skip(i + 2))
    } else {
        text
    }
}

/// The text that carries `records`, each followed by a delimiter, and then
/// `tail`.
pub open spec fn framed(records: Seq<Seq<char>>, tail: Seq<char>) -> Seq<char>
    decreases records.len(),
{
    if records.len() == 0 {
        tail
    } else {
        records[0] + delimiter() + framed(records.drop_first(), tail)
    }
}

/// True when `text` consists of exactly the delimiter-terminated `records`
/// followed by the partial record `tail`.
pub open spec fn is_framing(text: Seq<char>, records: Seq<Seq<char>>, tail: Seq<char>) -> bool {
    &&& framed(records, tail) == text
    &&& forall|k: int| 0 <= k < records.len() ==> !has_delimiter(#[trigger] records[k])
    &&& !has_delimiter(tail)
}

/// Records and final buffer after the text `chunks` were taken in one at a
/// time, starting from the pending text `buffer`.
pub open spec fn fed(buffer: Seq<char>, chunks: Seq<Seq<char>>) -> (Seq<Seq<char>>, Seq<char>)
    decreases chunks.len(),
{
    if chunks.len() == 0 {
        (Seq::empty(), buffer)
    } else {
        let text = buffer + chunks[0];
        let later = fed(remainder_of(text), chunks.drop_first());
        (records_of(text) + later.0, later.1)
    }
}

/// `first_delimiter` is in bounds, points at a delimiter whenever there is
/// one, and nothing before it is a delimiter.
pub proof fn lemma_first_delimiter(text: Seq<char>)
    ensures
        0 <= first_delimiter(text) <= text.len(),
        has_delimiter(text) <==> delimiter_at(text, first_delimiter(text)),
        has_delimiter(text) <==> first_delimiter(text) < text.len(),
        forall|j: int| 0 <= j < first_delimiter(text) ==> !delimiter_at(text, j),
    decreases text.len(),
{
    if text.len() >= 2 && !(text[0] == '\r' && text[1] == '\n') {
        let rest = text.drop_first();
        lemma_first_delimiter(rest);
        assert forall|j: int| 0 <= j < 1 + first_delimiter(rest) implies !delimiter_at(
            text,
            j,
        ) by {
            if j > 0 {
                assert(!delimiter_at(rest, j - 1));
            }
        }
    }
}

/// A delimiter with none before it is the first one.
pub proof fn lemma_first_delimiter_is(text: Seq<char>, i: int)
    requires
        delimiter_at(text, i),
        forall|j: int| 0 <= j < i ==> !delimiter_at(text, j),
    ensures
        first_delimiter(text) == i,
{
    lemma_first_delimiter(text);
}

/// Every text splits into its records and its remainder: the records hold no
/// delimiter, the remainder holds none, and together they give the text back.
pub proof fn lemma_framing_exists(text: Seq<char>)
    ensures
        is_framing(text, records_of(text), remainder_of(text)),
    decreases text.len(),
{
    lemma_first_delimiter(text);
    let i = first_delimiter(text);
    if delimiter_at(text, i) {
        let rest = text.skip(i + 2);
        lemma_framing_exists(rest);
        let records = records_of(text);
        let head = text.take(i);
        assert(records.drop_first() =~= records_of(rest));
        assert(text =~= head + delimiter() + rest);
        assert(!has_delimiter(head)) by {
            if has_delimiter(head) {
                let k = choose|k: int| delimiter_at(head, k);
                assert(delimiter_at(text, k));
            }
        }
    }
}

/// The split is unambiguous: a text has only one framing.
pub proof fn lemma_framing_unique(text: Seq<char>, records: Seq<Seq<char>>, tail: Seq<char>)
    requires
        is_framing(text, records, tail),
    ensures
        records == records_of(text),
        tail == remainder_of(text),
    decreases records.len(),
{
    lemma_first_delimiter(text);
    if records.len() > 0 {
        let head = records[0];
        let rest = framed(records.drop_first(), tail);
        let n = head.len() as int;
        assert forall|j: int| 0 <= j < n implies !delimiter_at(text, j) by {
            if delimiter_at(text, j) {
                if j + 1 < n {
                    assert(delimiter_at(head, j));
                }
            }
        }
        lemma_first_delimiter_is(text, n);
        assert(text.take(n) =~= head);
        assert(text.skip(n + 2) =~= rest);
        lemma_framing_unique(rest, records.drop_first(), tail);
    }
}

/// Text appended behind a framed text lands in its tail.
pub proof fn lemma_framed_append(records: Seq<Seq<char>>, tail: Seq<char>, more: Seq<char>)
    ensures
        framed(records, tail + more) == framed(records, tail) + more,
    decreases records.len(),
{
    if records.len() > 0 {
        lemma_framed_append(records.drop_first(), tail, more);
        assert(records[0] + delimiter() + (framed(records.drop_first(), tail) + more)
            =~= records[0] + delimiter() + framed(records.drop_first(), tail) + more);
    }
}

/// Framing two runs of records one behind the other is framing their
/// concatenation.
pub proof fn lemma_framed_concat(
    first: Seq<Seq<char>>,
    second: Seq<Seq<char>>,
    tail: Seq<char>,
)
    ensures
        framed(first + second, tail) == framed(first, framed(second, tail)),
    decreases first.len(),
{
    if first.len() > 0 {
        lemma_framed_concat(first.drop_first(), second, tail);
        assert((first + second).drop_first() =~= first.drop_first() + second);
    }
}

/// Taking a text in two pieces gives the same records and the same remainder
/// as taking it whole: the records of the first piece, then the records of
/// what the first piece left over followed by the second piece.
pub proof fn lemma_split_feed(text: Seq<char>, more: Seq<char>)
    ensures
        records_of(text + more) == records_of(text) + records_of(remainder_of(text) + more),
        remainder_of(text + more) == remainder_of(remainder_of(text) + more),
{
    let first = records_of(text);
    let carry = remainder_of(text);
    let second = records_of(carry + more);
    let tail = remainder_of(carry + more);
    lemma_framing_exists(text);
    lemma_framing_exists(carry + more);
    lemma_framed_concat(first, second, tail);
    lemma_framed_append(first, carry, more);
    lemma_framing_unique(text + more, first + second, tail);
}

/// A text without a delimiter holds no record and is its own remainder.
pub proof fn lemma_drained(text: Seq<char>)
    requires
        !has_delimiter(text),
    ensures
        records_of(text) == Seq::<Seq<char>>::empty(),
        remainder_of(text) == text,
{
    lemma_first_delimiter(text);
}

/// Chunking invariance: starting from a pending text without a delimiter,
/// taking chunks in one at a time yields the records and the remainder of
/// the pending text followed by all the chunks, however the text was cut
/// into chunks.
pub proof fn lemma_chunking_invariance(buffer: Seq<char>, chunks: Seq<Seq<char>>)
    requires
        !has_delimiter(buffer),
    ensures
        fed(buffer, chunks).0 == records_of(buffer + chunks.flatten()),
        fed(buffer, chunks).1 == remainder_of(buffer + chunks.flatten()),
    decreases chunks.len(),
{
    if chunks.len() == 0 {
        lemma_drained(buffer);
    } else {
        let text = buffer + chunks[0];
        let rest = chunks.drop_first();
        lemma_framing_exists(text);
        lemma_chunking_invariance(remainder_of(text), rest);
        lemma_split_feed(text, rest.flatten());
        assert(buffer + chunks.flatten() =~= text + rest.flatten());
    }
}

/// A stream that consists of exactly the delimiter-terminated `records`
/// followed by the partial record `tail` yields exactly those records, in
/// order, and leaves exactly that tail pending, however it was cut into
/// chunks.
pub proof fn lemma_chunked_stream_yields_its_framing(
    chunks: Seq<Seq<char>>,
    records: Seq<Seq<char>>,
    tail: Seq<char>,
)
    requires
        is_framing(chunks.flatten(), records, tail),
    ensures
        fed(Seq::empty(), chunks) == (records, tail),
{
    lemma_chunking_invariance(Seq::empty(), chunks);
    lemma_framing_unique(chunks.flatten(), records, tail);
}

/// Cutting one text at any position into two chunks yields the records and
/// the remainder of the whole text.
pub proof fn lemma_cut_anywhere(text: Seq<char>, at: int)
    requires
        0 <= at <= text.len(),
    ensures
        fed(Seq::empty(), seq![text.take(at), text.skip(at)]) == (
            records_of(text),
            remainder_of(text),
        ),
{
    let chunks = seq![text.take(at), text.skip(at)];
    lemma_chunking_invariance(Seq::empty(), chunks);
    assert(chunks.drop_first().flatten() =~= text.skip(at)) by {
        reveal_with_fuel(Seq::flatten, 3);
    }
    assert(chunks.flatten() =~= text) by {
        reveal_with_fuel(Seq::flatten, 3);
    }
}

} // verus!
