//! Permissive decoding of received bytes into text.

use crate::framing::{
    fed, has_delimiter, is_framing, lemma_chunked_stream_yields_its_framing,
    lemma_chunking_invariance, lemma_drained, lemma_framing_exists, records_of, remainder_of,
};
use vstd::prelude::*;
use vstd::utf8::{
    decode_utf8, decode_utf8_split, encode_utf8, encode_utf8_decode_utf8,
    encode_utf8_valid_utf8, is_ascii_chars, is_ascii_chars_encode_utf8, is_char_boundary,
    length_of_first_scalar, pop_first_scalar, valid_utf8, valid_utf8_concat,
};

verus! {

/// The text that the standard library's lossy UTF-8 conversion produces for
/// `bytes`: well-formed sequences decoded, each malformed one replaced by the
/// replacement character.
pub uninterp spec fn lossy_text(bytes: Seq<u8>) -> Seq<char>;

/// The text a chunk of received bytes stands for. Well-formed UTF-8 decodes
/// to its characters; anything else decodes as the lossy conversion has it.
pub open spec fn decoded_text(bytes: Seq<u8>) -> Seq<char> {
    if valid_utf8(bytes) {
        decode_utf8(bytes)
    } else {
        lossy_text(bytes)
    }
}

/// Calls `String::from_utf8_lossy` and takes ownership of what it returns.
///
/// Trusted: the result is the lossy conversion of the bytes, and for bytes
/// that already are well-formed UTF-8 the conversion changes nothing, so the
/// result is the text those bytes encode.
#[verifier::external_body]
fn from_utf8_lossy(bytes: &[u8]) -> (text: String)
    ensures
        text@ == lossy_text(bytes@),
        valid_utf8(bytes@) ==> text@ == decode_utf8(bytes@),
{
    String::from_utf8_lossy(bytes).into_owned()
}

/// Decodes a chunk of received bytes as permissive text. Never fails.
pub fn decode(bytes: &[u8]) -> (text: String)
    ensures
        text@ == decoded_text(bytes@),
{
    from_utf8_lossy(bytes)
}

/// True when every byte is an ASCII byte.
pub open spec fn is_ascii_bytes(bytes: Seq<u8>) -> bool {
    forall|i: int| 0 <= i < bytes.len() ==> #[trigger] bytes[i] < 0x80
}

/// The texts that a run of received chunks decodes to, chunk by chunk.
pub open spec fn decoded_chunks(chunks: Seq<Seq<u8>>) -> Seq<Seq<char>> {
    chunks.map_values(|chunk: Seq<u8>| decoded_text(chunk))
}

/// Where two well-formed byte sequences are joined, a character starts.
proof fn lemma_boundary_at_join(first: Seq<u8>, second: Seq<u8>)
    requires
        valid_utf8(first),
        valid_utf8(second),
    ensures
        valid_utf8(first + second),
        is_char_boundary(first + second, first.len() as int),
    decreases first.len(),
{
    valid_utf8_concat(first, second);
    if first.len() > 0 {
        let rest = pop_first_scalar(first);
        assert(pop_first_scalar(first + second) =~= rest + second);
        lemma_boundary_at_join(rest, second);
    }
}

/// Decoding distributes over the concatenation of well-formed chunks: as long
/// as no chunk boundary cuts a character in two, decoding chunk by chunk
/// gives the text of the whole stream.
pub proof fn lemma_decoding_distributes(first: Seq<u8>, second: Seq<u8>)
    requires
        valid_utf8(first),
        valid_utf8(second),
    ensures
        valid_utf8(first + second),
        decoded_text(first + second) == decoded_text(first) + decoded_text(second),
{
    let whole = first + second;
    lemma_boundary_at_join(first, second);
    decode_utf8_split(whole, first.len() as int);
    assert(whole.subrange(0, first.len() as int) =~= first);
    assert(whole.subrange(first.len() as int, whole.len() as int) =~= second);
}

/// An empty chunk decodes to no text: taking it in yields no record and
/// leaves the pending text as it is.
pub proof fn lemma_empty_chunk(buffer: Seq<char>)
    requires
        !has_delimiter(buffer),
    ensures
        decoded_text(Seq::empty()) == Seq::<char>::empty(),
        records_of(buffer + decoded_text(Seq::empty())) == Seq::<Seq<char>>::empty(),
        remainder_of(buffer + decoded_text(Seq::empty())) == buffer,
{
    lemma_drained(buffer);
}

/// ASCII bytes are well-formed UTF-8 and decode byte for byte.
pub proof fn lemma_ascii_decodes_bytewise(bytes: Seq<u8>)
    requires
        is_ascii_bytes(bytes),
    ensures
        valid_utf8(bytes),
        decoded_text(bytes) == Seq::new(bytes.len(), |i: int| bytes[i] as char),
{
    let chars = Seq::new(bytes.len(), |i: int| bytes[i] as char);
    is_ascii_chars_encode_utf8(chars);
    assert(encode_utf8(chars) =~= bytes);
    encode_utf8_decode_utf8(chars);
    encode_utf8_valid_utf8(chars);
}

/// The texts of well-formed chunks, put together, are the text of the bytes
/// put together.
pub proof fn lemma_decoded_chunks_flatten(chunks: Seq<Seq<u8>>)
    requires
        forall|k: int| 0 <= k < chunks.len() ==> valid_utf8(#[trigger] chunks[k]),
    ensures
        valid_utf8(chunks.flatten()),
        decoded_chunks(chunks).flatten() == decoded_text(chunks.flatten()),
    decreases chunks.len(),
{
    if chunks.len() > 0 {
        let rest = chunks.drop_first();
        lemma_decoded_chunks_flatten(rest);
        lemma_decoding_distributes(chunks[0], rest.flatten());
        assert(decoded_chunks(chunks).drop_first() =~= decoded_chunks(rest));
    }
}

/// Chunking invariance on the wire. Take a stream of bytes that decodes to
/// exactly the delimiter-terminated `records` followed by the partial record
/// `tail`. Fed in chunks, it yields exactly those records, in order, and
/// leaves exactly that tail pending, if and only if decoding the chunks one
/// by one gives the text of the whole stream.
pub proof fn lemma_byte_chunking_invariance(
    chunks: Seq<Seq<u8>>,
    records: Seq<Seq<char>>,
    tail: Seq<char>,
)
    requires
        is_framing(decoded_text(chunks.flatten()), records, tail),
    ensures
        fed(Seq::empty(), decoded_chunks(chunks)) == (records, tail) <==> decoded_chunks(
            chunks,
        ).flatten() == decoded_text(chunks.flatten()),
{
    let start = Seq::<char>::empty();
    let pieces = decoded_chunks(chunks);
    if pieces.flatten() == decoded_text(chunks.flatten()) {
        lemma_chunked_stream_yields_its_framing(pieces, records, tail);
    }
    if fed(start, pieces) == (records, tail) {
        lemma_chunking_invariance(start, pieces);
        lemma_framing_exists(pieces.flatten());
    }
}

/// Chunking invariance for well-formed chunks: however a stream is cut into
/// chunks, as long as no cut falls inside a multi-byte character it yields
/// exactly its records, in order, and leaves exactly its tail pending.
pub proof fn lemma_well_formed_chunking_invariance(
    chunks: Seq<Seq<u8>>,
    records: Seq<Seq<char>>,
    tail: Seq<char>,
)
    requires
        forall|k: int| 0 <= k < chunks.len() ==> valid_utf8(#[trigger] chunks[k]),
        is_framing(decoded_text(chunks.flatten()), records, tail),
    ensures
        fed(Seq::empty(), decoded_chunks(chunks)) == (records, tail),
{
    lemma_decoded_chunks_flatten(chunks);
    lemma_byte_chunking_invariance(chunks, records, tail);
}

/// Cutting a stream of bytes in two at `at` yields the records and the
/// remainder of the whole stream if and only if the two pieces decode to the
/// text of the whole.
pub proof fn lemma_cut_at_byte(bytes: Seq<u8>, at: int)
    requires
        0 <= at <= bytes.len(),
    ensures
        fed(Seq::empty(), seq![decoded_text(bytes.take(at)), decoded_text(bytes.skip(at))]) == (
            records_of(decoded_text(bytes)),
            remainder_of(decoded_text(bytes)),
        ) <==> decoded_text(bytes.take(at)) + decoded_text(bytes.skip(at)) == decoded_text(bytes),
{
    let chunks = seq![bytes.take(at), bytes.skip(at)];
    let pieces = seq![decoded_text(bytes.take(at)), decoded_text(bytes.skip(at))];
    assert(decoded_chunks(chunks) =~= pieces);
    assert(chunks.flatten() =~= bytes) by {
        reveal_with_fuel(Seq::flatten, 3);
    }
    assert(pieces.flatten() =~= pieces[0] + pieces[1]) by {
        reveal_with_fuel(Seq::flatten, 3);
    }
    lemma_framing_exists(decoded_text(bytes));
    lemma_byte_chunking_invariance(
        chunks,
        records_of(decoded_text(bytes)),
        remainder_of(decoded_text(bytes)),
    );
}

/// Cutting an ASCII stream in two at any byte boundary yields the records and
/// the remainder of the whole stream.
pub proof fn lemma_cut_at_any_byte(bytes: Seq<u8>, at: int)
    requires
        is_ascii_bytes(bytes),
        0 <= at <= bytes.len(),
    ensures
        fed(Seq::empty(), seq![decoded_text(bytes.take(at)), decoded_text(bytes.skip(at))]) == (
            records_of(decoded_text(bytes)),
            remainder_of(decoded_text(bytes)),
        ),
{
    let text = decoded_text(bytes);
    lemma_ascii_decodes_bytewise(bytes);
    lemma_ascii_decodes_bytewise(bytes.take(at));
    lemma_ascii_decodes_bytewise(bytes.skip(at));
    assert(decoded_text(bytes.take(at)) + decoded_text(bytes.skip(at)) =~= text);
    lemma_cut_at_byte(bytes, at);
}

} // verus!
