//! The frame reassembler: the pending text between reads, and the extraction
//! of complete records from it.

use crate::decode::{decode, decoded_text};
use crate::framing::{
    delimiter_at, first_delimiter, has_delimiter, lemma_first_delimiter,
    lemma_first_delimiter_is, lemma_framing_exists, records_of, remainder_of,
};
use vstd::prelude::*;
use vstd::string::*;

verus! {

/// The texts of a run of records.
pub open spec fn texts(records: Seq<String>) -> Seq<Seq<char>> {
    records.map_values(|record: String| record@)
}

/// Finds the first delimiter of `text`, as an index in characters.
pub fn find_delimiter(text: &str) -> (found: Option<usize>)
    ensures
        found is Some <==> has_delimiter(text@),
        found matches Some(i) ==> i == first_delimiter(text@),
{
    let length: usize = text.unicode_len();
    let mut index: usize = 0;
    let mut after_return: bool = false;
    for c in it: text.chars()
        invariant
            it.seq() == text@,
            length == text@.len(),
            index == it.index(),
            after_return <==> (index > 0 && text@[index - 1] == '\r'),
            forall|j: int| 0 <= j < index - 1 ==> !delimiter_at(text@, j),
    {
        if after_return && c == '\n' {
            proof {
                lemma_first_delimiter_is(text@, index - 1);
                lemma_first_delimiter(text@);
            }
            return Some(index - 1);
        }
        after_return = c == '\r';
        index = index + 1;
    }
    None
}

/// The carry-over buffer of the serial stream together with the operations
/// that take bytes in and hand complete records out.
pub struct FrameReassembler {
    pending: String,
}

impl View for FrameReassembler {
    type V = Seq<char>;

    /// The pending text.
    closed spec fn view(&self) -> Seq<char> {
        self.pending@
    }
}

impl FrameReassembler {
    /// True when no complete record is waiting in the pending text: it holds
    /// at most one partial record. This is the state between two cycles.
    pub open spec fn is_drained(&self) -> bool {
        !has_delimiter(self@)
    }

    /// A reassembler with nothing pending.
    pub fn new() -> (fresh: Self)
        ensures
            fresh@ == Seq::<char>::empty(),
            fresh.is_drained(),
    {
        let fresh = FrameReassembler { pending: String::new() };
        fresh
    }

    /// The pending text.
    pub fn pending(&self) -> (text: &str)
        ensures
            text@ == self@,
    {
        self.pending.as_str()
    }

    /// Appends text to the pending text.
    pub fn push_text(&mut self, text: &str)
        ensures
            final(self)@ == old(self)@ + text@,
    {
        self.pending.append(text);
    }

    /// Decodes a chunk of bytes permissively and appends it to the pending
    /// text.
    pub fn push_bytes(&mut self, chunk: &[u8])
        ensures
            final(self)@ == old(self)@ + decoded_text(chunk@),
    {
        let text = decode(chunk);
        self.pending.append(text.as_str());
    }

    /// Takes the first complete record out of the pending text, together
    /// with its delimiter. Without a delimiter in it the pending text stays
    /// as it is.
    pub fn next_record(&mut self) -> (record: Option<String>)
        ensures
            record is Some <==> has_delimiter(old(self)@),
            match record {
                Some(r) => {
                    &&& r@ == old(self)@.take(first_delimiter(old(self)@))
                    &&& final(self)@ == old(self)@.skip(first_delimiter(old(self)@) + 2)
                },
                None => final(self)@ == old(self)@ && final(self).is_drained(),
            },
    {
        match find_delimiter(self.pending.as_str()) {
            Some(at) => {
                proof {
                    lemma_first_delimiter(self.pending@);
                }
                let length: usize = self.pending.as_str().unicode_len();
                let record: String = self.pending.as_str().substring_char(0, at).to_owned();
                let rest: String = self.pending.as_str().substring_char(at + 2, length).to_owned();
                self.pending = rest;
                Some(record)
            },
            None => None,
        }
    }

    /// Appends text to the pending text and takes out every complete record.
    /// The records come in stream order; what is left pending holds no
    /// delimiter.
    pub fn ingest_text(&mut self, text: &str) -> (records: Vec<String>)
        ensures
            texts(records@) == records_of(old(self)@ + text@),
            final(self)@ == remainder_of(old(self)@ + text@),
            final(self).is_drained(),
    {
        self.pending.append(text);
        let ghost whole = self@;
        proof {
            lemma_framing_exists(whole);
        }
        let mut records: Vec<String> = Vec::new();
        loop
            invariant
                records_of(whole) == texts(records@) + records_of(self@),
                remainder_of(whole) == remainder_of(self@),
            ensures
                texts(records@) == records_of(whole),
                self@ == remainder_of(whole),
            decreases self@.len(),
        {
            proof {
                lemma_first_delimiter(self@);
            }
            match self.next_record() {
                Some(record) => {
                    records.push(record);
                },
                None => {
                    break ;
                },
            }
        }
        records
    }

    /// Decodes a chunk of bytes permissively, appends it to the pending text
    /// and takes out every complete record.
    pub fn ingest(&mut self, chunk: &[u8]) -> (records: Vec<String>)
        ensures
            texts(records@) == records_of(old(self)@ + decoded_text(chunk@)),
            final(self)@ == remainder_of(old(self)@ + decoded_text(chunk@)),
            final(self).is_drained(),
    {
        let text = decode(chunk);
        self.ingest_text(text.as_str())
    }
}

} // verus!
