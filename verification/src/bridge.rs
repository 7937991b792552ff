//! One cycle of the bridge: what to do with the outcome of a read.
//!
//! The transport and the virtual device stay outside. A cycle takes what the
//! read returned and says which batches to emit, in order, or that there is
//! nothing to do, or that a failure is to be reported.

use crate::decode::decoded_text;
use crate::events::{translate, translated, EventBatch};
use crate::framing::{records_of, remainder_of};
use crate::reassembler::{texts, FrameReassembler};
use vstd::prelude::*;

verus! {

/// What a read on the transport came back with.
pub enum ReadOutcome<'a> {
    /// The bytes that were read; there may be none.
    Received(&'a [u8]),
    /// Nothing arrived within the timeout. This is the idle case, not a
    /// failure.
    TimedOut,
    /// The read failed for another reason.
    Failed,
}

/// What the loop has to do at the end of a cycle.
pub enum CycleAction {
    /// Emit these batches, in this order.
    Emit(Vec<EventBatch>),
    /// Nothing arrived; go on waiting.
    Idle,
    /// Report the read failure and go on with the next cycle.
    Report,
}

/// The batches of a run of records, in order. A malformed record contributes
/// nothing and does not disturb the records around it.
pub open spec fn batches_of(records: Seq<Seq<char>>) -> Seq<EventBatch>
    decreases records.len(),
{
    if records.len() == 0 {
        Seq::empty()
    } else {
        let before = batches_of(records.drop_last());
        match translated(records.last()) {
            Some(batch) => before.push(batch),
            None => before,
        }
    }
}

/// Translates a run of records, skipping the malformed ones.
pub fn translate_all(records: &Vec<String>) -> (batches: Vec<EventBatch>)
    ensures
        batches@ == batches_of(texts(records@)),
{
    let mut batches: Vec<EventBatch> = Vec::new();
    let mut i: usize = 0;
    while i < records.len()
        invariant
            i <= records@.len(),
            batches@ == batches_of(texts(records@).take(i as int)),
        decreases records@.len() - i,
    {
        proof {
            let upto = texts(records@).take(i + 1);
            assert(upto.drop_last() =~= texts(records@).take(i as int));
        }
        match translate(records[i].as_str()) {
            Some(batch) => {
                batches.push(batch);
            },
            None => {},
        }
        i = i + 1;
    }
    assert(texts(records@).take(i as int) =~= texts(records@));
    batches
}

/// Takes a piece of text in: appends it to the pending text, takes out every
/// complete record and translates it.
pub fn process_text(reassembler: &mut FrameReassembler, text: &str) -> (batches: Vec<EventBatch>)
    ensures
        batches@ == batches_of(records_of(old(reassembler)@ + text@)),
        final(reassembler)@ == remainder_of(old(reassembler)@ + text@),
        final(reassembler).is_drained(),
{
    let records = reassembler.ingest_text(text);
    translate_all(&records)
}

/// Takes a chunk of received bytes in: decodes it permissively, appends it to
/// the pending text, takes out every complete record and translates it.
pub fn process_chunk(reassembler: &mut FrameReassembler, chunk: &[u8]) -> (batches: Vec<
    EventBatch,
>)
    ensures
        batches@ == batches_of(records_of(old(reassembler)@ + decoded_text(chunk@))),
        final(reassembler)@ == remainder_of(old(reassembler)@ + decoded_text(chunk@)),
        final(reassembler).is_drained(),
{
    let records = reassembler.ingest(chunk);
    translate_all(&records)
}

/// Decides one cycle of the loop from the outcome of its read. Received bytes
/// are processed; a timeout and a failure leave the pending text untouched.
pub fn handle_serial_data(reassembler: &mut FrameReassembler, outcome: ReadOutcome) -> (action:
    CycleAction)
    ensures
        match outcome {
            ReadOutcome::Received(chunk) => {
                &&& action matches CycleAction::Emit(batches)
                &&& batches@ == batches_of(records_of(old(reassembler)@ + decoded_text(chunk@)))
                &&& final(reassembler)@ == remainder_of(
                    old(reassembler)@ + decoded_text(chunk@),
                )
                &&& final(reassembler).is_drained()
            },
            ReadOutcome::TimedOut => {
                &&& action is Idle
                &&& final(reassembler)@ == old(reassembler)@
            },
            ReadOutcome::Failed => {
                &&& action is Report
                &&& final(reassembler)@ == old(reassembler)@
            },
        },
{
    match outcome {
        ReadOutcome::Received(chunk) => CycleAction::Emit(process_chunk(reassembler, chunk)),
        ReadOutcome::TimedOut => CycleAction::Idle,
        ReadOutcome::Failed => CycleAction::Report,
    }
}

} // verus!
