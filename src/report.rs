//! The reporting sequence for relayed chunks: one entry per chunk, with a
//! separator between consecutive chunks and none after the last.
use vstd::prelude::*;
use crate::chunk::ChunkReport;

verus! {

/// One entry of the report stream.
#[derive(Clone, Copy, Debug, PartialEq, Eq)]
pub enum ReportEvent {
    /// The metadata of one relayed chunk.
    Chunk(ChunkReport),
    /// The line between two chunks' reports.
    Separator,
}

/// Lays out the reports of `reports` with separators between them.
pub fn report_events(reports: &Vec<ChunkReport>) -> (r: Vec<ReportEvent>)
    ensures
        reports@.len() == 0 ==> r@.len() == 0,
        reports@.len() > 0 ==> r@.len() == 2 * reports@.len() - 1,
        forall|i: int| 0 <= i < reports@.len() ==> r@[2 * i] == ReportEvent::Chunk(#[trigger] reports@[i]),
        forall|i: int| 0 <= i < reports@.len() - 1 ==> #[trigger] r@[2 * i + 1] == ReportEvent::Separator,
{
    let mut out: Vec<ReportEvent> = Vec::new();
    let mut i: usize = 0;
    while i < reports.len()
        invariant
            i <= reports@.len(),
            i == 0 ==> out@.len() == 0,
            i > 0 ==> out@.len() == 2 * i - 1,
            forall|k: int| 0 <= k < i ==> out@[2 * k] == ReportEvent::Chunk(#[trigger] reports@[k]),
            forall|k: int| 0 <= k < i - 1 ==> #[trigger] out@[2 * k + 1] == ReportEvent::Separator,
        decreases reports@.len() - i,
    {
        if i > 0 {
            out.push(ReportEvent::Separator);
        }
        out.push(ReportEvent::Chunk(reports[i]));
        i = i + 1;
    }
    out
}

} // verus!
