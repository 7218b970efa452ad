//! Copying a file during a transfer. The copy is written to `<dst>.part` and
//! renamed over the destination only when the whole source was read and
//! written, so a cancelled or failed transfer never touches an existing
//! destination. The worker does the reading and writing; `copy_step` takes
//! what happened and says what to do next.

use vstd::prelude::*;

use crate::text::{append_chars, chars_of, string_of};
use crate::worker::{part_path, part_path_of};

verus! {

/// Why a copy did not finish.
pub enum TransferError {
    Cancelled,
    Failed(String),
}

pub enum TransferErrorView {
    Cancelled,
    Failed(Seq<char>),
}

impl View for TransferError {
    type V = TransferErrorView;

    open spec fn view(&self) -> TransferErrorView {
        match self {
            TransferError::Cancelled => TransferErrorView::Cancelled,
            TransferError::Failed(e) => TransferErrorView::Failed(e@),
        }
    }
}

/// Where a copy is.
pub enum CopyStage {
    /// The source and the `.part` file are being opened.
    Opening,
    /// A chunk is to be read (unless the transfer was cancelled).
    Reading,
    /// This many bytes were read and are being written.
    Writing(u64),
    /// The `.part` file is being renamed over the destination.
    Finalizing,
    /// The `.part` file is being removed; the copy then ends with this error.
    Removing(TransferError),
    Done,
}

pub enum CopyStageView {
    Opening,
    Reading,
    Writing(u64),
    Finalizing,
    Removing(TransferErrorView),
    Done,
}

/// A copy to `dst` by way of `part`.
pub struct CopyState {
    pub dst: String,
    pub part: String,
    pub stage: CopyStage,
    /// Bytes written so far.
    pub sent: u64,
}

pub struct CopyView {
    pub dst: Seq<char>,
    pub part: Seq<char>,
    pub stage: CopyStageView,
    pub sent: u64,
}

impl View for CopyState {
    type V = CopyView;

    open spec fn view(&self) -> CopyView {
        CopyView {
            dst: self.dst@,
            part: self.part@,
            stage: match self.stage {
                CopyStage::Opening => CopyStageView::Opening,
                CopyStage::Reading => CopyStageView::Reading,
                CopyStage::Writing(n) => CopyStageView::Writing(n),
                CopyStage::Finalizing => CopyStageView::Finalizing,
                CopyStage::Removing(e) => CopyStageView::Removing(e@),
                CopyStage::Done => CopyStageView::Done,
            },
            sent: self.sent,
        }
    }
}

/// What the worker reports.
pub enum CopyEvent {
    /// The source and the `.part` file were opened, or the first error.
    Opened(Result<(), String>),
    /// The cancel flag was found set before a read.
    Cancelled,
    /// A read gave this many bytes (0 at the end of the source), or failed.
    Read(Result<u64, String>),
    Written(Result<(), String>),
    Finalized(Result<(), String>),
    /// The `.part` file was removed (or could not be; that is not reported).
    Removed,
}

pub enum CopyEventView {
    Opened(Result<(), Seq<char>>),
    Cancelled,
    Read(Result<u64, Seq<char>>),
    Written(Result<(), Seq<char>>),
    Finalized(Result<(), Seq<char>>),
    Removed,
}

pub open spec fn unit_view(r: Result<(), String>) -> Result<(), Seq<char>> {
    match r {
        Ok(()) => Ok(()),
        Err(e) => Err(e@),
    }
}

impl View for CopyEvent {
    type V = CopyEventView;

    open spec fn view(&self) -> CopyEventView {
        match self {
            CopyEvent::Opened(r) => CopyEventView::Opened(unit_view(*r)),
            CopyEvent::Cancelled => CopyEventView::Cancelled,
            CopyEvent::Read(r) => CopyEventView::Read(
                match r {
                    Ok(n) => Ok(*n),
                    Err(e) => Err(e@),
                },
            ),
            CopyEvent::Written(r) => CopyEventView::Written(unit_view(*r)),
            CopyEvent::Finalized(r) => CopyEventView::Finalized(unit_view(*r)),
            CopyEvent::Removed => CopyEventView::Removed,
        }
    }
}

/// What the worker does next.
pub enum CopyAction {
    /// Check the cancel flag, then read a chunk of the source.
    ReadChunk,
    /// Write the bytes just read to the `.part` file.
    WriteChunk(u64),
    /// Rename this `.part` file over the destination.
    Finalize(String),
    /// Remove this `.part` file.
    RemovePart(String),
    /// The copy is over: the bytes written, or why it stopped.
    Done(Result<u64, TransferError>),
}

pub enum CopyActionView {
    ReadChunk,
    WriteChunk(u64),
    Finalize(Seq<char>),
    RemovePart(Seq<char>),
    Done(Result<u64, TransferErrorView>),
}

impl View for CopyAction {
    type V = CopyActionView;

    open spec fn view(&self) -> CopyActionView {
        match self {
            CopyAction::ReadChunk => CopyActionView::ReadChunk,
            CopyAction::WriteChunk(n) => CopyActionView::WriteChunk(*n),
            CopyAction::Finalize(p) => CopyActionView::Finalize(p@),
            CopyAction::RemovePart(p) => CopyActionView::RemovePart(p@),
            CopyAction::Done(r) => CopyActionView::Done(
                match r {
                    Ok(n) => Ok(*n),
                    Err(e) => Err(e@),
                },
            ),
        }
    }
}

// ------------------------------------------------------------------ the spec

/// The events the worker can report at a stage.
pub open spec fn event_fits(stage: CopyStageView, ev: CopyEventView) -> bool {
    match stage {
        CopyStageView::Opening => ev is Opened,
        CopyStageView::Reading => ev is Cancelled || ev is Read,
        CopyStageView::Writing(_) => ev is Written,
        CopyStageView::Finalizing => ev is Finalized,
        CopyStageView::Removing(_) => ev is Removed,
        CopyStageView::Done => false,
    }
}

pub open spec fn at(st: CopyView, stage: CopyStageView) -> CopyView {
    CopyView { stage, ..st }
}

/// One step of a copy. A clean end of the source renames the `.part` file
/// over the destination; a cancel or a failed read or write removes the
/// `.part` file instead; a failure to open or to rename ends the copy.
pub open spec fn copy_next(st: CopyView, ev: CopyEventView) -> (CopyView, CopyActionView) {
    match (st.stage, ev) {
        (CopyStageView::Opening, CopyEventView::Opened(Ok(()))) => (at(st, CopyStageView::Reading), CopyActionView::ReadChunk),
        (CopyStageView::Opening, CopyEventView::Opened(Err(e))) => (
            at(st, CopyStageView::Done),
            CopyActionView::Done(Err(TransferErrorView::Failed(e))),
        ),
        (CopyStageView::Reading, CopyEventView::Cancelled) => (
            at(st, CopyStageView::Removing(TransferErrorView::Cancelled)),
            CopyActionView::RemovePart(st.part),
        ),
        (CopyStageView::Reading, CopyEventView::Read(Ok(n))) => if n == 0 {
            (at(st, CopyStageView::Finalizing), CopyActionView::Finalize(st.part))
        } else {
            (at(st, CopyStageView::Writing(n)), CopyActionView::WriteChunk(n))
        },
        (CopyStageView::Reading, CopyEventView::Read(Err(e))) => (
            at(st, CopyStageView::Removing(TransferErrorView::Failed("read: "@ + e))),
            CopyActionView::RemovePart(st.part),
        ),
        (CopyStageView::Writing(n), CopyEventView::Written(Ok(()))) => (
            CopyView { stage: CopyStageView::Reading, sent: (st.sent + n) as u64, ..st },
            CopyActionView::ReadChunk,
        ),
        (CopyStageView::Writing(_), CopyEventView::Written(Err(e))) => (
            at(st, CopyStageView::Removing(TransferErrorView::Failed("write: "@ + e))),
            CopyActionView::RemovePart(st.part),
        ),
        (CopyStageView::Finalizing, CopyEventView::Finalized(Ok(()))) => (at(st, CopyStageView::Done), CopyActionView::Done(Ok(st.sent))),
        (CopyStageView::Finalizing, CopyEventView::Finalized(Err(e))) => (
            at(st, CopyStageView::Done),
            CopyActionView::Done(Err(TransferErrorView::Failed(e))),
        ),
        (CopyStageView::Removing(err), CopyEventView::Removed) => (at(st, CopyStageView::Done), CopyActionView::Done(Err(err))),
        _ => (st, CopyActionView::Done(Err(TransferErrorView::Cancelled))),
    }
}

/// A copy only ever touches its `.part` file, and renames it over the
/// destination only after the whole source was read with every write
/// successful; a cancel or a failed read or write removes the `.part` file;
/// the byte count grows only when a chunk was written.
pub proof fn lemma_copy_never_corrupts(st: CopyView, ev: CopyEventView)
    requires
        event_fits(st.stage, ev),
        st.stage is Writing ==> st.sent + st.stage->Writing_0 <= u64::MAX,
    ensures
        copy_next(st, ev).1 is Finalize ==> st.stage is Reading && ev == CopyEventView::Read(Ok(0)),
        copy_next(st, ev).1 is Finalize ==> copy_next(st, ev).1 == CopyActionView::Finalize(st.part),
        copy_next(st, ev).1 is RemovePart ==> copy_next(st, ev).1 == CopyActionView::RemovePart(st.part),
        (st.stage is Reading && (ev is Cancelled || ev matches CopyEventView::Read(Err(_)))) ==> copy_next(st, ev).1
            == CopyActionView::RemovePart(st.part),
        (st.stage is Writing && ev matches CopyEventView::Written(Err(_))) ==> copy_next(st, ev).1 == CopyActionView::RemovePart(
            st.part,
        ),
        (st.stage is Writing && ev matches CopyEventView::Written(Ok(_))) ==> copy_next(st, ev).0.sent == st.sent
            + st.stage->Writing_0,
        !(st.stage is Writing && ev matches CopyEventView::Written(Ok(_))) ==> copy_next(st, ev).0.sent == st.sent,
        copy_next(st, ev).0.dst == st.dst && copy_next(st, ev).0.part == st.part,
{
}

// ------------------------------------------------------------------ the step

impl CopyState {
    /// A copy to `dst`, written first to `part_path(dst)`.
    pub fn new(dst: &str) -> (r: CopyState)
        ensures
            r@ == (CopyView { dst: dst@, part: part_path_of(dst@), stage: CopyStageView::Opening, sent: 0 }),
    {
        CopyState { dst: dst.to_owned(), part: part_path(dst), stage: CopyStage::Opening, sent: 0 }
    }

    /// The event fits the stage the copy is in.
    pub fn expects(&self, ev: &CopyEvent) -> (r: bool)
        ensures
            r == event_fits(self@.stage, ev@),
    {
        match (&self.stage, ev) {
            (CopyStage::Opening, CopyEvent::Opened(_)) => true,
            (CopyStage::Reading, CopyEvent::Cancelled) => true,
            (CopyStage::Reading, CopyEvent::Read(_)) => true,
            (CopyStage::Writing(_), CopyEvent::Written(_)) => true,
            (CopyStage::Finalizing, CopyEvent::Finalized(_)) => true,
            (CopyStage::Removing(_), CopyEvent::Removed) => true,
            _ => false,
        }
    }
}

fn prefixed(prefix: &str, e: &str) -> (r: String)
    ensures
        r@ == prefix@ + e@,
{
    let mut m = chars_of(prefix);
    let t = chars_of(e);
    append_chars(&mut m, &t);
    string_of(&m)
}

/// One step of the copy (see `copy_next`). The byte count must not pass
/// `u64::MAX`.
pub fn copy_step(st: &mut CopyState, ev: CopyEvent) -> (a: CopyAction)
    requires
        event_fits(old(st)@.stage, ev@),
        old(st)@.stage is Writing && ev is Written ==> old(st).sent + old(st)@.stage->Writing_0 <= u64::MAX,
    ensures
        (final(st)@, a@) == copy_next(old(st)@, ev@),
{
    let mut stage = CopyStage::Done;
    std::mem::swap(&mut stage, &mut st.stage);
    match (stage, ev) {
        (CopyStage::Opening, CopyEvent::Opened(Ok(()))) => {
            st.stage = CopyStage::Reading;
            CopyAction::ReadChunk
        },
        (CopyStage::Opening, CopyEvent::Opened(Err(e))) => CopyAction::Done(Err(TransferError::Failed(e))),
        (CopyStage::Reading, CopyEvent::Cancelled) => {
            st.stage = CopyStage::Removing(TransferError::Cancelled);
            CopyAction::RemovePart(st.part.clone())
        },
        (CopyStage::Reading, CopyEvent::Read(Ok(n))) => {
            if n == 0 {
                st.stage = CopyStage::Finalizing;
                CopyAction::Finalize(st.part.clone())
            } else {
                st.stage = CopyStage::Writing(n);
                CopyAction::WriteChunk(n)
            }
        },
        (CopyStage::Reading, CopyEvent::Read(Err(e))) => {
            st.stage = CopyStage::Removing(TransferError::Failed(prefixed("read: ", e.as_str())));
            CopyAction::RemovePart(st.part.clone())
        },
        (CopyStage::Writing(n), CopyEvent::Written(Ok(()))) => {
            st.sent = st.sent + n;
            st.stage = CopyStage::Reading;
            CopyAction::ReadChunk
        },
        (CopyStage::Writing(_), CopyEvent::Written(Err(e))) => {
            st.stage = CopyStage::Removing(TransferError::Failed(prefixed("write: ", e.as_str())));
            CopyAction::RemovePart(st.part.clone())
        },
        (CopyStage::Finalizing, CopyEvent::Finalized(Ok(()))) => CopyAction::Done(Ok(st.sent)),
        (CopyStage::Finalizing, CopyEvent::Finalized(Err(e))) => CopyAction::Done(Err(TransferError::Failed(e))),
        (CopyStage::Removing(err), CopyEvent::Removed) => CopyAction::Done(Err(err)),
        (other, _) => {
            st.stage = other;
            CopyAction::Done(Err(TransferError::Cancelled))
        },
    }
}

} // verus!
