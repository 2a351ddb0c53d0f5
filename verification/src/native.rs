//! The decision core of a native (in-process) provider: a chunked
//! transfer is a loop of events — received bytes, progress-poll ticks,
//! the cancellation signal, the end of the stream — and this state
//! machine decides, for each event, what the surrounding task does. The
//! I/O itself stays with the embedding application; cancellation yields
//! a distinguishable cancellation outcome, never an I/O error, and
//! progress is emitted only when its percentage actually changed.
use vstd::prelude::*;

verus! {

/// Progress of one native transfer: bytes moved, the expected total (0
/// when the remote end did not say), and the percentage last emitted to
/// the sink.
pub struct TransferState {
    pub downloaded: u64,
    pub total: u64,
    pub last_emitted: u8,
}

/// What happened at a suspension point of the transfer loop.
#[derive(Clone, Copy, Debug, PartialEq, Eq, Structural)]
pub enum TransferEvent {
    /// A chunk of this many bytes arrived and was written.
    Chunk { size: u64 },
    /// The progress-poll timer fired.
    Tick,
    /// The cancellation token was signalled.
    CancelSignalled,
    /// The byte stream ended normally.
    StreamEnd,
}

/// What the surrounding task must do next.
#[derive(Clone, Copy, Debug, PartialEq, Eq, Structural)]
pub enum TransferAction {
    /// Keep looping; nothing to report.
    KeepGoing,
    /// Report this percentage to the progress sink, then keep looping.
    EmitProgress(u8),
    /// Stop: the transfer was cancelled cooperatively. This outcome is
    /// distinct from every failure, so callers can tell cancellation
    /// from an I/O error.
    StopCancelled,
    /// Stop: the stream is complete; report 100 percent.
    StopComplete,
}

/// The percentage `done` of `total` bytes stand for: 0 while the total
/// is unknown, never above 100 even if more bytes arrived than promised.
pub open spec fn spec_percent(done: u64, total: u64) -> int {
    if total == 0 {
        0
    } else if done >= total {
        100
    } else {
        (done * 100) / (total as int)
    }
}

/// Executable counterpart of `spec_percent`.
pub fn percent_of(done: u64, total: u64) -> (p: u8)
    ensures
        p == spec_percent(done, total),
        p <= 100,
{
    if total == 0 {
        0
    } else if done >= total {
        100
    } else {
        let q = ((done as u128) * 100) / (total as u128);
        proof {
            let dd = done as int;
            let tt = total as int;
            assert(dd * 100 <= tt * 100) by (nonlinear_arith)
                requires
                    dd <= tt,
                    0 <= dd,
            ;
            assert((dd * 100) / tt <= (tt * 100) / tt) by (nonlinear_arith)
                requires
                    dd * 100 <= tt * 100,
                    tt >= 1,
                    0 <= dd,
            ;
            assert((tt * 100) / tt == 100) by (nonlinear_arith)
                requires
                    tt >= 1,
            ;
        }
        q as u8
    }
}

/// Advance the transfer by one event. The cancellation signal always
/// stops with the distinguishable cancelled outcome; a chunk only grows
/// the byte count (saturating, so a lying peer cannot overflow it); a
/// tick emits the current percentage exactly when it differs from the
/// one last emitted — stale polls are silent; the end of the stream
/// completes the transfer.
pub fn transfer_step(state: &mut TransferState, event: TransferEvent) -> (action: TransferAction)
    ensures
        event is CancelSignalled ==> action is StopCancelled && *final(state) == *old(state),
        (match event {
            TransferEvent::Chunk { size } => action is KeepGoing && final(state).downloaded == (
            if old(state).downloaded + size <= u64::MAX {
                old(state).downloaded + size
            } else {
                u64::MAX as int
            }) && final(state).total == old(state).total && final(state).last_emitted == old(state).last_emitted,
            _ => true,
        }),
        event is Tick ==> {
            let p = spec_percent(old(state).downloaded, old(state).total);
            if p == old(state).last_emitted {
                action is KeepGoing && *final(state) == *old(state)
            } else {
                action == TransferAction::EmitProgress(p as u8) && final(state).last_emitted == p
                    && final(state).downloaded == old(state).downloaded && final(state).total
                    == old(state).total
            }
        },
        event is StreamEnd ==> action is StopComplete && *final(state) == *old(state),
{
    match event {
        TransferEvent::CancelSignalled => TransferAction::StopCancelled,
        TransferEvent::Chunk { size } => {
            if state.downloaded <= u64::MAX - size {
                state.downloaded = state.downloaded + size;
            } else {
                state.downloaded = u64::MAX;
            }
            TransferAction::KeepGoing
        },
        TransferEvent::Tick => {
            let p = percent_of(state.downloaded, state.total);
            if p == state.last_emitted {
                TransferAction::KeepGoing
            } else {
                state.last_emitted = p;
                TransferAction::EmitProgress(p)
            }
        },
        TransferEvent::StreamEnd => TransferAction::StopComplete,
    }
}

} // verus!
