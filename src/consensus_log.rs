//! Authority-set change signals, as carried in a block's digest.
use vstd::prelude::*;

use crate::{AuthorityId, AuthorityIndex, AuthorityList, BlockNumber};

verus! {

/// A scheduled change of the authority set: the new authorities and the
/// number of blocks to wait before they take over.
pub struct ScheduledChange {
    /// The authorities after the change.
    pub next_authorities: AuthorityList,
    /// The number of blocks to delay.
    pub delay: BlockNumber,
}

/// The keys of `ids`, each as its bytes.
pub open spec fn ids_view(ids: Seq<AuthorityId>) -> Seq<Seq<u8>> {
    ids.map_values(|a: AuthorityId| a@)
}

/// Mathematical view of a `ScheduledChange`.
pub struct ChangeView {
    /// The keys of the authorities, each as its bytes.
    pub next_authorities: Seq<Seq<u8>>,
    pub delay: BlockNumber,
}

impl View for ScheduledChange {
    type V = ChangeView;

    open spec fn view(&self) -> ChangeView {
        ChangeView { next_authorities: ids_view(self.next_authorities@), delay: self.delay }
    }
}

/// A consensus log item of Tendermint.
pub enum ConsensusLog {
    /// Schedule an authority set change after `delay` finalized blocks.
    /// The earliest one in a block is respected, unless the block also
    /// carries a `ForcedChange`; none is taken while a change is pending.
    ScheduledChange(ScheduledChange),
    /// Force an authority set change after `delay` imported blocks past the
    /// given median last finalized block. The earliest one in a block is
    /// respected and replaces any pending change.
    ForcedChange(BlockNumber, ScheduledChange),
    /// The authority with the given index is disabled until the next change.
    OnDisabled(AuthorityIndex),
    /// Pause the current authority set after the given delay.
    Pause(BlockNumber),
    /// Resume the current authority set after the given delay.
    Resume(BlockNumber),
}

/// Mathematical view of a `ConsensusLog`.
pub enum LogView {
    ScheduledChange(ChangeView),
    ForcedChange(BlockNumber, ChangeView),
    OnDisabled(AuthorityIndex),
    Pause(BlockNumber),
    Resume(BlockNumber),
}

impl View for ConsensusLog {
    type V = LogView;

    open spec fn view(&self) -> LogView {
        match self {
            ConsensusLog::ScheduledChange(c) => LogView::ScheduledChange(c@),
            ConsensusLog::ForcedChange(m, c) => LogView::ForcedChange(*m, c@),
            ConsensusLog::OnDisabled(i) => LogView::OnDisabled(*i),
            ConsensusLog::Pause(d) => LogView::Pause(*d),
            ConsensusLog::Resume(d) => LogView::Resume(*d),
        }
    }
}

impl ConsensusLog {
    /// Try to cast the log entry as a contained signal.
    pub fn try_into_change(self) -> (r: Option<ScheduledChange>)
        ensures
            match self {
                ConsensusLog::ScheduledChange(c) => r == Some(c),
                _ => r is None,
            },
    {
        match self {
            ConsensusLog::ScheduledChange(change) => Some(change),
            _ => None,
        }
    }

    /// Try to cast the log entry as a contained forced signal.
    pub fn try_into_forced_change(self) -> (r: Option<(BlockNumber, ScheduledChange)>)
        ensures
            match self {
                ConsensusLog::ForcedChange(m, c) => r == Some((m, c)),
                _ => r is None,
            },
    {
        match self {
            ConsensusLog::ForcedChange(median, change) => Some((median, change)),
            _ => None,
        }
    }

    /// Try to cast the log entry as a contained pause signal.
    pub fn try_into_pause(self) -> (r: Option<BlockNumber>)
        ensures
            match self {
                ConsensusLog::Pause(d) => r == Some(d),
                _ => r is None,
            },
    {
        match self {
            ConsensusLog::Pause(delay) => Some(delay),
            _ => None,
        }
    }

    /// Try to cast the log entry as a contained resume signal.
    pub fn try_into_resume(self) -> (r: Option<BlockNumber>)
        ensures
            match self {
                ConsensusLog::Resume(d) => r == Some(d),
                _ => r is None,
            },
    {
        match self {
            ConsensusLog::Resume(delay) => Some(delay),
            _ => None,
        }
    }
}

} // verus!
