//! The authority-set policy: how the change signals of a block are reconciled
//! into a pending change, and when a pending change takes over.
use vstd::prelude::*;

use crate::consensus_log::{ids_view, ChangeView, ConsensusLog, LogView, ScheduledChange};
use crate::digest::{decode_signals, malformed_of, signals_of, DigestEntry};
use crate::{AuthorityIndex, AuthorityList, BlockNumber, SetId};

verus! {

/// The block count that a pending change, pause or resume waits on.
#[derive(Clone, Copy, Debug, PartialEq, Eq, Structural)]
pub enum DelayKind {
    /// Counted in finalized blocks.
    Finalized,
    /// Counted in imported blocks.
    Imported,
}

/// The kinds into which the signals of a block are sorted.
#[derive(Clone, Copy, PartialEq, Eq, Structural)]
pub enum SignalKind {
    /// A scheduled change.
    Change,
    /// A forced change.
    Forced,
    /// A disabled authority.
    Disabled,
    /// A pause.
    Pause,
    /// A resume.
    Resume,
}

/// A change that waits for `change.delay` blocks of `kind` past `base`.
pub struct PendingChange {
    pub change: ScheduledChange,
    pub base: BlockNumber,
    pub kind: DelayKind,
}

/// Mathematical view of a `PendingChange`.
pub struct PendingView {
    pub change: ChangeView,
    pub base: BlockNumber,
    pub kind: DelayKind,
}

impl View for PendingChange {
    type V = PendingView;

    open spec fn view(&self) -> PendingView {
        PendingView { change: self.change@, base: self.base, kind: self.kind }
    }
}

/// A pause or a resume of voting, due `delay` finalized blocks past `base`.
#[derive(Clone, Copy, Debug)]
pub struct PendingFlip {
    pub base: BlockNumber,
    pub delay: BlockNumber,
}

/// The authority-set state of one fork.
pub struct AuthoritySet {
    pub current_authorities: AuthorityList,
    pub current_set_id: SetId,
    pub pending_change: Option<PendingChange>,
    /// Indices of the authorities disabled in the current set, each once.
    pub disabled: Vec<AuthorityIndex>,
    /// Whether voting is halted.
    pub paused: bool,
    /// The pending pause of voting, if any.
    pub pending_pause: Option<PendingFlip>,
    /// The pending resume of voting, if any.
    pub pending_resume: Option<PendingFlip>,
}

/// Mathematical view of an `AuthoritySet`.
pub struct SetView {
    pub current_authorities: Seq<Seq<u8>>,
    pub current_set_id: SetId,
    pub pending_change: Option<PendingView>,
    pub disabled: Seq<AuthorityIndex>,
    pub paused: bool,
    pub pending_pause: Option<PendingFlip>,
    pub pending_resume: Option<PendingFlip>,
}

impl View for AuthoritySet {
    type V = SetView;

    open spec fn view(&self) -> SetView {
        SetView {
            current_authorities: ids_view(self.current_authorities@),
            current_set_id: self.current_set_id,
            pending_change: match self.pending_change {
                Some(p) => Some(p@),
                None => None,
            },
            disabled: self.disabled@,
            paused: self.paused,
            pending_pause: self.pending_pause,
            pending_resume: self.pending_resume,
        }
    }
}

/// The views of a sequence of signals.
pub open spec fn logs_view(logs: Seq<ConsensusLog>) -> Seq<LogView> {
    logs.map_values(|l: ConsensusLog| l@)
}

/// The kind of a signal.
pub open spec fn kind_of(l: LogView) -> SignalKind {
    match l {
        LogView::ScheduledChange(_) => SignalKind::Change,
        LogView::ForcedChange(_, _) => SignalKind::Forced,
        LogView::OnDisabled(_) => SignalKind::Disabled,
        LogView::Pause(_) => SignalKind::Pause,
        LogView::Resume(_) => SignalKind::Resume,
    }
}

/// Index of the first signal of kind `k` in digest order.
pub open spec fn first_of_kind(logs: Seq<LogView>, k: SignalKind) -> Option<int>
    decreases logs.len(),
{
    if logs.len() == 0 {
        None
    } else {
        match first_of_kind(logs.drop_last(), k) {
            Some(i) => Some(i),
            None => if kind_of(logs.last()) == k {
                Some(logs.len() - 1)
            } else {
                None
            },
        }
    }
}

/// The pending change after a block with signals `logs` at height `number`.
pub open spec fn pending_after(
    pending: Option<PendingView>,
    logs: Seq<LogView>,
    number: BlockNumber,
) -> Option<PendingView> {
    match first_of_kind(logs, SignalKind::Forced) {
        Some(i) => match logs[i] {
            LogView::ForcedChange(m, c) => Some(
                PendingView { change: c, base: m, kind: DelayKind::Imported },
            ),
            _ => pending,
        },
        None => match pending {
            Some(p) => Some(p),
            None => match first_of_kind(logs, SignalKind::Change) {
                Some(i) => match logs[i] {
                    LogView::ScheduledChange(c) => Some(
                        PendingView { change: c, base: number, kind: DelayKind::Finalized },
                    ),
                    _ => None,
                },
                None => None,
            },
        },
    }
}

/// The delay that a pause or a resume signal carries.
pub open spec fn signal_delay(l: LogView) -> BlockNumber {
    match l {
        LogView::Pause(d) => d,
        LogView::Resume(d) => d,
        _ => 0,
    }
}

/// The pending pause (`k` is `Pause`) or resume (`k` is `Resume`) after a
/// block with signals `logs` at height `number`: one already pending stays,
/// else the first signal of kind `k` is taken.
pub open spec fn flip_after(
    flip: Option<PendingFlip>,
    logs: Seq<LogView>,
    number: BlockNumber,
    k: SignalKind,
) -> Option<PendingFlip> {
    match flip {
        Some(f) => Some(f),
        None => match first_of_kind(logs, k) {
            Some(i) => Some(PendingFlip { base: number, delay: signal_delay(logs[i]) }),
            None => None,
        },
    }
}

/// The disabled indices after the signals `logs`: each new index is added
/// once, in the order of first appearance.
pub open spec fn disabled_after(disabled: Seq<AuthorityIndex>, logs: Seq<LogView>) -> Seq<
    AuthorityIndex,
>
    decreases logs.len(),
{
    if logs.len() == 0 {
        disabled
    } else {
        let prev = disabled_after(disabled, logs.drop_last());
        match logs.last() {
            LogView::OnDisabled(i) => if prev.contains(i) {
                prev
            } else {
                prev.push(i)
            },
            _ => prev,
        }
    }
}

/// The state after observing a block with signals `logs` at height `number`.
pub open spec fn observed(s: SetView, logs: Seq<LogView>, number: BlockNumber) -> SetView {
    SetView {
        pending_change: pending_after(s.pending_change, logs, number),
        disabled: disabled_after(s.disabled, logs),
        pending_pause: flip_after(s.pending_pause, logs, number, SignalKind::Pause),
        pending_resume: flip_after(s.pending_resume, logs, number, SignalKind::Resume),
        ..s
    }
}

/// Whether the delay of `p` has elapsed at block `number` of `domain`.
pub open spec fn change_due(p: PendingView, number: BlockNumber, domain: DelayKind) -> bool {
    p.kind == domain && number >= p.base + p.change.delay
}

/// Whether the delay of `f` has elapsed at block `number` of `domain`.
pub open spec fn flip_due(f: PendingFlip, number: BlockNumber, domain: DelayKind) -> bool {
    domain == DelayKind::Finalized && number >= f.base + f.delay
}

/// Whether reaching block `number` in `domain` activates the pending change.
pub open spec fn activation(s: SetView, number: BlockNumber, domain: DelayKind) -> bool {
    match s.pending_change {
        Some(p) => change_due(p, number, domain),
        None => false,
    }
}

/// The state after block `number` was reached in `domain`.
pub open spec fn advanced(s: SetView, number: BlockNumber, domain: DelayKind) -> SetView {
    let s1 = match s.pending_change {
        Some(p) => if change_due(p, number, domain) {
            SetView {
                current_authorities: p.change.next_authorities,
                current_set_id: (s.current_set_id + 1) as SetId,
                pending_change: None,
                disabled: Seq::empty(),
                ..s
            }
        } else {
            s
        },
        None => s,
    };
    let s2 = match s1.pending_pause {
        Some(f) => if flip_due(f, number, domain) {
            SetView { paused: true, pending_pause: None, ..s1 }
        } else {
            s1
        },
        None => s1,
    };
    match s2.pending_resume {
        Some(f) => if flip_due(f, number, domain) {
            SetView { paused: false, pending_resume: None, ..s2 }
        } else {
            s2
        },
        None => s2,
    }
}

/// `first_of_kind` gives the first position of a signal of kind `k`, or
/// nothing when there is none.
pub proof fn lemma_first_of_kind(logs: Seq<LogView>, k: SignalKind)
    ensures
        match first_of_kind(logs, k) {
            Some(i) => 0 <= i < logs.len() && kind_of(logs[i]) == k && forall|j: int|
                0 <= j < i ==> kind_of(#[trigger] logs[j]) != k,
            None => forall|j: int| 0 <= j < logs.len() ==> kind_of(#[trigger] logs[j]) != k,
        },
    decreases logs.len(),
{
    if logs.len() > 0 {
        lemma_first_of_kind(logs.drop_last(), k);
        assert(forall|j: int| 0 <= j < logs.len() - 1 ==> logs.drop_last()[j] == logs[j]);
    }
}

fn has_kind(l: &ConsensusLog, k: SignalKind) -> (r: bool)
    ensures
        r == (kind_of(l@) == k),
{
    let lk = match l {
        ConsensusLog::ScheduledChange(_) => SignalKind::Change,
        ConsensusLog::ForcedChange(_, _) => SignalKind::Forced,
        ConsensusLog::OnDisabled(_) => SignalKind::Disabled,
        ConsensusLog::Pause(_) => SignalKind::Pause,
        ConsensusLog::Resume(_) => SignalKind::Resume,
    };
    lk == k
}

/// The index of the first signal of kind `k`.
pub fn first_index_of(logs: &Vec<ConsensusLog>, k: SignalKind) -> (r: Option<usize>)
    ensures
        first_of_kind(logs_view(logs@), k) == match r {
            Some(i) => Some(i as int),
            None => None::<int>,
        },
        r matches Some(i) ==> i < logs.len(),
{
    let ghost v = logs_view(logs@);
    let mut found: Option<usize> = None;
    let mut i: usize = 0;
    while i < logs.len()
        invariant
            i <= logs.len(),
            v == logs_view(logs@),
            first_of_kind(v.subrange(0, i as int), k) == match found {
                Some(j) => Some(j as int),
                None => None::<int>,
            },
        decreases logs.len() - i,
    {
        assert(v.subrange(0, i + 1).drop_last() =~= v.subrange(0, i as int));
        if found.is_none() && has_kind(&logs[i], k) {
            found = Some(i);
        }
        i = i + 1;
    }
    assert(v.subrange(0, logs.len() as int) =~= v);
    proof {
        lemma_first_of_kind(v, k);
    }
    found
}

fn contains_index(v: &Vec<AuthorityIndex>, x: AuthorityIndex) -> (r: bool)
    ensures
        r == v@.contains(x),
{
    let mut i: usize = 0;
    while i < v.len()
        invariant
            i <= v.len(),
            forall|j: int| 0 <= j < i ==> v@[j] != x,
        decreases v.len() - i,
    {
        if v[i] == x {
            return true;
        }
        i = i + 1;
    }
    false
}

/// Adds the index of every `OnDisabled` signal to `disabled`, once each.
pub fn note_disabled(disabled: &mut Vec<AuthorityIndex>, logs: &Vec<ConsensusLog>)
    ensures
        final(disabled)@ == disabled_after(old(disabled)@, logs_view(logs@)),
{
    let ghost v = logs_view(logs@);
    let mut i: usize = 0;
    while i < logs.len()
        invariant
            i <= logs.len(),
            v == logs_view(logs@),
            disabled@ == disabled_after(old(disabled)@, v.subrange(0, i as int)),
        decreases logs.len() - i,
    {
        assert(v.subrange(0, i + 1).drop_last() =~= v.subrange(0, i as int));
        match &logs[i] {
            ConsensusLog::OnDisabled(x) => {
                if !contains_index(disabled, *x) {
                    disabled.push(*x);
                }
            },
            _ => {},
        }
        i = i + 1;
    }
    assert(v.subrange(0, logs.len() as int) =~= v);
}

fn delay_at(logs: &Vec<ConsensusLog>, i: usize) -> (d: BlockNumber)
    requires
        i < logs@.len(),
    ensures
        d == signal_delay(logs_view(logs@)[i as int]),
{
    match &logs[i] {
        ConsensusLog::Pause(d) => *d,
        ConsensusLog::Resume(d) => *d,
        _ => 0,
    }
}

fn flip_ready(f: &PendingFlip, number: BlockNumber, domain: DelayKind) -> (r: bool)
    ensures
        r == flip_due(*f, number, domain),
{
    domain == DelayKind::Finalized && number >= f.base && number - f.base >= f.delay
}

impl AuthoritySet {
    /// A set with the given authorities and id, nothing pending, none
    /// disabled, voting not halted.
    pub fn new(authorities: AuthorityList, set_id: SetId) -> (r: AuthoritySet)
        ensures
            r@ == (SetView {
                current_authorities: ids_view(authorities@),
                current_set_id: set_id,
                pending_change: None,
                disabled: Seq::empty(),
                paused: false,
                pending_pause: None,
                pending_resume: None,
            }),
    {
        AuthoritySet {
            current_authorities: authorities,
            current_set_id: set_id,
            pending_change: None,
            disabled: Vec::new(),
            paused: false,
            pending_pause: None,
            pending_resume: None,
        }
    }

    /// Reconciles the change signals of the block at height `number`: the
    /// first forced change replaces any pending change; else the first
    /// scheduled change is taken only when none is pending; every disabled
    /// index is noted; the first pause is taken only when no pause is
    /// pending, and the first resume only when no resume is pending. The
    /// current authorities and set id are left alone.
    pub fn observe_block(&mut self, logs: Vec<ConsensusLog>, number: BlockNumber)
        ensures
            final(self)@ == observed(old(self)@, logs_view(logs@), number),
            final(self).current_set_id == old(self).current_set_id,
    {
        let ghost v = logs_view(logs@);
        let mut logs = logs;
        let forced = first_index_of(&logs, SignalKind::Forced);
        let scheduled = first_index_of(&logs, SignalKind::Change);
        let pause = first_index_of(&logs, SignalKind::Pause);
        let resume = first_index_of(&logs, SignalKind::Resume);
        note_disabled(&mut self.disabled, &logs);
        if self.pending_pause.is_none() {
            match pause {
                Some(i) => {
                    let d = delay_at(&logs, i);
                    self.pending_pause = Some(PendingFlip { base: number, delay: d });
                },
                None => {},
            }
        }
        if self.pending_resume.is_none() {
            match resume {
                Some(i) => {
                    let d = delay_at(&logs, i);
                    self.pending_resume = Some(PendingFlip { base: number, delay: d });
                },
                None => {},
            }
        }
        match forced {
            Some(i) => {
                assert(v[i as int] == logs@[i as int]@);
                let l = logs.remove(i);
                match l {
                    ConsensusLog::ForcedChange(m, c) => {
                        self.pending_change = Some(
                            PendingChange { change: c, base: m, kind: DelayKind::Imported },
                        );
                    },
                    _ => {},
                }
            },
            None => {
                if self.pending_change.is_none() {
                    match scheduled {
                        Some(i) => {
                            assert(v[i as int] == logs@[i as int]@);
                            let l = logs.remove(i);
                            match l {
                                ConsensusLog::ScheduledChange(c) => {
                                    self.pending_change = Some(
                                        PendingChange {
                                            change: c,
                                            base: number,
                                            kind: DelayKind::Finalized,
                                        },
                                    );
                                },
                                _ => {},
                            }
                        },
                        None => {},
                    }
                }
            },
        }
    }

    /// Decodes the signals of the digest of the block at height `number` and
    /// observes them; returns the positions of the malformed entries of this
    /// engine.
    pub fn observe_digest(&mut self, entries: &Vec<DigestEntry>, number: BlockNumber) -> (malformed:
        Vec<usize>)
        ensures
            final(self)@ == observed(old(self)@, signals_of(entries@), number),
            malformed@.map_values(|i: usize| i as int) == malformed_of(entries@),
    {
        let decoded = decode_signals(entries);
        self.observe_block(decoded.logs, number);
        decoded.malformed
    }

    /// Block `number` was reached in `domain` (finalized or imported). A
    /// pending change whose delay has elapsed in its own domain takes over:
    /// its authorities become current, the set id goes up by one, and the
    /// disabled indices are cleared. A pending pause, then a pending resume,
    /// is applied once its delay has elapsed in finalized blocks: a pause
    /// halts voting and a resume lets it go on, so when both fall due at once
    /// voting goes on. Returns whether a change took over.
    pub fn advance(&mut self, number: BlockNumber, domain: DelayKind) -> (activated: bool)
        requires
            activation(old(self)@, number, domain) ==> old(self).current_set_id < u64::MAX,
        ensures
            activated == activation(old(self)@, number, domain),
            final(self)@ == advanced(old(self)@, number, domain),
    {
        let due = match &self.pending_change {
            Some(p) => p.kind == domain && number >= p.base && number - p.base >= p.change.delay,
            None => false,
        };
        if due {
            let p = self.pending_change.take();
            match p {
                Some(p) => {
                    self.current_authorities = p.change.next_authorities;
                    self.current_set_id = self.current_set_id + 1;
                    self.disabled = Vec::new();
                },
                None => {},
            }
        }
        let pause_now = match &self.pending_pause {
            Some(f) => flip_ready(f, number, domain),
            None => false,
        };
        if pause_now {
            self.paused = true;
            self.pending_pause = None;
        }
        let resume_now = match &self.pending_resume {
            Some(f) => flip_ready(f, number, domain),
            None => false,
        };
        if resume_now {
            self.paused = false;
            self.pending_resume = None;
        }
        due
    }
}

/// Observing a block and then reaching a block number is a function of its
/// inputs: the same prior state, signals and block numbers always give the
/// same resulting state and the same activation decision.
pub proof fn lemma_replay_deterministic(
    s1: SetView,
    s2: SetView,
    logs: Seq<LogView>,
    number: BlockNumber,
    reached: BlockNumber,
    domain: DelayKind,
)
    requires
        s1 == s2,
    ensures
        advanced(observed(s1, logs, number), reached, domain) == advanced(
            observed(s2, logs, number),
            reached,
            domain,
        ),
        activation(observed(s1, logs, number), reached, domain) == activation(
            observed(s2, logs, number),
            reached,
            domain,
        ),
{
}

/// A block that carries a forced change ends with the first forced change
/// pending, counted in imported blocks, whatever was pending before and
/// wherever scheduled changes stand among its signals.
pub proof fn lemma_forced_wins(
    pending: Option<PendingView>,
    logs: Seq<LogView>,
    number: BlockNumber,
    k: int,
)
    requires
        0 <= k < logs.len(),
        logs[k] is ForcedChange,
    ensures
        match first_of_kind(logs, SignalKind::Forced) {
            Some(j) => 0 <= j <= k && (forall|i: int|
                0 <= i < j ==> !(#[trigger] logs[i] is ForcedChange)) && match logs[j] {
                LogView::ForcedChange(m, c) => pending_after(pending, logs, number) == Some(
                    PendingView { change: c, base: m, kind: DelayKind::Imported },
                ),
                _ => false,
            },
            None => false,
        },
{
    lemma_first_of_kind(logs, SignalKind::Forced);
    assert(kind_of(logs[k]) == SignalKind::Forced);
    let j = first_of_kind(logs, SignalKind::Forced).unwrap();
    assert(forall|i: int| 0 <= i < j ==> kind_of(logs[i]) != SignalKind::Forced);
    assert(forall|i: int| 0 <= i < j ==> !(#[trigger] logs[i] is ForcedChange));
}

/// While a change is pending, a block without a forced change leaves it as
/// it is, whatever scheduled changes the block carries.
pub proof fn lemma_pending_kept(pending: Option<PendingView>, logs: Seq<LogView>, number: BlockNumber)
    requires
        pending is Some,
        forall|i: int| 0 <= i < logs.len() ==> !(#[trigger] logs[i] is ForcedChange),
    ensures
        pending_after(pending, logs, number) == pending,
{
    lemma_first_of_kind(logs, SignalKind::Forced);
    if first_of_kind(logs, SignalKind::Forced) is Some {
        let j = first_of_kind(logs, SignalKind::Forced).unwrap();
        assert(!(logs[j] is ForcedChange));
    }
}

/// The set id goes up by exactly one when a change takes over and stays as it
/// is otherwise; observing a block never changes it.
pub proof fn lemma_set_id_steps(
    s: SetView,
    logs: Seq<LogView>,
    number: BlockNumber,
    reached: BlockNumber,
    domain: DelayKind,
)
    requires
        s.current_set_id < u64::MAX,
    ensures
        observed(s, logs, number).current_set_id == s.current_set_id,
        activation(s, reached, domain) ==> advanced(s, reached, domain).current_set_id
            == s.current_set_id + 1,
        !activation(s, reached, domain) ==> advanced(s, reached, domain).current_set_id
            == s.current_set_id,
        activation(s, reached, domain) ==> advanced(s, reached, domain).current_authorities
            == s.pending_change.unwrap().change.next_authorities && advanced(
            s,
            reached,
            domain,
        ).pending_change is None,
{
}

/// Where the scheduled changes of a block stand around its forced changes
/// does not matter: two blocks whose first forced change is the same end
/// with the same pending change, whatever was pending before each.
pub proof fn lemma_forced_order_free(
    p1: Option<PendingView>,
    logs1: Seq<LogView>,
    i1: int,
    p2: Option<PendingView>,
    logs2: Seq<LogView>,
    i2: int,
    number: BlockNumber,
)
    requires
        0 <= i1 < logs1.len(),
        0 <= i2 < logs2.len(),
        logs1[i1] is ForcedChange,
        logs1[i1] == logs2[i2],
        forall|j: int| 0 <= j < i1 ==> !(#[trigger] logs1[j] is ForcedChange),
        forall|j: int| 0 <= j < i2 ==> !(#[trigger] logs2[j] is ForcedChange),
    ensures
        pending_after(p1, logs1, number) == pending_after(p2, logs2, number),
{
    lemma_first_of_kind(logs1, SignalKind::Forced);
    lemma_first_of_kind(logs2, SignalKind::Forced);
    assert(kind_of(logs1[i1]) == SignalKind::Forced);
    assert(kind_of(logs2[i2]) == SignalKind::Forced);
    let j1 = first_of_kind(logs1, SignalKind::Forced).unwrap();
    let j2 = first_of_kind(logs2, SignalKind::Forced).unwrap();
    assert(!(j1 < i1)) by {
        if j1 < i1 {
            assert(!(logs1[j1] is ForcedChange));
        }
    }
    assert(!(i1 < j1));
    assert(!(j2 < i2)) by {
        if j2 < i2 {
            assert(!(logs2[j2] is ForcedChange));
        }
    }
    assert(!(i2 < j2));
}


} // verus!
