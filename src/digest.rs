//! Decoding of the change signals that a block's digest carries.
use vstd::prelude::*;

use crate::consensus_log::{ChangeView, ConsensusLog, LogView, ScheduledChange};
use crate::authority_set::logs_view;
use crate::AuthorityId;

verus! {

/// The little-endian value of the `n` bytes of `b` from `pos`.
pub open spec fn le_value(b: Seq<u8>, pos: int, n: nat) -> nat
    decreases n,
{
    if n == 0 {
        0
    } else {
        b[pos] as nat + 256 * le_value(b, pos + 1, (n - 1) as nat)
    }
}

/// The canonical compact `u32` at the front of `b`, with the number of bytes
/// left after it. The two low bits of the first byte give the width: one, two
/// or four bytes that hold the value shifted left by two, or the first byte
/// `3` followed by the value in four bytes. A value that a narrower width
/// could hold is refused.
pub open spec fn compact_u32_prefix(b: Seq<u8>) -> Option<(u32, nat)> {
    if b.len() == 0 {
        None
    } else if b[0] % 4 == 0 {
        Some(((b[0] / 4) as u32, (b.len() - 1) as nat))
    } else if b[0] % 4 == 1 {
        if b.len() < 2 || le_value(b, 0, 2) / 4 < 64 {
            None
        } else {
            Some(((le_value(b, 0, 2) / 4) as u32, (b.len() - 2) as nat))
        }
    } else if b[0] % 4 == 2 {
        if b.len() < 4 || le_value(b, 0, 4) / 4 < 16384 {
            None
        } else {
            Some(((le_value(b, 0, 4) / 4) as u32, (b.len() - 4) as nat))
        }
    } else {
        if b[0] != 3 || b.len() < 5 || le_value(b, 1, 4) < 0x4000_0000 {
            None
        } else {
            Some((le_value(b, 1, 4) as u32, (b.len() - 5) as nat))
        }
    }
}

/// Relies on parity-scale-codec's `Decode for Compact<u32>`, the length prefix
/// of an encoded `Vec`: it decodes as `compact_u32_prefix` states and leaves
/// the rest of the slice unread.
#[verifier::external_body]
fn decode_compact_u32(bytes: &[u8]) -> (r: Option<(u32, usize)>)
    ensures
        match r {
            Some((v, rest)) => compact_u32_prefix(bytes@) == Some((v, rest as nat)),
            None => compact_u32_prefix(bytes@) is None,
        },
{
    let mut input = bytes;
    match <parity_scale_codec::Compact<u32> as parity_scale_codec::Decode>::decode(&mut input) {
        Ok(c) => Some((c.0, input.len())),
        Err(_) => None,
    }
}

/// The `u64` whose little-endian bytes start at `pos`.
pub open spec fn u64_le(b: Seq<u8>, pos: int) -> u64 {
    le_value(b, pos, 8) as u64
}

/// 256 to the power `n`.
pub open spec fn pow256(n: nat) -> nat
    decreases n,
{
    if n == 0 {
        1
    } else {
        256 * pow256((n - 1) as nat)
    }
}

proof fn lemma_le_value_bound(b: Seq<u8>, pos: int, n: nat)
    requires
        0 <= pos,
        pos + n <= b.len(),
    ensures
        le_value(b, pos, n) < pow256(n),
    decreases n,
{
    if n > 0 {
        lemma_le_value_bound(b, pos + 1, (n - 1) as nat);
    }
}

proof fn lemma_pow256_mono(m: nat, n: nat)
    requires
        m <= n,
    ensures
        pow256(m) <= pow256(n),
    decreases n - m,
{
    if m < n {
        lemma_pow256_mono(m, (n - 1) as nat);
    }
}

/// The `n` keys of 32 bytes each that start at `pos`.
pub open spec fn ids_at(b: Seq<u8>, pos: int, n: nat) -> Seq<Seq<u8>> {
    Seq::new(n, |i: int| b.subrange(pos + 32 * i, pos + 32 * i + 32))
}

/// The scheduled change encoded at `pos` (a compact count of keys, the keys,
/// then the delay), with the position after it.
pub open spec fn change_at(b: Seq<u8>, pos: int) -> Option<(ChangeView, int)> {
    match compact_u32_prefix(b.subrange(pos, b.len() as int)) {
        Some((n, rest)) => {
            let p = b.len() - rest;
            if p + 32 * n + 8 <= b.len() {
                Some(
                    (
                        ChangeView {
                            next_authorities: ids_at(b, p, n as nat),
                            delay: u64_le(b, p + 32 * n),
                        },
                        p + 32 * n + 8,
                    ),
                )
            } else {
                None
            }
        },
        None => None,
    }
}

/// What one consensus entry of this engine holds.
pub enum EntryView {
    Log(LogView),
    /// A tag that names no signal of this engine.
    UnknownTag,
    Malformed,
}

/// The decoding of the bytes of one consensus entry of this engine: a tag
/// (1 scheduled change, 2 forced change, 3 disabled, 4 pause, 5 resume) and
/// its fields; bytes after them are not read.
pub open spec fn entry_decoding(b: Seq<u8>) -> EntryView {
    if b.len() == 0 {
        EntryView::Malformed
    } else if b[0] == 1 {
        match change_at(b, 1) {
            Some((c, _)) => EntryView::Log(LogView::ScheduledChange(c)),
            None => EntryView::Malformed,
        }
    } else if 2 <= b[0] <= 5 {
        if b.len() < 9 {
            EntryView::Malformed
        } else if b[0] == 2 {
            match change_at(b, 9) {
                Some((c, _)) => EntryView::Log(LogView::ForcedChange(u64_le(b, 1), c)),
                None => EntryView::Malformed,
            }
        } else if b[0] == 3 {
            EntryView::Log(LogView::OnDisabled(u64_le(b, 1)))
        } else if b[0] == 4 {
            EntryView::Log(LogView::Pause(u64_le(b, 1)))
        } else {
            EntryView::Log(LogView::Resume(u64_le(b, 1)))
        }
    } else {
        EntryView::UnknownTag
    }
}

/// A decoded consensus entry of this engine.
pub enum DecodedEntry {
    Log(ConsensusLog),
    UnknownTag,
    Malformed,
}

impl View for DecodedEntry {
    type V = EntryView;

    open spec fn view(&self) -> EntryView {
        match self {
            DecodedEntry::Log(l) => EntryView::Log(l@),
            DecodedEntry::UnknownTag => EntryView::UnknownTag,
            DecodedEntry::Malformed => EntryView::Malformed,
        }
    }
}

fn read_u64(b: &[u8], pos: usize) -> (r: u64)
    requires
        pos + 8 <= b@.len(),
    ensures
        r == u64_le(b@, pos as int),
{
    let mut acc: u64 = 0;
    let mut k: usize = 8;
    while k > 0
        invariant
            k <= 8,
            pos + 8 <= b@.len(),
            b@.len() == b.len(),
            acc as nat == le_value(b@, pos + k, (8 - k) as nat),
        decreases k,
    {
        k = k - 1;
        proof {
            lemma_le_value_bound(b@, pos + k + 1, (7 - k) as nat);
            lemma_pow256_mono((7 - k) as nat, 7);
            reveal_with_fuel(pow256, 8);
            assert(pow256(7) == 0x100_0000_0000_0000);
        }
        acc = acc * 256 + b[pos + k] as u64;
    }
    acc
}

fn read_id(b: &[u8], pos: usize) -> (r: AuthorityId)
    requires
        pos + 32 <= b@.len(),
    ensures
        r@ == b@.subrange(pos as int, pos + 32),
{
    let mut a: AuthorityId = [0u8; 32];
    let mut k: usize = 0;
    while k < 32
        invariant
            k <= 32,
            pos + 32 <= b@.len(),
            b@.len() == b.len(),
            forall|j: int| 0 <= j < k ==> a@[j] == b@[pos + j],
        decreases 32 - k,
    {
        a[k] = b[pos + k];
        k = k + 1;
    }
    assert(a@ =~= b@.subrange(pos as int, pos + 32));
    a
}

fn read_change(b: &[u8], pos: usize) -> (r: Option<(ScheduledChange, usize)>)
    requires
        pos <= b@.len(),
    ensures
        match change_at(b@, pos as int) {
            Some((c, q)) => r matches Some((x, p)) && x@ == c && p == q,
            None => r is None,
        },
{
    let tail = vstd::slice::slice_subrange(b, pos, b.len());
    match decode_compact_u32(tail) {
        None => None,
        Some((n, rest)) => {
            let p = b.len() - rest;
            let n = n as usize;
            if n > (b.len() - p) / 32 || b.len() - p - 32 * n < 8 {
                return None;
            }
            let mut ids: Vec<AuthorityId> = Vec::new();
            let mut i: usize = 0;
            while i < n
                invariant
                    i <= n,
                    p + 32 * n + 8 <= b@.len(),
                    b@.len() == b.len(),
                    ids@.len() == i,
                    forall|j: int|
                        0 <= j < i ==> (#[trigger] ids@[j])@ == b@.subrange(
                            p + 32 * j,
                            p + 32 * j + 32,
                        ),
                decreases n - i,
            {
                assert(32 * i + 32 <= 32 * n) by (nonlinear_arith)
                    requires
                        i < n,
                ;
                let id = read_id(b, p + 32 * i);
                ids.push(id);
                i = i + 1;
            }
            let delay = read_u64(b, p + 32 * n);
            let c = ScheduledChange { next_authorities: ids, delay };
            assert(c@.next_authorities =~= ids_at(b@, p as int, n as nat));
            Some((c, p + 32 * n + 8))
        },
    }
}

/// Decodes the bytes of one consensus entry of this engine.
pub fn decode_entry(b: &[u8]) -> (r: DecodedEntry)
    ensures
        r@ == entry_decoding(b@),
{
    if b.len() == 0 {
        return DecodedEntry::Malformed;
    }
    let tag = b[0];
    if tag == 1 {
        match read_change(b, 1) {
            Some((c, _)) => DecodedEntry::Log(ConsensusLog::ScheduledChange(c)),
            None => DecodedEntry::Malformed,
        }
    } else if 2 <= tag && tag <= 5 {
        if b.len() < 9 {
            DecodedEntry::Malformed
        } else if tag == 2 {
            let m = read_u64(b, 1);
            match read_change(b, 9) {
                Some((c, _)) => DecodedEntry::Log(ConsensusLog::ForcedChange(m, c)),
                None => DecodedEntry::Malformed,
            }
        } else if tag == 3 {
            DecodedEntry::Log(ConsensusLog::OnDisabled(read_u64(b, 1)))
        } else if tag == 4 {
            DecodedEntry::Log(ConsensusLog::Pause(read_u64(b, 1)))
        } else {
            DecodedEntry::Log(ConsensusLog::Resume(read_u64(b, 1)))
        }
    } else {
        DecodedEntry::UnknownTag
    }
}

/// One consensus entry of a block's digest: the engine that it is for, and
/// its bytes.
pub struct DigestEntry {
    pub engine: [u8; 4],
    pub data: Vec<u8>,
}

/// The engine identifier of Tendermint's entries, `TMNT`.
pub open spec fn tendermint_engine() -> Seq<u8> {
    seq![84u8, 77u8, 78u8, 84u8]
}

/// Whether `e` is an entry of this engine.
pub open spec fn is_tendermint_entry(e: DigestEntry) -> bool {
    e.engine@ == tendermint_engine()
}

/// The signals of the entries `es` of this engine that decode, in order.
pub open spec fn signals_of(es: Seq<DigestEntry>) -> Seq<LogView>
    decreases es.len(),
{
    if es.len() == 0 {
        Seq::empty()
    } else {
        let prev = signals_of(es.drop_last());
        if is_tendermint_entry(es.last()) {
            match entry_decoding(es.last().data@) {
                EntryView::Log(l) => prev.push(l),
                _ => prev,
            }
        } else {
            prev
        }
    }
}

/// The positions in `es` of the entries of this engine that are malformed.
pub open spec fn malformed_of(es: Seq<DigestEntry>) -> Seq<int>
    decreases es.len(),
{
    if es.len() == 0 {
        Seq::empty()
    } else {
        let prev = malformed_of(es.drop_last());
        if is_tendermint_entry(es.last()) && entry_decoding(es.last().data@) is Malformed {
            prev.push(es.len() - 1)
        } else {
            prev
        }
    }
}

/// The signals decoded from a digest, and the positions of the entries of
/// this engine that could not be decoded.
pub struct DecodedSignals {
    pub logs: Vec<ConsensusLog>,
    pub malformed: Vec<usize>,
}

fn is_tendermint_engine(engine: &[u8; 4]) -> (r: bool)
    ensures
        r == (engine@ == tendermint_engine()),
{
    let r = engine[0] == 84u8 && engine[1] == 77u8 && engine[2] == 78u8 && engine[3] == 84u8;
    if r {
        assert(engine@ =~= tendermint_engine());
    }
    r
}

/// Decodes the signals of a block's digest: entries of other engines and
/// entries with a tag that names no signal are skipped, a malformed entry is
/// reported by its position, and the scan goes on past it.
pub fn decode_signals(entries: &Vec<DigestEntry>) -> (r: DecodedSignals)
    ensures
        logs_view(r.logs@) == signals_of(entries@),
        r.malformed@.map_values(|i: usize| i as int) == malformed_of(entries@),
{
    let mut logs: Vec<ConsensusLog> = Vec::new();
    let mut malformed: Vec<usize> = Vec::new();
    let mut i: usize = 0;
    while i < entries.len()
        invariant
            i <= entries.len(),
            logs_view(logs@) == signals_of(entries@.subrange(0, i as int)),
            malformed@.map_values(|k: usize| k as int) == malformed_of(
                entries@.subrange(0, i as int),
            ),
        decreases entries.len() - i,
    {
        let ghost prefix = entries@.subrange(0, i + 1);
        assert(prefix.drop_last() =~= entries@.subrange(0, i as int));
        assert(prefix.last() == entries@[i as int]);
        let e = &entries[i];
        if is_tendermint_engine(&e.engine) {
            let d = decode_entry(e.data.as_slice());
            match d {
                DecodedEntry::Log(l) => {
                    let ghost before = logs@;
                    logs.push(l);
                    assert(logs_view(logs@) =~= logs_view(before).push(l@));
                },
                DecodedEntry::UnknownTag => {},
                DecodedEntry::Malformed => {
                    let ghost before = malformed@;
                    malformed.push(i);
                    assert(malformed@.map_values(|k: usize| k as int) =~= before.map_values(
                        |k: usize| k as int,
                    ).push(i as int));
                },
            }
        }
        i = i + 1;
    }
    assert(entries@.subrange(0, entries.len() as int) =~= entries@);
    DecodedSignals { logs, malformed }
}

} // verus!
