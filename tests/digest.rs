use parity_scale_codec::{Compact, Encode};
use tendermint_primitives::authority_set::{AuthoritySet, DelayKind};
use tendermint_primitives::consensus_log::ConsensusLog;
use tendermint_primitives::digest::{decode_entry, decode_signals, DecodedEntry, DigestEntry};
use tendermint_primitives::{AuthorityId, TMNT_ENGINE_ID};

fn key(b: u8) -> AuthorityId {
    [b; 32]
}

fn scheduled(ids: &[u8], delay: u64) -> Vec<u8> {
    let ids: Vec<AuthorityId> = ids.iter().map(|b| key(*b)).collect();
    (1u8, ids, delay).encode()
}

fn forced(median: u64, ids: &[u8], delay: u64) -> Vec<u8> {
    let ids: Vec<AuthorityId> = ids.iter().map(|b| key(*b)).collect();
    (2u8, median, ids, delay).encode()
}

fn ours(data: Vec<u8>) -> DigestEntry {
    DigestEntry { engine: TMNT_ENGINE_ID, data }
}

#[test]
fn decodes_scheduled_change() {
    match decode_entry(&scheduled(&[1, 2], 10)) {
        DecodedEntry::Log(ConsensusLog::ScheduledChange(c)) => {
            assert_eq!(c.next_authorities, vec![key(1), key(2)]);
            assert_eq!(c.delay, 10);
        },
        _ => panic!("expected a scheduled change"),
    }
}

#[test]
fn decodes_forced_change() {
    match decode_entry(&forced(7, &[3], 2)) {
        DecodedEntry::Log(ConsensusLog::ForcedChange(m, c)) => {
            assert_eq!(m, 7);
            assert_eq!(c.next_authorities, vec![key(3)]);
            assert_eq!(c.delay, 2);
        },
        _ => panic!("expected a forced change"),
    }
}

#[test]
fn decodes_long_authority_list() {
    let ids: Vec<u8> = (0..70).collect();
    match decode_entry(&scheduled(&ids, 1)) {
        DecodedEntry::Log(ConsensusLog::ScheduledChange(c)) => {
            assert_eq!(c.next_authorities.len(), 70);
            assert_eq!(c.next_authorities[69], key(69));
        },
        _ => panic!("expected a scheduled change"),
    }
}

#[test]
fn decodes_disabled_pause_and_resume() {
    assert!(matches!(
        decode_entry(&(3u8, 258u64).encode()),
        DecodedEntry::Log(ConsensusLog::OnDisabled(258))
    ));
    assert!(matches!(decode_entry(&(4u8, 5u64).encode()), DecodedEntry::Log(ConsensusLog::Pause(5))));
    assert!(matches!(decode_entry(&(5u8, 6u64).encode()), DecodedEntry::Log(ConsensusLog::Resume(6))));
}

#[test]
fn unknown_tags_are_not_errors() {
    assert!(matches!(decode_entry(&[0u8, 1, 2]), DecodedEntry::UnknownTag));
    assert!(matches!(decode_entry(&[6u8]), DecodedEntry::UnknownTag));
}

#[test]
fn malformed_entries_are_reported() {
    assert!(matches!(decode_entry(&[]), DecodedEntry::Malformed));
    assert!(matches!(decode_entry(&[3u8, 1, 2]), DecodedEntry::Malformed));
    let mut truncated = scheduled(&[1, 2], 10);
    truncated.pop();
    assert!(matches!(decode_entry(&truncated), DecodedEntry::Malformed));
    // a count of one written in two bytes is not canonical
    let mut noncanonical = vec![1u8, 0b0000_0101, 0];
    noncanonical.extend_from_slice(&key(1));
    noncanonical.extend_from_slice(&10u64.to_le_bytes());
    assert!(matches!(decode_entry(&noncanonical), DecodedEntry::Malformed));
    let mut canonical = vec![1u8];
    canonical.extend(Compact(1u32).encode());
    canonical.extend_from_slice(&key(1));
    canonical.extend_from_slice(&10u64.to_le_bytes());
    assert!(matches!(decode_entry(&canonical), DecodedEntry::Log(_)));
}

#[test]
fn scan_keeps_order_and_skips_other_engines() {
    let entries = vec![
        ours((4u8, 1u64).encode()),
        DigestEntry { engine: *b"BABE", data: scheduled(&[9], 1) },
        ours(vec![3u8, 1]),
        ours(scheduled(&[1], 3)),
        ours(vec![9u8]),
        ours((3u8, 2u64).encode()),
    ];
    let d = decode_signals(&entries);
    assert_eq!(d.malformed, vec![2]);
    assert_eq!(d.logs.len(), 3);
    assert!(matches!(d.logs[0], ConsensusLog::Pause(1)));
    assert!(matches!(&d.logs[1], ConsensusLog::ScheduledChange(c) if c.delay == 3));
    assert!(matches!(d.logs[2], ConsensusLog::OnDisabled(2)));
}

#[test]
fn observing_a_digest_schedules_its_change() {
    let mut s = AuthoritySet::new(vec![key(1), key(2), key(3)], 0);
    let entries = vec![ours(vec![1u8]), ours(scheduled(&[1, 2, 3, 4], 10))];
    let malformed = s.observe_digest(&entries, 50);
    assert_eq!(malformed, vec![0]);
    assert!(!s.advance(59, DelayKind::Finalized));
    assert!(s.advance(60, DelayKind::Finalized));
    assert_eq!(s.current_authorities, vec![key(1), key(2), key(3), key(4)]);
    assert_eq!(s.current_set_id, 1);
}

