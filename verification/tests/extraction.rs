use ckb_types::bytes::Bytes;
use ckb_types::packed::WitnessArgs;
use ckb_types::prelude::{Builder, Entity, Pack};
use rgbpp_indexer::extractor::{
    decode_lock, decode_unlock, extract_locks, extract_unlocks, index_rgbpp_lock, Candidate,
};
use rgbpp_indexer::schemas::rgbpp::{RGBPPLock, RGBPPUnlock};
use rgbpp_indexer::transaction::{OutPoint, Transaction};

fn unlock_of_version(version: u8) -> Vec<u8> {
    vec![
        36, 0, 0, 0, 20, 0, 0, 0, 22, 0, 0, 0, 24, 0, 0, 0, 31, 0, 0, 0, version, 0, 2, 3, 3, 0,
        0, 0, 0xaa, 0xbb, 0xcc, 1, 0, 0, 0, 0xdd,
    ]
}

fn lock_of_index(out_index: u8) -> Vec<u8> {
    let mut bytes = vec![out_index, 0, 0, 0];
    bytes.extend(0u8..32);
    bytes
}

fn wrap(lock: &[u8]) -> Vec<u8> {
    WitnessArgs::new_builder()
        .lock(Some(Bytes::from(lock.to_vec())).pack())
        .build()
        .as_bytes()
        .to_vec()
}

#[test]
fn unlock_is_found_inside_a_witness() {
    let found = decode_unlock(&wrap(&unlock_of_version(1)));
    assert_eq!(found, RGBPPUnlock::from_slice(&unlock_of_version(1)));
    assert!(found.is_some());
}

#[test]
fn witness_that_fails_at_any_stage_gives_no_unlock() {
    // no witness wrapper at all
    assert_eq!(decode_unlock(&[]), None);
    assert_eq!(decode_unlock(&unlock_of_version(1)), None);
    // a wrapper without the lock field
    let empty = WitnessArgs::new_builder().build().as_bytes().to_vec();
    assert_eq!(decode_unlock(&empty), None);
    // a wrapper whose lock field holds something else
    assert_eq!(decode_unlock(&wrap(&[0u8; 65])), None);
    assert_eq!(decode_unlock(&wrap(&lock_of_index(1))), None);
    // a wrapper whose unlock payload sits in another field
    let misplaced = WitnessArgs::new_builder()
        .input_type(Some(Bytes::from(unlock_of_version(1))).pack())
        .build()
        .as_bytes()
        .to_vec();
    assert_eq!(decode_unlock(&misplaced), None);
}

#[test]
fn lock_is_found_in_arguments_of_the_right_size() {
    assert_eq!(decode_lock(&lock_of_index(3)), RGBPPLock::from_slice(&lock_of_index(3)));
    assert!(decode_lock(&lock_of_index(3)).is_some());
    assert_eq!(decode_lock(&[0u8; 20]), None);
    assert_eq!(decode_lock(&[]), None);
}

#[test]
fn unlocks_keep_the_order_of_the_witnesses() {
    let witnesses = vec![
        wrap(&unlock_of_version(1)),
        vec![1, 2, 3],
        wrap(&unlock_of_version(2)),
        vec![],
        wrap(&[0u8; 65]),
        wrap(&unlock_of_version(3)),
    ];
    let found = extract_unlocks(&witnesses);
    let versions: Vec<u16> = found.iter().map(|unlock| unlock.version()).collect();
    assert_eq!(versions, vec![1, 2, 3]);
    assert_eq!(extract_unlocks(&vec![]), vec![]);
    assert_eq!(extract_unlocks(&vec![vec![0u8; 7]]), vec![]);
}

#[test]
fn malformed_witness_changes_nothing() {
    let with = vec![wrap(&unlock_of_version(1)), vec![0xff; 40], wrap(&unlock_of_version(2))];
    let without = vec![wrap(&unlock_of_version(1)), wrap(&unlock_of_version(2))];
    assert_eq!(extract_unlocks(&with), extract_unlocks(&without));
}

#[test]
fn locks_pool_spent_outputs_before_own_outputs() {
    let pre_outputs = vec![lock_of_index(1), vec![0u8; 20], lock_of_index(2)];
    let outputs = vec![vec![], lock_of_index(3), vec![0u8; 37]];
    let found = extract_locks(&pre_outputs, &outputs);
    let indexes: Vec<u32> = found.iter().map(|lock| lock.out_index()).collect();
    assert_eq!(indexes, vec![1, 2, 3]);
    assert_eq!(extract_locks(&vec![], &vec![]), vec![]);
}

#[test]
fn malformed_arguments_change_nothing() {
    let found = extract_locks(&vec![vec![1, 2], lock_of_index(1)], &vec![vec![0u8; 35]]);
    assert_eq!(found, extract_locks(&vec![lock_of_index(1)], &vec![]));
}

#[test]
fn candidates_come_unlocks_first() {
    let tx = Transaction {
        hash: [1u8; 32],
        witnesses: vec![vec![9], wrap(&unlock_of_version(5))],
        inputs: vec![OutPoint { tx_hash: [2u8; 32], index: 0 }],
        outputs: vec![lock_of_index(8), vec![0u8; 3]],
    };
    let found: Vec<Candidate> = index_rgbpp_lock(&tx, &vec![lock_of_index(7)]).into_iter().collect();
    assert_eq!(
        found,
        vec![
            Candidate::Unlock(RGBPPUnlock::from_slice(&unlock_of_version(5)).unwrap()),
            Candidate::Lock(RGBPPLock::from_slice(&lock_of_index(7)).unwrap()),
            Candidate::Lock(RGBPPLock::from_slice(&lock_of_index(8)).unwrap()),
        ]
    );
}

#[test]
fn transaction_without_structures_has_no_candidates() {
    let tx = Transaction {
        hash: [1u8; 32],
        witnesses: vec![vec![], vec![0u8; 100]],
        inputs: vec![],
        outputs: vec![vec![0u8; 20]],
    };
    assert!(index_rgbpp_lock(&tx, &vec![]).is_empty());
}
