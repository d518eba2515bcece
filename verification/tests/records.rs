use rgbpp_indexer::persister::{upsert_rgbpp_lock, upsert_rgbpp_unlock, upsert_unlock_with_id};
use rgbpp_indexer::record::{reversed, LockRecord, UnlockRecord};
use rgbpp_indexer::schemas::rgbpp::{RGBPPLock, RGBPPUnlock};

const UNLOCK_DIGEST: [u8; 32] = [
    51, 237, 209, 229, 27, 55, 151, 106, 40, 54, 40, 81, 182, 245, 250, 61, 207, 62, 233, 169, 246,
    124, 23, 114, 75, 113, 242, 143, 146, 129, 4, 156,
];

fn sample_unlock() -> Vec<u8> {
    vec![
        36, 0, 0, 0, 20, 0, 0, 0, 22, 0, 0, 0, 24, 0, 0, 0, 31, 0, 0, 0, 1, 0, 2, 3, 3, 0, 0, 0,
        0xaa, 0xbb, 0xcc, 1, 0, 0, 0, 0xdd,
    ]
}

fn sample_lock(out_index: u32, fill: u8) -> Vec<u8> {
    let mut bytes = out_index.to_le_bytes().to_vec();
    bytes.extend((0u8..32).map(|i| i.wrapping_add(fill)));
    bytes
}

#[test]
fn lock_id_is_the_encoding() {
    let bytes = sample_lock(7, 0);
    let lock = RGBPPLock::from_slice(&bytes).unwrap();
    assert_eq!(lock.lock_id(), bytes);
    assert_eq!(lock.lock_id().len(), 36);
}

#[test]
fn lock_ids_differ_where_a_field_differs() {
    let a = RGBPPLock::from_slice(&sample_lock(7, 0)).unwrap();
    let same = RGBPPLock::from_slice(&sample_lock(7, 0)).unwrap();
    let other_index = RGBPPLock::from_slice(&sample_lock(8, 0)).unwrap();
    let other_txid = RGBPPLock::from_slice(&sample_lock(7, 1)).unwrap();
    assert_eq!(a.lock_id(), same.lock_id());
    assert_ne!(a.lock_id(), other_index.lock_id());
    assert_ne!(a.lock_id(), other_txid.lock_id());
    assert_eq!(a.btc_txid(), other_index.btc_txid());
}

#[test]
fn unlock_id_is_the_digest_of_the_encoding() {
    let unlock = RGBPPUnlock::from_slice(&sample_unlock()).unwrap();
    assert_eq!(unlock.unlock_id(), UNLOCK_DIGEST.to_vec());
    assert_eq!(unlock.unlock_id(), ckb_hash::blake2b_256(sample_unlock()).to_vec());
    assert_ne!(unlock.unlock_id(), sample_unlock());
}

#[test]
fn unlock_ids_follow_the_encoding() {
    let a = RGBPPUnlock::from_slice(&sample_unlock()).unwrap();
    let same = RGBPPUnlock::from_slice(&sample_unlock()).unwrap();
    let mut changed = sample_unlock();
    changed[35] = 0xde;
    let other = RGBPPUnlock::from_slice(&changed).unwrap();
    assert_eq!(a.unlock_id(), same.unlock_id());
    assert_ne!(a.unlock_id(), other.unlock_id());
    assert_eq!(other.unlock_id().len(), 32);
}

#[test]
fn reversed_turns_the_bytes_around() {
    assert_eq!(reversed(&[]), Vec::<u8>::new());
    assert_eq!(reversed(&[1]), vec![1]);
    assert_eq!(reversed(&[1, 2, 3]), vec![3, 2, 1]);
}

#[test]
fn lock_record_reverses_the_txid() {
    let bytes = sample_lock(0x0a0b0c0d, 0);
    let lock = RGBPPLock::from_slice(&bytes).unwrap();
    let record = LockRecord::new(&lock, &[9u8; 32]);
    assert_eq!(
        record,
        LockRecord {
            lock_id: bytes,
            out_index: 0x0a0b0c0d,
            btc_txid: (0u8..32).rev().collect(),
            tx: vec![9u8; 32],
        }
    );
}

#[test]
fn unlock_record_holds_the_raw_blobs() {
    let unlock = RGBPPUnlock::from_slice(&sample_unlock()).unwrap();
    let record = UnlockRecord::new(&unlock, vec![1, 2, 3], &[4u8; 32]);
    assert_eq!(
        record,
        UnlockRecord {
            unlock_id: vec![1, 2, 3],
            version: 1,
            input_len: 2,
            output_len: 3,
            btc_tx: vec![0xaa, 0xbb, 0xcc],
            btc_tx_proof: vec![0xdd],
            tx: vec![4u8; 32],
        }
    );
    // the getters hand out the fields as encoded, the record strips the count
    assert_eq!(unlock.btc_tx(), vec![3, 0, 0, 0, 0xaa, 0xbb, 0xcc]);
    assert_eq!(unlock.btc_tx_proof(), vec![1, 0, 0, 0, 0xdd]);
}

#[test]
fn unlock_record_of_empty_blobs_holds_nothing() {
    let bytes: Vec<u8> = vec![
        32, 0, 0, 0, 20, 0, 0, 0, 22, 0, 0, 0, 24, 0, 0, 0, 28, 0, 0, 0, 0, 0, 0, 0, 0, 0, 0, 0,
        0, 0, 0, 0,
    ];
    let unlock = RGBPPUnlock::from_slice(&bytes).unwrap();
    let record = UnlockRecord::new(&unlock, vec![], &[0u8; 32]);
    assert_eq!(record.btc_tx, Vec::<u8>::new());
    assert_eq!(record.btc_tx_proof, Vec::<u8>::new());
}

#[test]
fn unlock_row_keeps_the_byte_order_of_the_blobs() {
    // version 0, no extra data, a transaction `de ad` and a proof `be`
    let bytes: Vec<u8> = vec![
        35, 0, 0, 0, 20, 0, 0, 0, 22, 0, 0, 0, 24, 0, 0, 0, 30, 0, 0, 0, 0, 0, 0, 0, 2, 0, 0, 0,
        0xde, 0xad, 1, 0, 0, 0, 0xbe,
    ];
    let unlock = RGBPPUnlock::from_slice(&bytes).unwrap();
    let record = upsert_rgbpp_unlock(&unlock, &[0xaa; 32], false).unwrap();
    assert_eq!(record.btc_tx, vec![0xde, 0xad]);
    assert_eq!(record.btc_tx_proof, vec![0xbe]);
    assert_eq!(record.tx, vec![0xaa; 32]);
    assert_eq!(record.version, 0);
    assert_eq!(record.input_len, 0);
    assert_eq!(record.output_len, 0);
    assert_eq!(record.unlock_id, ckb_hash::blake2b_256(&bytes).to_vec());
}

#[test]
fn numbers_are_read_as_molecule_reads_them() {
    for out_index in [0u32, 1, 0xff, 0x100, 0x01020304, 0x80000000, u32::MAX] {
        let bytes = sample_lock(out_index, 0);
        let lock = RGBPPLock::from_slice(&bytes).unwrap();
        assert_eq!(lock.out_index(), out_index);
        assert_eq!(lock.out_index(), molecule::unpack_number(&bytes));
    }
}

#[test]
fn unlock_record_widens_the_lengths() {
    let mut bytes = sample_unlock();
    bytes[22] = 255;
    bytes[23] = 128;
    let unlock = RGBPPUnlock::from_slice(&bytes).unwrap();
    let record = UnlockRecord::new(&unlock, vec![], &[0u8; 32]);
    assert_eq!(record.input_len, 255);
    assert_eq!(record.output_len, 128);
}

#[test]
fn upsert_lock_inserts_only_where_none_exists() {
    let lock = RGBPPLock::from_slice(&sample_lock(1, 0)).unwrap();
    assert_eq!(upsert_rgbpp_lock(&lock, &[5u8; 32], true), None);
    assert_eq!(
        upsert_rgbpp_lock(&lock, &[5u8; 32], false),
        Some(LockRecord::new(&lock, &[5u8; 32]))
    );
    let record = upsert_rgbpp_lock(&lock, &[5u8; 32], false).unwrap();
    assert_eq!(record.lock_id, lock.lock_id());
    assert_eq!(record.tx, vec![5u8; 32]);
}

#[test]
fn upsert_unlock_inserts_only_where_none_exists() {
    let unlock = RGBPPUnlock::from_slice(&sample_unlock()).unwrap();
    assert_eq!(upsert_rgbpp_unlock(&unlock, &[5u8; 32], true), None);
    let record = upsert_rgbpp_unlock(&unlock, &[5u8; 32], false).unwrap();
    assert_eq!(record.unlock_id, UNLOCK_DIGEST.to_vec());
    assert_eq!(record, UnlockRecord::new(&unlock, UNLOCK_DIGEST.to_vec(), &[5u8; 32]));
}

#[test]
fn upsert_unlock_with_id_uses_the_given_id() {
    let unlock = RGBPPUnlock::from_slice(&sample_unlock()).unwrap();
    assert_eq!(upsert_unlock_with_id(&unlock, vec![7; 32], &[5u8; 32], true), None);
    let record = upsert_unlock_with_id(&unlock, vec![7; 32], &[5u8; 32], false).unwrap();
    assert_eq!(record.unlock_id, vec![7; 32]);
    assert_eq!(record.version, 1);
}
