use ckb_types::bytes::Bytes;
use ckb_types::packed::{WitnessArgs, WitnessArgsReader};
use ckb_types::prelude::{Builder, Entity, Pack, Reader};
use rgbpp_indexer::layout::{check_bytes, check_bytes_opt, check_table, table_field};
use rgbpp_indexer::schemas::blockchain::{check_witness_args, read_witness_lock};
use rgbpp_indexer::schemas::rgbpp::{RGBPPLock, RGBPPUnlock};

/// Version 1, two inputs, three outputs, a transaction of three bytes and a
/// proof of one.
fn unlock_bytes() -> Vec<u8> {
    vec![
        36, 0, 0, 0, 20, 0, 0, 0, 22, 0, 0, 0, 24, 0, 0, 0, 31, 0, 0, 0, 1, 0, 2, 3, 3, 0, 0, 0,
        0xaa, 0xbb, 0xcc, 1, 0, 0, 0, 0xdd,
    ]
}

fn lock_bytes() -> Vec<u8> {
    let mut bytes: Vec<u8> = vec![0x04, 0x03, 0x02, 0x01];
    bytes.extend(0u8..32);
    bytes
}

fn witness_with_lock(lock: &[u8]) -> Vec<u8> {
    WitnessArgs::new_builder()
        .lock(Some(Bytes::from(lock.to_vec())).pack())
        .build()
        .as_bytes()
        .to_vec()
}

#[test]
fn byte_vector_needs_matching_count() {
    assert!(check_bytes(&[0, 0, 0, 0]));
    assert!(check_bytes(&[2, 0, 0, 0, 9, 9]));
    assert!(!check_bytes(&[2, 0, 0, 0, 9]));
    assert!(!check_bytes(&[2, 0, 0, 0, 9, 9, 9]));
    assert!(!check_bytes(&[0, 0, 0]));
    assert!(!check_bytes(&[]));
    assert!(!check_bytes(&[0, 1, 0, 0, 9]));
}

#[test]
fn optional_byte_vector_may_be_empty() {
    assert!(check_bytes_opt(&[]));
    assert!(check_bytes_opt(&[1, 0, 0, 0, 7]));
    assert!(!check_bytes_opt(&[1, 0, 0, 0]));
}

#[test]
fn table_header_is_checked() {
    let empty_witness: Vec<u8> = vec![16, 0, 0, 0, 16, 0, 0, 0, 16, 0, 0, 0, 16, 0, 0, 0];
    assert!(check_table(&empty_witness, 3));
    assert!(!check_table(&empty_witness, 2));
    assert!(!check_table(&empty_witness, 4));
    // the total size does not match
    assert!(!check_table(&[17, 0, 0, 0, 16, 0, 0, 0, 16, 0, 0, 0, 16, 0, 0, 0], 3));
    // an offset behind the end
    assert!(!check_table(&[16, 0, 0, 0, 16, 0, 0, 0, 17, 0, 0, 0, 16, 0, 0, 0], 3));
    // offsets that descend
    assert!(!check_table(
        &[18, 0, 0, 0, 16, 0, 0, 0, 18, 0, 0, 0, 17, 0, 0, 0, 1, 2],
        3
    ));
    // too short for a header
    assert!(!check_table(&[4, 0, 0, 0], 3));
    assert!(!check_table(&[], 1));
}

#[test]
fn table_fields_are_cut_at_the_offsets() {
    let unlock = unlock_bytes();
    assert!(check_table(&unlock, 4));
    assert_eq!(table_field(&unlock, 4, 0), &[1, 0]);
    assert_eq!(table_field(&unlock, 4, 1), &[2, 3]);
    assert_eq!(table_field(&unlock, 4, 2), &[3, 0, 0, 0, 0xaa, 0xbb, 0xcc]);
    assert_eq!(table_field(&unlock, 4, 3), &[1, 0, 0, 0, 0xdd]);
}

#[test]
fn lock_decodes_from_36_bytes_only() {
    let bytes = lock_bytes();
    let lock = RGBPPLock::from_slice(&bytes).unwrap();
    assert_eq!(lock.as_bytes(), bytes);
    assert_eq!(lock.out_index(), 0x01020304);
    assert_eq!(lock.btc_txid(), (0u8..32).collect::<Vec<u8>>());
    assert!(RGBPPLock::from_slice(&bytes[..35]).is_none());
    assert!(RGBPPLock::from_slice(&[bytes.clone(), vec![0]].concat()).is_none());
    assert!(RGBPPLock::from_slice(&[]).is_none());
}

#[test]
fn lock_out_index_uses_all_four_bytes() {
    let mut bytes = vec![0xff, 0xff, 0xff, 0xff];
    bytes.extend([0u8; 32]);
    assert_eq!(RGBPPLock::from_slice(&bytes).unwrap().out_index(), u32::MAX);
    bytes[3] = 0x7f;
    bytes[0] = 0;
    assert_eq!(RGBPPLock::from_slice(&bytes).unwrap().out_index(), 0x7fffff00);
}

#[test]
fn unlock_decodes_and_reads_its_fields() {
    let bytes = unlock_bytes();
    let unlock = RGBPPUnlock::from_slice(&bytes).unwrap();
    assert_eq!(unlock.as_bytes(), bytes);
    assert_eq!(unlock.version(), 1);
    assert_eq!(unlock.extra_data().input_len, 2);
    assert_eq!(unlock.extra_data().output_len, 3);
    assert_eq!(unlock.btc_tx(), vec![3, 0, 0, 0, 0xaa, 0xbb, 0xcc]);
    assert_eq!(unlock.btc_tx_proof(), vec![1, 0, 0, 0, 0xdd]);
}

#[test]
fn unlock_version_is_little_endian() {
    let mut bytes = unlock_bytes();
    bytes[20] = 0x34;
    bytes[21] = 0x12;
    assert_eq!(RGBPPUnlock::from_slice(&bytes).unwrap().version(), 0x1234);
    bytes[20] = 0xff;
    bytes[21] = 0xff;
    assert_eq!(RGBPPUnlock::from_slice(&bytes).unwrap().version(), u16::MAX);
}

#[test]
fn unlock_rejects_broken_layouts() {
    let good = unlock_bytes();
    assert!(RGBPPUnlock::from_slice(&[]).is_none());
    assert!(RGBPPUnlock::from_slice(&good[..35]).is_none());
    // a fifth field in the header
    let mut bad = good.clone();
    bad[4] = 24;
    assert!(RGBPPUnlock::from_slice(&bad).is_none());
    // a version of three bytes
    let mut bad = good.clone();
    bad[8] = 23;
    assert!(RGBPPUnlock::from_slice(&bad).is_none());
    // a transaction whose count is too large
    let mut bad = good.clone();
    bad[24] = 4;
    assert!(RGBPPUnlock::from_slice(&bad).is_none());
    // a proof whose count is too small
    let mut bad = good.clone();
    bad[31] = 0;
    assert!(RGBPPUnlock::from_slice(&bad).is_none());
    // a lock structure is no unlock structure
    assert!(RGBPPUnlock::from_slice(&lock_bytes()).is_none());
}

#[test]
fn unlock_with_empty_blobs_decodes() {
    let bytes: Vec<u8> = vec![
        32, 0, 0, 0, 20, 0, 0, 0, 22, 0, 0, 0, 24, 0, 0, 0, 28, 0, 0, 0, 0, 0, 0, 0, 0, 0, 0, 0,
        0, 0, 0, 0,
    ];
    let unlock = RGBPPUnlock::from_slice(&bytes).unwrap();
    assert_eq!(unlock.btc_tx(), vec![0, 0, 0, 0]);
    assert_eq!(unlock.btc_tx_proof(), vec![0, 0, 0, 0]);
    assert_eq!(unlock.version(), 0);
}

#[test]
fn witness_lock_is_the_payload_of_the_lock_field() {
    let witness = witness_with_lock(&[5, 6, 7]);
    assert!(check_witness_args(&witness));
    assert_eq!(read_witness_lock(&witness), Some(&[5u8, 6, 7][..]));
    let witness = witness_with_lock(&[]);
    assert_eq!(read_witness_lock(&witness), Some(&[][..]));
}

#[test]
fn witness_without_lock_has_none() {
    let witness = WitnessArgs::new_builder()
        .input_type(Some(Bytes::from(vec![1u8, 2])).pack())
        .output_type(Some(Bytes::from(vec![3u8])).pack())
        .build()
        .as_bytes()
        .to_vec();
    assert!(check_witness_args(&witness));
    assert_eq!(read_witness_lock(&witness), None);
    let witness = WitnessArgs::new_builder().build().as_bytes().to_vec();
    assert_eq!(witness, vec![16, 0, 0, 0, 16, 0, 0, 0, 16, 0, 0, 0, 16, 0, 0, 0]);
    assert_eq!(read_witness_lock(&witness), None);
}

#[test]
fn witness_with_all_fields_keeps_them_apart() {
    let witness = WitnessArgs::new_builder()
        .lock(Some(Bytes::from(vec![9u8; 5])).pack())
        .input_type(Some(Bytes::from(vec![1u8, 2])).pack())
        .output_type(Some(Bytes::from(vec![3u8])).pack())
        .build()
        .as_bytes()
        .to_vec();
    assert_eq!(read_witness_lock(&witness), Some(&[9u8; 5][..]));
}

#[test]
fn witness_check_agrees_with_ckb_types() {
    let good = witness_with_lock(&unlock_bytes());
    let mut samples: Vec<Vec<u8>> = vec![good.clone(), vec![], vec![0; 16], unlock_bytes()];
    for at in 0..good.len() {
        let mut changed = good.clone();
        changed[at] = changed[at].wrapping_add(1);
        samples.push(changed);
        samples.push(good[..at].to_vec());
    }
    for sample in samples {
        assert_eq!(
            check_witness_args(&sample),
            WitnessArgsReader::from_slice(&sample).is_ok(),
            "{:?}",
            sample
        );
    }
}

#[test]
fn garbage_is_no_witness() {
    assert_eq!(read_witness_lock(&[]), None);
    assert_eq!(read_witness_lock(&[1, 2, 3]), None);
    assert_eq!(read_witness_lock(&[0xff; 64]), None);
    let mut witness = witness_with_lock(&[5, 6, 7]);
    witness.push(0);
    assert_eq!(read_witness_lock(&witness), None);
}
